//! The shared contract of the Cortex real-time ML platform: the feature
//! payload, the versioned feature schema, the online-store keyspace, the
//! wire codec and the online-store fetch decision. No business logic.

pub mod codec;
pub mod error;
pub mod keys;
pub mod prediction;
pub mod record;
pub mod schema;
pub mod store;
pub mod wire;

pub use codec::{decode, decode_into, encode, encode_into};
pub use error::{CodecError, SchemaError, StoreError};
pub use keys::{feature_key, update_channel, DEFAULT_KEY_PREFIX};
pub use prediction::PredictionRecord;
pub use record::FeatureRecord;
pub use schema::{FeatureSchema, FeatureSpec};
pub use store::{complete_fetch, conclude_fetch, default_key_prefix, FetchResult, OnlineBackend, RecordHeader};
