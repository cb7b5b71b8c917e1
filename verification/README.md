# cortex_contract

The shared contract of the Cortex real-time ML platform, as a Verus-verified
library: the feature and prediction payloads and their Protobuf wire codec,
the versioned feature schema, the online-store keyspace, the error types and
the decision a store reader makes once the store has answered.

## Layout

- `src/wire.rs`: the Protobuf primitives (varints, keys, packed 32-bit words,
  strings). The field codecs are prost's, reached through trusted wrappers
  whose contracts state the bytes written and read; lemmas prove that what
  the encoders write the decoders read back.
- `src/record.rs`, `src/codec.rs`: `FeatureRecord`, its encoding and decoding
  (`encode`, `encode_into`, `decode`, `decode_into`) and the proof that
  decoding inverts encoding.
- `src/prediction.rs`: `PredictionRecord`, its codec and the same proof.
- `src/schema.rs`: `FeatureSchema` width, names and validation.
- `src/keys.rs`: the key and update-channel formats.
- `src/store.rs`: record header, fetch outcome, backend config,
  `complete_fetch` and `conclude_fetch` (what a fetch returns once the stored
  bytes are decoded), with the proof that a reader gets back what a writer
  stored.
- `src/error.rs`: the error enums and their messages.
- `app/`: plain Rust around the library: loading the schema file, the serde
  and `std::error::Error` views of the library's types, the async store traits
  and the Redis backend.

Features are 32-bit floats on the wire; the library holds each as its
IEEE-754 bit pattern (`f32::to_bits`).
