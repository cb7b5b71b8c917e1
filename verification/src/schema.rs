//! The canonical, versioned feature schema.
//!
//! The ordered list of features **is** the vector order: index N here is
//! `FeatureRecord.features[N]`, in the online store, on the wire and in the
//! offline columns. Any change to names, order or count is a new `version`.

use crate::error::SchemaError;
use vstd::prelude::*;

verus! {

/// One entry in the ordered feature vector: a name and its declared dtype.
///
/// `dtype` is metadata for tooling and docs; every feature is a 32-bit float
/// on the wire whatever this field says.
#[derive(Debug, Clone, PartialEq)]
pub struct FeatureSpec {
    /// The feature's name, e.g. `"txn_count_1m"`.
    pub name: String,
    /// The feature's declared dtype, e.g. `"f32"`.
    pub dtype: String,
}

/// The versioned, ordered feature schema.
#[derive(Debug, Clone, PartialEq)]
pub struct FeatureSchema {
    /// Which feature set this is; stamped into every record produced under it.
    pub version: u32,
    /// The ordered feature entries.
    pub features: Vec<FeatureSpec>,
}

impl FeatureSchema {
    /// The number of features in the vector: the required length of
    /// `FeatureRecord.features` under this schema.
    pub fn width(&self) -> (width: usize)
        ensures
            width == self.features@.len(),
    {
        self.features.len()
    }

    /// The feature names, in canonical vector order.
    pub fn names(&self) -> (names: Vec<&str>)
        ensures
            names@.len() == self.features@.len(),
            forall|i: int| 0 <= i < names@.len() ==> #[trigger] names@[i]@ == self.features@[i].name@,
    {
        let mut names: Vec<&str> = Vec::new();
        let n = self.features.len();
        for i in 0..n
            invariant
                n == self.features@.len(),
                names@.len() == i,
                forall|j: int| 0 <= j < i ==> #[trigger] names@[j]@ == self.features@[j].name@,
        {
            names.push(self.features[i].name.as_str());
        }
        names
    }

    /// Validates a record's `schema_version` and vector length against this
    /// schema. The version is checked first, so a record wrong on both counts
    /// gets the more actionable train/serve-skew error.
    ///
    /// # Errors
    /// `SchemaError::VersionMismatch` when the versions differ, else
    /// `SchemaError::WidthMismatch` when the lengths differ.
    pub fn validate(&self, record_version: u32, vector_len: usize) -> (res: Result<(), SchemaError>)
        ensures
            record_version != self.version ==> (res matches Err(
                SchemaError::VersionMismatch { expected, got },
            ) && expected == self.version && got == record_version),
            record_version == self.version && vector_len != self.features@.len() ==> (res matches Err(
                SchemaError::WidthMismatch { expected, got },
            ) && expected == self.features@.len() && got == vector_len),
            record_version == self.version && vector_len == self.features@.len() ==> res is Ok,
    {
        if record_version != self.version {
            return Err(SchemaError::VersionMismatch { expected: self.version, got: record_version });
        }
        if vector_len != self.width() {
            return Err(SchemaError::WidthMismatch { expected: self.width(), got: vector_len });
        }
        Ok(())
    }
}

} // verus!
