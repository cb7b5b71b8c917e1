//! The canonical feature payload.
//!
//! A `FeatureRecord`'s features are 32-bit floats on the wire (Protobuf
//! `repeated float`). This crate holds each one as its IEEE-754 bit pattern
//! (`f32::to_bits`): the wire format is defined over those bits, and a record
//! round-trips bit-exactly, NaN payloads included.

use vstd::prelude::*;

verus! {

/// One entity's computed features at one event time.
#[derive(Debug, Clone, PartialEq)]
pub struct FeatureRecord {
    /// The `FeatureSchema::version` the vector was produced under.
    pub schema_version: u32,
    /// The source event time, epoch milliseconds.
    pub event_time_ms: i64,
    /// The feature vector, in schema order, as IEEE-754 bit patterns.
    pub features: Vec<u32>,
}

/// The mathematical value of a `FeatureRecord`.
#[verifier::ext_equal]
pub struct FeatureRecordModel {
    pub schema_version: u32,
    pub event_time_ms: i64,
    pub features: Seq<u32>,
}

impl FeatureRecordModel {
    /// The record with every field at its default: zero, zero, no features.
    pub open spec fn empty() -> FeatureRecordModel {
        FeatureRecordModel { schema_version: 0, event_time_ms: 0, features: Seq::empty() }
    }
}

impl View for FeatureRecord {
    type V = FeatureRecordModel;

    open spec fn view(&self) -> FeatureRecordModel {
        FeatureRecordModel {
            schema_version: self.schema_version,
            event_time_ms: self.event_time_ms,
            features: self.features@,
        }
    }
}

impl FeatureRecord {
    /// Resets every field to its default; the feature vector keeps its
    /// allocation.
    pub fn clear(&mut self)
        ensures
            final(self)@ == FeatureRecordModel::empty(),
    {
        self.schema_version = 0;
        self.event_time_ms = 0;
        self.features.clear();
    }
}

impl Default for FeatureRecord {
    fn default() -> (rec: FeatureRecord)
        ensures
            rec@ == FeatureRecordModel::empty(),
    {
        FeatureRecord { schema_version: 0, event_time_ms: 0, features: Vec::new() }
    }
}

} // verus!
