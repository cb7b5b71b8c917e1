//! The online-store vocabulary shared by writers and readers, and the
//! decision a reader makes once the store has answered a fetch.
//!
//! A reader fetches an entity's stored bytes, decodes them into a reused
//! scratch record, checks the vector's length against the caller's buffer and
//! fills in the record's header. [`complete_fetch`] is that decision; the
//! network round trip and the copy into the caller's float buffer belong to
//! the backend around it.

use crate::codec::{decode_into, lemma_decode_encode, spec_decode, spec_encode};
use crate::error::{decode_failure_text, CodecError, StoreError};
use crate::keys::DEFAULT_KEY_PREFIX;
use crate::record::{FeatureRecord, FeatureRecordModel};
use prost::DecodeError;
use vstd::prelude::*;

verus! {

/// The non-feature metadata of a stored `FeatureRecord`, filled in by a
/// fetch alongside the feature vector: what a reader needs for its freshness
/// and schema-version checks.
#[derive(Debug, Clone, Copy, PartialEq, Eq, Structural)]
pub struct RecordHeader {
    /// The `schema_version` the stored record was written under.
    pub schema_version: u32,
    /// The stored record's source event time, epoch milliseconds.
    pub event_time_ms: i64,
}

impl Default for RecordHeader {
    fn default() -> (header: RecordHeader)
        ensures
            header.schema_version == 0,
            header.event_time_ms == 0,
    {
        RecordHeader { schema_version: 0, event_time_ms: 0 }
    }
}

/// Outcome of a fetch: whether an entry existed for the entity.
#[non_exhaustive]
#[derive(Debug, Clone, Copy, PartialEq, Eq, Structural)]
pub enum FetchResult {
    /// A record was found; the header and the feature vector were fully
    /// overwritten.
    Hit,
    /// No entry exists for the entity; the header and the feature vector are
    /// unchanged.
    Miss,
}

/// Selects an online-store backend and its connection config.
#[non_exhaustive]
#[derive(Debug, Clone, PartialEq)]
pub enum OnlineBackend {
    /// Redis (or a Redis-compatible store).
    Redis {
        /// Connection URL, e.g. `redis://localhost:6379`.
        url: String,
        /// Key prefix; [`default_key_prefix`] when the config gives none.
        key_prefix: String,
    },
}

/// The key prefix a backend config gets when it names none:
/// [`DEFAULT_KEY_PREFIX`].
pub fn default_key_prefix() -> (prefix: String)
    ensures
        prefix@ == DEFAULT_KEY_PREFIX@,
{
    String::from_str(DEFAULT_KEY_PREFIX)
}

/// What a fetch finds, given the stored bytes and the length of the
/// caller's feature buffer.
pub enum FetchOutcome {
    /// Nothing is stored for the entity.
    Miss,
    /// The stored record, whose width matches the caller's buffer.
    Hit(FeatureRecordModel),
    /// The stored bytes are not a valid encoding.
    Undecodable,
    /// The stored record, whose width does not match the caller's buffer.
    WrongShape(FeatureRecordModel),
}

/// The outcome of fetching `stored` (`None`: no entry) into a feature
/// buffer of length `dest_len`.
pub open spec fn spec_fetch(stored: Option<Seq<u8>>, dest_len: nat) -> FetchOutcome {
    match stored {
        None => FetchOutcome::Miss,
        Some(bytes) => match spec_decode(bytes) {
            None => FetchOutcome::Undecodable,
            Some(r) => if r.features.len() == dest_len {
                FetchOutcome::Hit(r)
            } else {
                FetchOutcome::WrongShape(r)
            },
        },
    }
}

/// The bytes a store answered with, if any.
pub open spec fn stored_view(stored: Option<&[u8]>) -> Option<Seq<u8>> {
    match stored {
        Some(bytes) => Some(bytes@),
        None => None,
    }
}

/// A fetch of the bytes that a writer stored for `r` (its encoding), into a
/// buffer of `r`'s width, hits with `r` itself: a reader gets back what the
/// writer wrote.
pub proof fn lemma_fetch_reads_back_write(r: FeatureRecordModel)
    requires
        4 * r.features.len() <= u64::MAX,
    ensures
        spec_fetch(Some(spec_encode(r)), r.features.len()) == FetchOutcome::Hit(r),
{
    lemma_decode_encode(r);
}

/// A fetch is a hit only when the stored bytes decode to a record exactly as
/// wide as the caller's buffer; a record of any other width, wider or
/// narrower, is a shape mismatch; no stored bytes is a miss.
pub proof fn lemma_fetch_hits_only_at_exact_width(stored: Seq<u8>, dest_len: nat)
    ensures
        spec_fetch(None, dest_len) is Miss,
        spec_fetch(Some(stored), dest_len) is Hit ==> (spec_decode(stored) matches Some(r)
            && r.features.len() == dest_len && spec_fetch(Some(stored), dest_len)
            == FetchOutcome::Hit(r)),
        spec_decode(stored) matches Some(r) ==> (r.features.len() != dest_len ==> spec_fetch(
            Some(stored),
            dest_len,
        ) == FetchOutcome::WrongShape(r)),
        spec_decode(stored) is None ==> spec_fetch(Some(stored), dest_len) is Undecodable,
{
}

/// Completes a fetch of `entity_id` once the store has answered with
/// `stored` (`None`: no entry), for a caller whose feature buffer holds
/// `dest_len` values.
///
/// On a miss nothing changes. Otherwise the bytes are decoded into `scratch`
/// (reusing its allocation); the stored vector's length must be `dest_len`
/// exactly. On a hit `header` is overwritten with the record's header and
/// `scratch` holds the record, whose features the caller copies into its
/// buffer; on any error `header` is unchanged.
pub fn complete_fetch(
    entity_id: &str,
    stored: Option<&[u8]>,
    scratch: &mut FeatureRecord,
    header: &mut RecordHeader,
    dest_len: usize,
) -> (res: Result<FetchResult, StoreError>)
    ensures
        match spec_fetch(stored_view(stored), dest_len as nat) {
            FetchOutcome::Miss => res == Ok::<FetchResult, StoreError>(FetchResult::Miss)
                && *final(header) == *old(header) && final(scratch)@ == old(scratch)@,
            FetchOutcome::Hit(r) => res == Ok::<FetchResult, StoreError>(FetchResult::Hit)
                && final(scratch)@ == r && *final(header) == RecordHeader {
                schema_version: r.schema_version,
                event_time_ms: r.event_time_ms,
            },
            FetchOutcome::Undecodable => *final(header) == *old(header) && (res matches Err(
                StoreError::Decode { entity_id: e, reason },
            ) && e@ == entity_id@ && exists|err: DecodeError| reason@ == decode_failure_text(err)),
            FetchOutcome::WrongShape(r) => *final(header) == *old(header) && final(scratch)@ == r
                && (res matches Err(StoreError::ShapeMismatch { entity_id: e, expected, got })
                && e@ == entity_id@ && expected == dest_len && got == r.features.len()),
        },
        // A hit decoded the stored bytes to a record exactly `dest_len` wide.
        res == Ok::<FetchResult, StoreError>(FetchResult::Hit) ==> (stored matches Some(b)
            && spec_decode(b@) == Some(final(scratch)@) && final(scratch)@.features.len()
            == dest_len && *final(header) == RecordHeader {
            schema_version: final(scratch)@.schema_version,
            event_time_ms: final(scratch)@.event_time_ms,
        }),
        // Stored bytes that decode to a record of any other width are a shape
        // mismatch naming both lengths, and the header stays as it was.
        stored matches Some(b) ==> (spec_decode(b@) matches Some(r) ==> (r.features.len()
            != dest_len ==> (*final(header) == *old(header) && (res matches Err(
            StoreError::ShapeMismatch { entity_id: e, expected, got },
        ) && e@ == entity_id@ && expected == dest_len && got == r.features.len())))),
{
    let bytes = match stored {
        Some(b) => b,
        None => return Ok(FetchResult::Miss),
    };
    let decoded = decode_into(bytes, scratch);
    conclude_fetch(entity_id, decoded, scratch, header, dest_len)
}

/// Finishes a fetch of `entity_id` once the stored bytes have been decoded
/// into `scratch`, `decoded` being what the decoding returned, for a caller
/// whose feature buffer holds `dest_len` values.
///
/// A decoding failure becomes `StoreError::Decode`, whose reason is the
/// failure's own text; a decoded vector of another length than `dest_len`
/// becomes `StoreError::ShapeMismatch`. Otherwise `header` takes the record's
/// header and the fetch is a hit. On any error `header` is unchanged.
pub fn conclude_fetch(
    entity_id: &str,
    decoded: Result<(), CodecError>,
    scratch: &FeatureRecord,
    header: &mut RecordHeader,
    dest_len: usize,
) -> (res: Result<FetchResult, StoreError>)
    ensures
        match decoded {
            Err(CodecError::Decode(err)) => *final(header) == *old(header) && (res matches Err(
                StoreError::Decode { entity_id: e, reason },
            ) && e@ == entity_id@ && reason@ == decode_failure_text(err)),
            Ok(()) => if scratch@.features.len() == dest_len {
                res == Ok::<FetchResult, StoreError>(FetchResult::Hit) && *final(header)
                    == RecordHeader {
                    schema_version: scratch@.schema_version,
                    event_time_ms: scratch@.event_time_ms,
                }
            } else {
                *final(header) == *old(header) && (res matches Err(
                    StoreError::ShapeMismatch { entity_id: e, expected, got },
                ) && e@ == entity_id@ && expected == dest_len && got == scratch@.features.len())
            },
        },
{
    match decoded {
        Ok(()) => {},
        Err(e) => {
            return Err(
                StoreError::Decode { entity_id: String::from_str(entity_id), reason: e.message() },
            );
        },
    }
    if scratch.features.len() != dest_len {
        return Err(
            StoreError::ShapeMismatch {
                entity_id: String::from_str(entity_id),
                expected: dest_len,
                got: scratch.features.len(),
            },
        );
    }
    header.schema_version = scratch.schema_version;
    header.event_time_ms = scratch.event_time_ms;
    Ok(FetchResult::Hit)
}

} // verus!
