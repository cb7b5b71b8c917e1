//! The `FeatureRecord` wire codec: the platform's single serialization
//! chokepoint. `FeatureRecord` is the Protobuf message
//!
//! ```text
//! message FeatureRecord {
//!   uint32 schema_version = 1;
//!   int64 event_time_ms = 2;
//!   repeated float features = 3;
//! }
//! ```
//!
//! Encoding writes the fields in tag order, omits the ones at their default,
//! and packs the features. Decoding reads fields until the input is used up:
//! a later scalar replaces an earlier one, repeated values are appended,
//! unknown fields are skipped. [`encode_into`] and [`decode_into`] reuse the
//! caller's buffers.

use crate::error::CodecError;
use crate::record::{FeatureRecord, FeatureRecordModel};
use crate::wire::{
    key_bytes, lemma_decode_key_bytes, lemma_decode_varint_bytes, lemma_fixed32_values_bytes,
    varint_bytes, WIRE_LEN, WIRE_VARINT,
    decode_key, fixed32_encode_packed, fixed32_encoded_len_packed, fixed32_merge_repeated,
    int64_encode, int64_encoded_len, int64_merge, packed_fixed32_bytes, prost_skip_field,
    skip_field, spec_decode_key, spec_fixed32_values, spec_varint_value, uint32_encode,
    uint32_encoded_len, uint32_merge, varint_field_bytes, lemma_decode_key_len, locate_error,
};
use prost::DecodeError;
use vstd::prelude::*;
use vstd::slice::slice_subrange;

verus! {

/// Field tags of `FeatureRecord`.
pub const TAG_SCHEMA_VERSION: u32 = 1;

pub const TAG_EVENT_TIME_MS: u32 = 2;

pub const TAG_FEATURES: u32 = 3;

/// The bytes that encode `r`.
pub open spec fn spec_encode(r: FeatureRecordModel) -> Seq<u8> {
    (if r.schema_version != 0 {
        varint_field_bytes(TAG_SCHEMA_VERSION, r.schema_version as u64)
    } else {
        Seq::empty()
    }) + (if r.event_time_ms != 0 {
        varint_field_bytes(TAG_EVENT_TIME_MS, r.event_time_ms as u64)
    } else {
        Seq::empty()
    }) + packed_fixed32_bytes(TAG_FEATURES, r.features)
}

/// Whether `r`'s encoding fits in one allocation.
pub open spec fn encodable(r: FeatureRecordModel) -> bool {
    spec_encode(r).len() <= isize::MAX
}

/// Merges the field with `tag` and wire type `wire_type` at the front of
/// `body` (the bytes after its key) into `acc`: the new record and the
/// number of bytes the field's value spans.
pub open spec fn spec_merge_field(tag: u32, wire_type: u8, body: Seq<u8>, acc: FeatureRecordModel) -> Option<
    (FeatureRecordModel, nat),
> {
    if tag == TAG_SCHEMA_VERSION {
        match spec_varint_value(wire_type, body) {
            Some((v, n)) => Some((FeatureRecordModel { schema_version: v as u32, ..acc }, n)),
            None => None,
        }
    } else if tag == TAG_EVENT_TIME_MS {
        match spec_varint_value(wire_type, body) {
            Some((v, n)) => Some((FeatureRecordModel { event_time_ms: v as i64, ..acc }, n)),
            None => None,
        }
    } else if tag == TAG_FEATURES {
        match spec_fixed32_values(wire_type, body) {
            Some((ws, n)) => Some((FeatureRecordModel { features: acc.features + ws, ..acc }, n)),
            None => None,
        }
    } else {
        match prost_skip_field(wire_type, tag, body) {
            Some(rem) => if rem <= body.len() {
                Some((acc, (body.len() - rem) as nat))
            } else {
                None
            },
            None => None,
        }
    }
}

/// Merges every field of `s` into `acc`, in order; `None` when `s` is not a
/// valid encoding.
pub open spec fn spec_merge(s: Seq<u8>, acc: FeatureRecordModel) -> Option<FeatureRecordModel>
    decreases s.len(),
{
    if s.len() == 0 {
        Some(acc)
    } else {
        match spec_decode_key(s) {
            Some((tag, wt, n)) => if 1 <= n <= s.len() {
                let body = s.skip(n as int);
                match spec_merge_field(tag, wt, body, acc) {
                    Some((next, m)) => if m <= body.len() {
                        spec_merge(body.skip(m as int), next)
                    } else {
                        None
                    },
                    None => None,
                }
            } else {
                None
            },
            None => None,
        }
    }
}

/// The record that `s` encodes, if it encodes one.
pub open spec fn spec_decode(s: Seq<u8>) -> Option<FeatureRecordModel> {
    spec_merge(s, FeatureRecordModel::empty())
}

/// Merging a varint field with `tag` whose encoding starts `s`: the key, then
/// the value. What the field sets is left to `spec_merge_field`.
proof fn lemma_merge_varint_field(tag: u32, v: u64, rest: Seq<u8>, acc: FeatureRecordModel)
    requires
        tag == TAG_SCHEMA_VERSION || tag == TAG_EVENT_TIME_MS,
    ensures
        spec_merge(varint_field_bytes(tag, v) + rest, acc) == spec_merge(
            rest,
            spec_merge_field(tag, WIRE_VARINT, varint_bytes(v as nat) + rest, acc).unwrap().0,
        ),
        spec_merge_field(tag, WIRE_VARINT, varint_bytes(v as nat) + rest, acc) matches Some((_, n))
            && n == varint_bytes(v as nat).len(),
{
    let key = key_bytes(tag, WIRE_VARINT);
    let vb = varint_bytes(v as nat);
    let s = varint_field_bytes(tag, v) + rest;
    assert(s == key + (vb + rest));
    lemma_decode_key_bytes(tag, WIRE_VARINT, vb + rest);
    assert(s.skip(key.len() as int) == vb + rest);
    lemma_decode_varint_bytes(v, rest);
    assert((vb + rest).skip(vb.len() as int) == rest);
}

/// Merging the packed features field whose encoding starts `s` appends the
/// words it holds.
proof fn lemma_merge_features_field(ws: Seq<u32>, rest: Seq<u8>, acc: FeatureRecordModel)
    requires
        ws.len() > 0,
        4 * ws.len() <= u64::MAX,
    ensures
        spec_merge(packed_fixed32_bytes(TAG_FEATURES, ws) + rest, acc) == spec_merge(
            rest,
            FeatureRecordModel { features: acc.features + ws, ..acc },
        ),
{
    let key = key_bytes(TAG_FEATURES, WIRE_LEN);
    let body = varint_bytes(4 * ws.len()) + crate::wire::le_bytes_all(ws);
    let s = packed_fixed32_bytes(TAG_FEATURES, ws) + rest;
    assert(s == key + (body + rest));
    lemma_decode_key_bytes(TAG_FEATURES, WIRE_LEN, body + rest);
    assert(s.skip(key.len() as int) == body + rest);
    lemma_fixed32_values_bytes(ws, rest);
    assert((body + rest).skip(body.len() as int) == rest);
}

/// Merging nothing leaves the record as it was.
pub proof fn lemma_merge_nothing(acc: FeatureRecordModel)
    ensures
        spec_merge(Seq::empty(), acc) == Some(acc),
{
}

/// A `schema_version` field holding `v` sets the record's `schema_version`
/// to `v` cut to 32 bits, whatever it held before; the bytes after it are
/// merged into the result.
pub proof fn lemma_merge_sets_schema_version(v: u64, rest: Seq<u8>, acc: FeatureRecordModel)
    ensures
        spec_merge(varint_field_bytes(TAG_SCHEMA_VERSION, v) + rest, acc) == spec_merge(
            rest,
            FeatureRecordModel { schema_version: v as u32, ..acc },
        ),
{
    lemma_merge_varint_field(TAG_SCHEMA_VERSION, v, rest, acc);
    lemma_decode_varint_bytes(v, rest);
}

/// An `event_time_ms` field holding `v` sets the record's `event_time_ms`
/// to `v` read as a signed 64-bit value, whatever it held before: a later
/// value replaces an earlier one.
pub proof fn lemma_merge_sets_event_time(v: u64, rest: Seq<u8>, acc: FeatureRecordModel)
    ensures
        spec_merge(varint_field_bytes(TAG_EVENT_TIME_MS, v) + rest, acc) == spec_merge(
            rest,
            FeatureRecordModel { event_time_ms: v as i64, ..acc },
        ),
{
    lemma_merge_varint_field(TAG_EVENT_TIME_MS, v, rest, acc);
    lemma_decode_varint_bytes(v, rest);
}

/// A packed `features` field holding the words `ws` appends them to the
/// record's features, which keep what they held before.
pub proof fn lemma_merge_appends_features(ws: Seq<u32>, rest: Seq<u8>, acc: FeatureRecordModel)
    requires
        4 * ws.len() <= u64::MAX,
    ensures
        spec_merge(packed_fixed32_bytes(TAG_FEATURES, ws) + rest, acc) == spec_merge(
            rest,
            FeatureRecordModel { features: acc.features + ws, ..acc },
        ),
{
    if ws.len() > 0 {
        lemma_merge_features_field(ws, rest, acc);
    } else {
        assert(packed_fixed32_bytes(TAG_FEATURES, ws) + rest == rest);
        assert(acc.features + ws == acc.features);
        assert(FeatureRecordModel { features: acc.features + ws, ..acc } == acc);
    }
}

/// Two `event_time_ms` fields in a row: the record holds the second.
pub proof fn lemma_decode_last_event_time_wins(a: u64, b: u64)
    ensures
        spec_decode(varint_field_bytes(TAG_EVENT_TIME_MS, a) + varint_field_bytes(
            TAG_EVENT_TIME_MS,
            b,
        )) == Some(FeatureRecordModel { event_time_ms: b as i64, ..FeatureRecordModel::empty() }),
{
    let e = FeatureRecordModel::empty();
    let fb = varint_field_bytes(TAG_EVENT_TIME_MS, b);
    lemma_merge_sets_event_time(a, fb, e);
    let ea = FeatureRecordModel { event_time_ms: a as i64, ..e };
    lemma_merge_sets_event_time(b, Seq::empty(), ea);
    assert(fb + Seq::<u8>::empty() == fb);
}

/// Decoding gives back every record it encodes: `decode(encode(r)) == r`.
/// The one condition is that the features' byte length, which the encoding
/// carries as a 64-bit varint, fits in 64 bits (any record in memory meets it).
pub proof fn lemma_decode_encode(r: FeatureRecordModel)
    requires
        4 * r.features.len() <= u64::MAX,
    ensures
        spec_decode(spec_encode(r)) == Some(r),
{
    let a = if r.schema_version != 0 {
        varint_field_bytes(TAG_SCHEMA_VERSION, r.schema_version as u64)
    } else {
        Seq::empty()
    };
    let b = if r.event_time_ms != 0 {
        varint_field_bytes(TAG_EVENT_TIME_MS, r.event_time_ms as u64)
    } else {
        Seq::empty()
    };
    let c = packed_fixed32_bytes(TAG_FEATURES, r.features);
    let empty = FeatureRecordModel::empty();
    let r1 = FeatureRecordModel { schema_version: r.schema_version, ..empty };
    let r2 = FeatureRecordModel { event_time_ms: r.event_time_ms, ..r1 };
    assert(spec_encode(r) == a + (b + c));
    if r.schema_version != 0 {
        lemma_merge_varint_field(TAG_SCHEMA_VERSION, r.schema_version as u64, b + c, empty);
        lemma_decode_varint_bytes(r.schema_version as u64, b + c);
        assert((r.schema_version as u64) as u32 == r.schema_version);
    } else {
        assert(a + (b + c) == b + c);
    }
    assert(spec_merge(a + (b + c), empty) == spec_merge(b + c, r1));
    if r.event_time_ms != 0 {
        lemma_merge_varint_field(TAG_EVENT_TIME_MS, r.event_time_ms as u64, c, r1);
        lemma_decode_varint_bytes(r.event_time_ms as u64, c);
        let t = r.event_time_ms;
        assert((t as u64) as i64 == t) by (bit_vector);
    } else {
        assert(b + c == c);
    }
    assert(spec_merge(b + c, r1) == spec_merge(c, r2));
    if r.features.len() > 0 {
        lemma_merge_features_field(r.features, Seq::empty(), r2);
        assert(c + Seq::<u8>::empty() == c);
        assert(r2.features + r.features == r.features);
    } else {
        assert(c == Seq::<u8>::empty());
        assert(r.features == Seq::<u32>::empty());
    }
    assert(spec_merge(c, r2) == Some(r));
}


/// `Vec::reserve`: makes room for `additional` more bytes; the contents are
/// unchanged. It panics past `isize::MAX` bytes, which `requires` leaves out.
#[verifier::external_body]
fn reserve_bytes(buf: &mut Vec<u8>, additional: usize)
    requires
        old(buf)@.len() + additional <= isize::MAX,
    ensures
        final(buf)@ == old(buf)@,
{
    buf.reserve(additional)
}

impl FeatureRecord {
    /// The length of this record's encoding.
    pub fn encoded_len(&self) -> (len: usize)
        requires
            spec_encode(self@).len() <= usize::MAX,
        ensures
            len == spec_encode(self@).len(),
    {
        let a = if self.schema_version != 0 {
            uint32_encoded_len(TAG_SCHEMA_VERSION, self.schema_version)
        } else {
            0
        };
        let b = if self.event_time_ms != 0 {
            int64_encoded_len(TAG_EVENT_TIME_MS, self.event_time_ms)
        } else {
            0
        };
        let c = fixed32_encoded_len_packed(TAG_FEATURES, self.features.as_slice());
        a + b + c
    }

    /// Appends this record's encoding to `buf`.
    fn encode_raw(&self, buf: &mut Vec<u8>)
        requires
            old(buf)@.len() + spec_encode(self@).len() <= isize::MAX,
        ensures
            final(buf)@ == old(buf)@ + spec_encode(self@),
    {
        let ghost start = buf@;
        let ghost a = if self.schema_version != 0 {
            varint_field_bytes(TAG_SCHEMA_VERSION, self.schema_version as u64)
        } else {
            Seq::empty()
        };
        let ghost b = if self.event_time_ms != 0 {
            varint_field_bytes(TAG_EVENT_TIME_MS, self.event_time_ms as u64)
        } else {
            Seq::empty()
        };
        if self.schema_version != 0 {
            uint32_encode(TAG_SCHEMA_VERSION, self.schema_version, buf);
        }
        assert(buf@ == start + a);
        if self.event_time_ms != 0 {
            int64_encode(TAG_EVENT_TIME_MS, self.event_time_ms, buf);
        }
        assert(buf@ == start + a + b);
        fixed32_encode_packed(TAG_FEATURES, self.features.as_slice(), buf);
        assert(buf@ == start + spec_encode(self@));
    }

    /// Merges the fields encoded in `bytes` into this record, in order: a
    /// scalar field replaces the current value, features are appended,
    /// unknown fields are skipped.
    ///
    /// # Errors
    /// Exactly when `bytes` is not a valid encoding; the record is then
    /// partly merged.
    pub fn merge(&mut self, bytes: &[u8]) -> (res: Result<(), DecodeError>)
        ensures
            match spec_merge(bytes@, old(self)@) {
                Some(m) => res is Ok && final(self)@ == m,
                None => res is Err,
            },
    {
        let len = bytes.len();
        let mut pos: usize = 0;
        assert(bytes@.skip(0) == bytes@);
        while pos < len
            invariant
                len == bytes@.len(),
                pos <= len,
                spec_merge(bytes@.skip(pos as int), self@) == spec_merge(bytes@, old(self)@),
            decreases len - pos,
        {
            let ghost s = bytes@.skip(pos as int);
            let rest = slice_subrange(bytes, pos, len);
            assert(rest@ == s);
            proof {
                lemma_decode_key_len(s);
            }
            let (tag, wire_type, after_key) = match decode_key(rest) {
                Ok(key) => key,
                Err(e) => return Err(e),
            };
            let start = len - after_key;
            let body = slice_subrange(bytes, start, len);
            assert(body@ == s.skip(start - pos));
            let ghost acc = self@;
            let remaining: usize;
            if tag == TAG_SCHEMA_VERSION {
                match uint32_merge(wire_type, body) {
                    Ok((v, rem)) => {
                        self.schema_version = v;
                        remaining = rem;
                    },
                    Err(e) => return Err(locate_error(e, "FeatureRecord", "schema_version")),
                }
            } else if tag == TAG_EVENT_TIME_MS {
                match int64_merge(wire_type, body) {
                    Ok((v, rem)) => {
                        self.event_time_ms = v;
                        remaining = rem;
                    },
                    Err(e) => return Err(locate_error(e, "FeatureRecord", "event_time_ms")),
                }
            } else if tag == TAG_FEATURES {
                match fixed32_merge_repeated(wire_type, &mut self.features, body) {
                    Ok(rem) => {
                        remaining = rem;
                    },
                    Err(e) => return Err(locate_error(e, "FeatureRecord", "features")),
                }
            } else {
                match skip_field(wire_type, tag, body) {
                    Ok(rem) => {
                        remaining = rem;
                    },
                    Err(e) => return Err(e),
                }
            }
            proof {
                let m = (body@.len() - remaining) as nat;
                assert(spec_merge_field(tag, wire_type, body@, acc) == Some((self@, m)));
                assert(body@.skip(m as int) == bytes@.skip(len - remaining));
            }
            pos = len - remaining;
        }
        assert(bytes@.skip(len as int) == Seq::<u8>::empty());
        Ok(())
    }
}

impl FeatureRecord {
    /// Encodes this record into a new buffer sized to fit it.
    pub fn encode_to_vec(&self) -> (bytes: Vec<u8>)
        requires
            encodable(self@),
        ensures
            bytes@ == spec_encode(self@),
    {
        let mut buf = Vec::with_capacity(self.encoded_len());
        self.encode_raw(&mut buf);
        buf
    }

    /// Decodes a record from `bytes`.
    ///
    /// # Errors
    /// Exactly when `bytes` is not a valid encoding of a `FeatureRecord`.
    pub fn decode(bytes: &[u8]) -> (res: Result<FeatureRecord, DecodeError>)
        ensures
            match spec_decode(bytes@) {
                Some(r) => res matches Ok(rec) && rec@ == r,
                None => res is Err,
            },
    {
        let mut rec = FeatureRecord::default();
        match rec.merge(bytes) {
            Ok(()) => Ok(rec),
            Err(e) => Err(e),
        }
    }
}

/// Encodes `rec` into a new buffer.
///
/// Convenience for cold paths; hot paths use [`encode_into`] to reuse a
/// buffer instead of allocating one per call.
pub fn encode(rec: &FeatureRecord) -> (bytes: Vec<u8>)
    requires
        encodable(rec@),
    ensures
        bytes@ == spec_encode(rec@),
{
    rec.encode_to_vec()
}

/// Encodes `rec` into `buf`, reusing its allocation: `buf` is cleared first
/// (its capacity kept) and then holds exactly the encoding of `rec`.
pub fn encode_into(rec: &FeatureRecord, buf: &mut Vec<u8>)
    requires
        encodable(rec@),
    ensures
        final(buf)@ == spec_encode(rec@),
{
    buf.clear();
    reserve_bytes(buf, rec.encoded_len());
    rec.encode_raw(buf);
}

/// Decodes a new `FeatureRecord` from `bytes`.
///
/// # Errors
/// `CodecError::Decode` exactly when `bytes` is not a valid encoding of a
/// `FeatureRecord`.
pub fn decode(bytes: &[u8]) -> (res: Result<FeatureRecord, CodecError>)
    ensures
        match spec_decode(bytes@) {
            Some(r) => res matches Ok(rec) && rec@ == r,
            None => res is Err,
        },
{
    match FeatureRecord::decode(bytes) {
        Ok(rec) => Ok(rec),
        Err(e) => Err(CodecError::Decode(e)),
    }
}

/// Decodes `bytes` into `rec` in place: `rec` is cleared first (its feature
/// vector keeps its allocation), so it ends up as [`decode`] would return it,
/// whatever it held before.
///
/// # Errors
/// `CodecError::Decode` exactly when `bytes` is not a valid encoding of a
/// `FeatureRecord`; `rec`'s contents are then unspecified (partly merged).
pub fn decode_into(bytes: &[u8], rec: &mut FeatureRecord) -> (res: Result<(), CodecError>)
    ensures
        match spec_decode(bytes@) {
            Some(r) => res is Ok && final(rec)@ == r,
            None => res is Err,
        },
{
    rec.clear();
    match rec.merge(bytes) {
        Ok(()) => Ok(()),
        Err(e) => Err(CodecError::Decode(e)),
    }
}

} // verus!
