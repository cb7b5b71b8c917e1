//! The prediction log payload and its wire codec. `PredictionRecord` is the
//! Protobuf message
//!
//! ```text
//! message PredictionRecord {
//!   string entity_id = 1;
//!   string model_name = 2;
//!   string model_version = 3;
//!   uint32 schema_version = 4;
//!   int64 event_time_ms = 5;
//!   int64 predict_time_ms = 6;
//!   repeated float features = 7;
//!   repeated float output = 8;
//!   string request_id = 9;
//! }
//! ```
//!
//! encoded and decoded by the same rules as `FeatureRecord` (see
//! `crate::codec`). Its floats are held as IEEE-754 bit patterns.

use crate::wire::{
    decode_key, fixed32_encode_packed, fixed32_encoded_len_packed, fixed32_merge_repeated,
    int64_encode, int64_encoded_len, int64_merge, key_bytes, lemma_decode_key_bytes,
    lemma_decode_varint_bytes, lemma_fixed32_values_bytes, lemma_string_value_bytes,
    packed_fixed32_bytes, prost_skip_field, skip_field, spec_decode_key, spec_fixed32_values,
    spec_string_value, spec_varint_value, string_encode, string_encoded_len, string_field_bytes,
    string_merge, uint32_encode, uint32_encoded_len, uint32_merge, varint_bytes,
    varint_field_bytes, lemma_decode_key_len, locate_error, MAX_TAG, WIRE_LEN, WIRE_VARINT,
};
use prost::DecodeError;
use vstd::prelude::*;
use vstd::slice::slice_subrange;
use vstd::utf8::encode_utf8;

verus! {

/// One model prediction, with the features it was made from.
#[derive(Debug, Clone, PartialEq)]
pub struct PredictionRecord {
    /// The entity the prediction is about.
    pub entity_id: String,
    /// The model that made it.
    pub model_name: String,
    /// The model's version.
    pub model_version: String,
    /// The schema version of the features used.
    pub schema_version: u32,
    /// The features' source event time, epoch milliseconds.
    pub event_time_ms: i64,
    /// When the prediction was made, epoch milliseconds.
    pub predict_time_ms: i64,
    /// The feature vector used, as IEEE-754 bit patterns.
    pub features: Vec<u32>,
    /// The model output, as IEEE-754 bit patterns.
    pub output: Vec<u32>,
    /// The request the prediction answered.
    pub request_id: String,
}

/// The mathematical value of a `PredictionRecord`.
#[verifier::ext_equal]
pub struct PredictionRecordModel {
    pub entity_id: Seq<char>,
    pub model_name: Seq<char>,
    pub model_version: Seq<char>,
    pub schema_version: u32,
    pub event_time_ms: i64,
    pub predict_time_ms: i64,
    pub features: Seq<u32>,
    pub output: Seq<u32>,
    pub request_id: Seq<char>,
}

impl PredictionRecordModel {
    /// The record with every field at its default.
    pub open spec fn empty() -> PredictionRecordModel {
        PredictionRecordModel {
            entity_id: Seq::empty(),
            model_name: Seq::empty(),
            model_version: Seq::empty(),
            schema_version: 0,
            event_time_ms: 0,
            predict_time_ms: 0,
            features: Seq::empty(),
            output: Seq::empty(),
            request_id: Seq::empty(),
        }
    }
}

impl View for PredictionRecord {
    type V = PredictionRecordModel;

    open spec fn view(&self) -> PredictionRecordModel {
        PredictionRecordModel {
            entity_id: self.entity_id@,
            model_name: self.model_name@,
            model_version: self.model_version@,
            schema_version: self.schema_version,
            event_time_ms: self.event_time_ms,
            predict_time_ms: self.predict_time_ms,
            features: self.features@,
            output: self.output@,
            request_id: self.request_id@,
        }
    }
}

impl Default for PredictionRecord {
    fn default() -> (rec: PredictionRecord)
        ensures
            rec@ == PredictionRecordModel::empty(),
    {
        PredictionRecord {
            entity_id: String::new(),
            model_name: String::new(),
            model_version: String::new(),
            schema_version: 0,
            event_time_ms: 0,
            predict_time_ms: 0,
            features: Vec::new(),
            output: Vec::new(),
            request_id: String::new(),
        }
    }
}

pub const TAG_ENTITY_ID: u32 = 1;

pub const TAG_MODEL_NAME: u32 = 2;

pub const TAG_MODEL_VERSION: u32 = 3;

pub const TAG_SCHEMA_VERSION: u32 = 4;

pub const TAG_EVENT_TIME_MS: u32 = 5;

pub const TAG_PREDICT_TIME_MS: u32 = 6;

pub const TAG_FEATURES: u32 = 7;

pub const TAG_OUTPUT: u32 = 8;

pub const TAG_REQUEST_ID: u32 = 9;

/// A string field, omitted when empty.
pub open spec fn text_part(tag: u32, text: Seq<char>) -> Seq<u8> {
    if text.len() != 0 {
        string_field_bytes(tag, text)
    } else {
        Seq::empty()
    }
}

/// A varint field, omitted when zero.
pub open spec fn varint_part(tag: u32, value: u64) -> Seq<u8> {
    if value != 0 {
        varint_field_bytes(tag, value)
    } else {
        Seq::empty()
    }
}

/// The bytes that encode `p`: the fields in tag order, each omitted at its
/// default, the float vectors packed.
pub open spec fn spec_encode_prediction(p: PredictionRecordModel) -> Seq<u8> {
    text_part(TAG_ENTITY_ID, p.entity_id) + (text_part(TAG_MODEL_NAME, p.model_name) + (text_part(
        TAG_MODEL_VERSION,
        p.model_version,
    ) + (varint_part(TAG_SCHEMA_VERSION, p.schema_version as u64) + (varint_part(
        TAG_EVENT_TIME_MS,
        p.event_time_ms as u64,
    ) + (varint_part(TAG_PREDICT_TIME_MS, p.predict_time_ms as u64) + (packed_fixed32_bytes(
        TAG_FEATURES,
        p.features,
    ) + (packed_fixed32_bytes(TAG_OUTPUT, p.output) + text_part(TAG_REQUEST_ID, p.request_id))))))))
}

/// Whether `p`'s encoding fits in one allocation.
pub open spec fn prediction_encodable(p: PredictionRecordModel) -> bool {
    spec_encode_prediction(p).len() <= isize::MAX
}

/// `acc` with its string field `tag` replaced by `text`.
pub open spec fn with_text(acc: PredictionRecordModel, tag: u32, text: Seq<char>) -> PredictionRecordModel {
    if tag == TAG_ENTITY_ID {
        PredictionRecordModel { entity_id: text, ..acc }
    } else if tag == TAG_MODEL_NAME {
        PredictionRecordModel { model_name: text, ..acc }
    } else if tag == TAG_MODEL_VERSION {
        PredictionRecordModel { model_version: text, ..acc }
    } else {
        PredictionRecordModel { request_id: text, ..acc }
    }
}

/// `acc` with its varint field `tag` set from the 64-bit value `v`.
pub open spec fn with_varint(acc: PredictionRecordModel, tag: u32, v: u64) -> PredictionRecordModel {
    if tag == TAG_SCHEMA_VERSION {
        PredictionRecordModel { schema_version: v as u32, ..acc }
    } else if tag == TAG_EVENT_TIME_MS {
        PredictionRecordModel { event_time_ms: v as i64, ..acc }
    } else {
        PredictionRecordModel { predict_time_ms: v as i64, ..acc }
    }
}

/// `acc` with `ws` appended to its float field `tag`.
pub open spec fn with_words(acc: PredictionRecordModel, tag: u32, ws: Seq<u32>) -> PredictionRecordModel {
    if tag == TAG_FEATURES {
        PredictionRecordModel { features: acc.features + ws, ..acc }
    } else {
        PredictionRecordModel { output: acc.output + ws, ..acc }
    }
}

pub open spec fn is_text_tag(tag: u32) -> bool {
    tag == TAG_ENTITY_ID || tag == TAG_MODEL_NAME || tag == TAG_MODEL_VERSION || tag
        == TAG_REQUEST_ID
}

pub open spec fn is_varint_tag(tag: u32) -> bool {
    tag == TAG_SCHEMA_VERSION || tag == TAG_EVENT_TIME_MS || tag == TAG_PREDICT_TIME_MS
}

pub open spec fn is_words_tag(tag: u32) -> bool {
    tag == TAG_FEATURES || tag == TAG_OUTPUT
}

/// Merges the field with `tag` and `wire_type` at the front of `body` into
/// `acc`: the new record and the bytes the field's value spans.
pub open spec fn spec_merge_prediction_field(
    tag: u32,
    wire_type: u8,
    body: Seq<u8>,
    acc: PredictionRecordModel,
) -> Option<(PredictionRecordModel, nat)> {
    if is_text_tag(tag) {
        match spec_string_value(wire_type, body) {
            Some((text, n)) => Some((with_text(acc, tag, text), n)),
            None => None,
        }
    } else if is_varint_tag(tag) {
        match spec_varint_value(wire_type, body) {
            Some((v, n)) => Some((with_varint(acc, tag, v), n)),
            None => None,
        }
    } else if is_words_tag(tag) {
        match spec_fixed32_values(wire_type, body) {
            Some((ws, n)) => Some((with_words(acc, tag, ws), n)),
            None => None,
        }
    } else {
        match prost_skip_field(wire_type, tag, body) {
            Some(rem) => if rem <= body.len() {
                Some((acc, (body.len() - rem) as nat))
            } else {
                None
            },
            None => None,
        }
    }
}

/// Merges every field of `s` into `acc`, in order; `None` when `s` is not a
/// valid encoding.
pub open spec fn spec_merge_prediction(s: Seq<u8>, acc: PredictionRecordModel) -> Option<
    PredictionRecordModel,
>
    decreases s.len(),
{
    if s.len() == 0 {
        Some(acc)
    } else {
        match spec_decode_key(s) {
            Some((tag, wt, n)) => if 1 <= n <= s.len() {
                let body = s.skip(n as int);
                match spec_merge_prediction_field(tag, wt, body, acc) {
                    Some((next, m)) => if m <= body.len() {
                        spec_merge_prediction(body.skip(m as int), next)
                    } else {
                        None
                    },
                    None => None,
                }
            } else {
                None
            },
            None => None,
        }
    }
}

/// The prediction record that `s` encodes, if it encodes one.
pub open spec fn spec_decode_prediction(s: Seq<u8>) -> Option<PredictionRecordModel> {
    spec_merge_prediction(s, PredictionRecordModel::empty())
}


/// One merge step: a field whose value spans all of `body` is merged, then
/// the rest.
proof fn lemma_merge_step(
    tag: u32,
    wt: u8,
    body: Seq<u8>,
    rest: Seq<u8>,
    acc: PredictionRecordModel,
    next: PredictionRecordModel,
)
    requires
        1 <= tag <= MAX_TAG,
        wt <= 5,
        spec_merge_prediction_field(tag, wt, body + rest, acc) == Some((next, body.len())),
    ensures
        spec_merge_prediction(key_bytes(tag, wt) + body + rest, acc) == spec_merge_prediction(
            rest,
            next,
        ),
{
    let key = key_bytes(tag, wt);
    let s = key + body + rest;
    assert(s == key + (body + rest));
    lemma_decode_key_bytes(tag, wt, body + rest);
    assert(s.skip(key.len() as int) == body + rest);
    assert((body + rest).skip(body.len() as int) == rest);
}

/// A text field, present or omitted, reads back as its text.
proof fn lemma_merge_text_part(tag: u32, text: Seq<char>, rest: Seq<u8>, acc: PredictionRecordModel)
    requires
        is_text_tag(tag),
        encode_utf8(text).len() <= u64::MAX,
        text.len() == 0 ==> with_text(acc, tag, text) == acc,
    ensures
        spec_merge_prediction(text_part(tag, text) + rest, acc) == spec_merge_prediction(
            rest,
            with_text(acc, tag, text),
        ),
{
    if text.len() != 0 {
        let body = varint_bytes(encode_utf8(text).len()) + encode_utf8(text);
        lemma_string_value_bytes(text, rest);
        assert(string_field_bytes(tag, text) == key_bytes(tag, WIRE_LEN) + body);
        lemma_merge_step(tag, WIRE_LEN, body, rest, acc, with_text(acc, tag, text));
    } else {
        assert(text_part(tag, text) + rest == rest);
    }
}

/// A varint field, present or omitted, reads back as its value.
proof fn lemma_merge_varint_part(tag: u32, v: u64, rest: Seq<u8>, acc: PredictionRecordModel)
    requires
        is_varint_tag(tag),
        v == 0 ==> with_varint(acc, tag, v) == acc,
    ensures
        spec_merge_prediction(varint_part(tag, v) + rest, acc) == spec_merge_prediction(
            rest,
            with_varint(acc, tag, v),
        ),
{
    if v != 0 {
        let body = varint_bytes(v as nat);
        lemma_decode_varint_bytes(v, rest);
        assert(varint_part(tag, v) == key_bytes(tag, WIRE_VARINT) + body);
        lemma_merge_step(tag, WIRE_VARINT, body, rest, acc, with_varint(acc, tag, v));
    } else {
        assert(varint_part(tag, v) + rest == rest);
    }
}

/// A float field, present or omitted, reads back as its words.
proof fn lemma_merge_words_part(tag: u32, ws: Seq<u32>, rest: Seq<u8>, acc: PredictionRecordModel)
    requires
        is_words_tag(tag),
        4 * ws.len() <= u64::MAX,
        ws.len() == 0 ==> with_words(acc, tag, ws) == acc,
    ensures
        spec_merge_prediction(packed_fixed32_bytes(tag, ws) + rest, acc) == spec_merge_prediction(
            rest,
            with_words(acc, tag, ws),
        ),
{
    if ws.len() != 0 {
        let body = varint_bytes(4 * ws.len()) + crate::wire::le_bytes_all(ws);
        lemma_fixed32_values_bytes(ws, rest);
        assert(packed_fixed32_bytes(tag, ws) == key_bytes(tag, WIRE_LEN) + body);
        lemma_merge_step(tag, WIRE_LEN, body, rest, acc, with_words(acc, tag, ws));
    } else {
        assert(packed_fixed32_bytes(tag, ws) + rest == rest);
    }
}

/// A string field with `tag` holding `text`, empty or not, sets that field.
proof fn lemma_merge_string_field(tag: u32, text: Seq<char>, rest: Seq<u8>, acc: PredictionRecordModel)
    requires
        is_text_tag(tag),
        encode_utf8(text).len() <= u64::MAX,
    ensures
        spec_merge_prediction(string_field_bytes(tag, text) + rest, acc) == spec_merge_prediction(
            rest,
            with_text(acc, tag, text),
        ),
{
    let body = varint_bytes(encode_utf8(text).len()) + encode_utf8(text);
    lemma_string_value_bytes(text, rest);
    assert(string_field_bytes(tag, text) == key_bytes(tag, WIRE_LEN) + body);
    lemma_merge_step(tag, WIRE_LEN, body, rest, acc, with_text(acc, tag, text));
}

/// A varint field with `tag` holding `v`, zero or not, sets that field.
proof fn lemma_merge_varint_field(tag: u32, v: u64, rest: Seq<u8>, acc: PredictionRecordModel)
    requires
        is_varint_tag(tag),
    ensures
        spec_merge_prediction(varint_field_bytes(tag, v) + rest, acc) == spec_merge_prediction(
            rest,
            with_varint(acc, tag, v),
        ),
{
    let body = varint_bytes(v as nat);
    lemma_decode_varint_bytes(v, rest);
    assert(varint_field_bytes(tag, v) == key_bytes(tag, WIRE_VARINT) + body);
    lemma_merge_step(tag, WIRE_VARINT, body, rest, acc, with_varint(acc, tag, v));
}

/// Merging nothing leaves the record as it was.
pub proof fn lemma_merge_prediction_nothing(acc: PredictionRecordModel)
    ensures
        spec_merge_prediction(Seq::empty(), acc) == Some(acc),
{
}

/// An `entity_id` field replaces the record's entity id with its text.
pub proof fn lemma_merge_sets_entity_id(text: Seq<char>, rest: Seq<u8>, acc: PredictionRecordModel)
    requires
        encode_utf8(text).len() <= u64::MAX,
    ensures
        spec_merge_prediction(string_field_bytes(TAG_ENTITY_ID, text) + rest, acc)
            == spec_merge_prediction(rest, PredictionRecordModel { entity_id: text, ..acc }),
{
    lemma_merge_string_field(TAG_ENTITY_ID, text, rest, acc);
}

/// A `model_name` field replaces the record's model name with its text.
pub proof fn lemma_merge_sets_model_name(text: Seq<char>, rest: Seq<u8>, acc: PredictionRecordModel)
    requires
        encode_utf8(text).len() <= u64::MAX,
    ensures
        spec_merge_prediction(string_field_bytes(TAG_MODEL_NAME, text) + rest, acc)
            == spec_merge_prediction(rest, PredictionRecordModel { model_name: text, ..acc }),
{
    lemma_merge_string_field(TAG_MODEL_NAME, text, rest, acc);
}

/// A `model_version` field replaces the record's model version with its text.
pub proof fn lemma_merge_sets_model_version(
    text: Seq<char>,
    rest: Seq<u8>,
    acc: PredictionRecordModel,
)
    requires
        encode_utf8(text).len() <= u64::MAX,
    ensures
        spec_merge_prediction(string_field_bytes(TAG_MODEL_VERSION, text) + rest, acc)
            == spec_merge_prediction(rest, PredictionRecordModel { model_version: text, ..acc }),
{
    lemma_merge_string_field(TAG_MODEL_VERSION, text, rest, acc);
}

/// A `request_id` field replaces the record's request id with its text.
pub proof fn lemma_merge_sets_request_id(text: Seq<char>, rest: Seq<u8>, acc: PredictionRecordModel)
    requires
        encode_utf8(text).len() <= u64::MAX,
    ensures
        spec_merge_prediction(string_field_bytes(TAG_REQUEST_ID, text) + rest, acc)
            == spec_merge_prediction(rest, PredictionRecordModel { request_id: text, ..acc }),
{
    lemma_merge_string_field(TAG_REQUEST_ID, text, rest, acc);
}

/// A `schema_version` field holding `v` sets the record's schema version to
/// `v` cut to 32 bits, whatever it held before.
pub proof fn lemma_merge_prediction_sets_schema_version(
    v: u64,
    rest: Seq<u8>,
    acc: PredictionRecordModel,
)
    ensures
        spec_merge_prediction(varint_field_bytes(TAG_SCHEMA_VERSION, v) + rest, acc)
            == spec_merge_prediction(rest, PredictionRecordModel { schema_version: v as u32, ..acc }),
{
    lemma_merge_varint_field(TAG_SCHEMA_VERSION, v, rest, acc);
}

/// An `event_time_ms` field holding `v` sets the record's event time to `v`
/// read as a signed 64-bit value, whatever it held before.
pub proof fn lemma_merge_prediction_sets_event_time(
    v: u64,
    rest: Seq<u8>,
    acc: PredictionRecordModel,
)
    ensures
        spec_merge_prediction(varint_field_bytes(TAG_EVENT_TIME_MS, v) + rest, acc)
            == spec_merge_prediction(rest, PredictionRecordModel { event_time_ms: v as i64, ..acc }),
{
    lemma_merge_varint_field(TAG_EVENT_TIME_MS, v, rest, acc);
}

/// A `predict_time_ms` field holding `v` sets the record's prediction time
/// to `v` read as a signed 64-bit value, whatever it held before.
pub proof fn lemma_merge_prediction_sets_predict_time(
    v: u64,
    rest: Seq<u8>,
    acc: PredictionRecordModel,
)
    ensures
        spec_merge_prediction(varint_field_bytes(TAG_PREDICT_TIME_MS, v) + rest, acc)
            == spec_merge_prediction(
            rest,
            PredictionRecordModel { predict_time_ms: v as i64, ..acc },
        ),
{
    lemma_merge_varint_field(TAG_PREDICT_TIME_MS, v, rest, acc);
}

/// A packed `features` field holding the words `ws` appends them to the
/// record's features, which keep what they held before.
pub proof fn lemma_merge_prediction_appends_features(
    ws: Seq<u32>,
    rest: Seq<u8>,
    acc: PredictionRecordModel,
)
    requires
        4 * ws.len() <= u64::MAX,
    ensures
        spec_merge_prediction(packed_fixed32_bytes(TAG_FEATURES, ws) + rest, acc)
            == spec_merge_prediction(
            rest,
            PredictionRecordModel { features: acc.features + ws, ..acc },
        ),
{
    assert(ws.len() == 0 ==> acc.features + ws == acc.features);
    assert(ws.len() == 0 ==> with_words(acc, TAG_FEATURES, ws) == acc);
    lemma_merge_words_part(TAG_FEATURES, ws, rest, acc);
}

/// A packed `output` field holding the words `ws` appends them to the
/// record's output, which keeps what it held before.
pub proof fn lemma_merge_prediction_appends_output(
    ws: Seq<u32>,
    rest: Seq<u8>,
    acc: PredictionRecordModel,
)
    requires
        4 * ws.len() <= u64::MAX,
    ensures
        spec_merge_prediction(packed_fixed32_bytes(TAG_OUTPUT, ws) + rest, acc)
            == spec_merge_prediction(rest, PredictionRecordModel { output: acc.output + ws, ..acc }),
{
    assert(ws.len() == 0 ==> acc.output + ws == acc.output);
    assert(ws.len() == 0 ==> with_words(acc, TAG_OUTPUT, ws) == acc);
    lemma_merge_words_part(TAG_OUTPUT, ws, rest, acc);
}

/// Two packed `output` chunks in a row decode to their words in order.
pub proof fn lemma_decode_prediction_output_chunks(a: Seq<u32>, b: Seq<u32>)
    requires
        4 * a.len() <= u64::MAX,
        4 * b.len() <= u64::MAX,
    ensures
        spec_decode_prediction(packed_fixed32_bytes(TAG_OUTPUT, a) + packed_fixed32_bytes(
            TAG_OUTPUT,
            b,
        )) == Some(PredictionRecordModel { output: a + b, ..PredictionRecordModel::empty() }),
{
    let e = PredictionRecordModel::empty();
    let pb = packed_fixed32_bytes(TAG_OUTPUT, b);
    lemma_merge_prediction_appends_output(a, pb, e);
    let ea = PredictionRecordModel { output: e.output + a, ..e };
    lemma_merge_prediction_appends_output(b, Seq::empty(), ea);
    assert(pb + Seq::<u8>::empty() == pb);
    assert(e.output + a == a);
}

/// Decoding gives back every prediction record it encodes, provided each
/// string's and each float vector's byte length fits in the 64-bit varint
/// that carries it (any record in memory meets that).
pub proof fn lemma_decode_encode_prediction(p: PredictionRecordModel)
    requires
        encode_utf8(p.entity_id).len() <= u64::MAX,
        encode_utf8(p.model_name).len() <= u64::MAX,
        encode_utf8(p.model_version).len() <= u64::MAX,
        encode_utf8(p.request_id).len() <= u64::MAX,
        4 * p.features.len() <= u64::MAX,
        4 * p.output.len() <= u64::MAX,
    ensures
        spec_decode_prediction(spec_encode_prediction(p)) == Some(p),
{
    let e = PredictionRecordModel::empty();
    let a1 = with_text(e, TAG_ENTITY_ID, p.entity_id);
    let a2 = with_text(a1, TAG_MODEL_NAME, p.model_name);
    let a3 = with_text(a2, TAG_MODEL_VERSION, p.model_version);
    let a4 = with_varint(a3, TAG_SCHEMA_VERSION, p.schema_version as u64);
    let a5 = with_varint(a4, TAG_EVENT_TIME_MS, p.event_time_ms as u64);
    let a6 = with_varint(a5, TAG_PREDICT_TIME_MS, p.predict_time_ms as u64);
    let a7 = with_words(a6, TAG_FEATURES, p.features);
    let a8 = with_words(a7, TAG_OUTPUT, p.output);
    let a9 = with_text(a8, TAG_REQUEST_ID, p.request_id);

    let t9 = text_part(TAG_REQUEST_ID, p.request_id);
    let t8 = packed_fixed32_bytes(TAG_OUTPUT, p.output) + t9;
    let t7 = packed_fixed32_bytes(TAG_FEATURES, p.features) + t8;
    let t6 = varint_part(TAG_PREDICT_TIME_MS, p.predict_time_ms as u64) + t7;
    let t5 = varint_part(TAG_EVENT_TIME_MS, p.event_time_ms as u64) + t6;
    let t4 = varint_part(TAG_SCHEMA_VERSION, p.schema_version as u64) + t5;
    let t3 = text_part(TAG_MODEL_VERSION, p.model_version) + t4;
    let t2 = text_part(TAG_MODEL_NAME, p.model_name) + t3;

    let sv = p.schema_version;
    let et = p.event_time_ms;
    let pt = p.predict_time_ms;
    assert((sv as u64) as u32 == sv);
    assert((et as u64) as i64 == et && (et as u64 == 0 ==> et == 0)) by (bit_vector);
    assert((pt as u64) as i64 == pt && (pt as u64 == 0 ==> pt == 0)) by (bit_vector);

    if p.entity_id.len() == 0 {
        assert(p.entity_id == Seq::<char>::empty());
    }
    if p.model_name.len() == 0 {
        assert(p.model_name == Seq::<char>::empty());
    }
    if p.model_version.len() == 0 {
        assert(p.model_version == Seq::<char>::empty());
    }
    if p.request_id.len() == 0 {
        assert(p.request_id == Seq::<char>::empty());
    }
    lemma_merge_text_part(TAG_ENTITY_ID, p.entity_id, t2, e);
    lemma_merge_text_part(TAG_MODEL_NAME, p.model_name, t3, a1);
    lemma_merge_text_part(TAG_MODEL_VERSION, p.model_version, t4, a2);
    lemma_merge_varint_part(TAG_SCHEMA_VERSION, sv as u64, t5, a3);
    lemma_merge_varint_part(TAG_EVENT_TIME_MS, et as u64, t6, a4);
    lemma_merge_varint_part(TAG_PREDICT_TIME_MS, pt as u64, t7, a5);
    assert(a6.features + p.features == p.features);
    if p.features.len() == 0 {
        assert(p.features == Seq::<u32>::empty());
    }
    if p.output.len() == 0 {
        assert(p.output == Seq::<u32>::empty());
    }
    lemma_merge_words_part(TAG_FEATURES, p.features, t8, a6);
    assert(a7.output + p.output == p.output);
    lemma_merge_words_part(TAG_OUTPUT, p.output, t9, a7);
    assert(t9 == t9 + Seq::<u8>::empty());
    lemma_merge_text_part(TAG_REQUEST_ID, p.request_id, Seq::empty(), a8);
    assert(a9 == p);
}

/// Appends the string field `tag` holding `value` (nothing when it is
/// empty); `rest` is what the caller appends after it.
fn push_text_part(tag: u32, value: &String, Ghost(rest): Ghost<Seq<u8>>, buf: &mut Vec<u8>)
    requires
        1 <= tag <= MAX_TAG,
        old(buf)@.len() + text_part(tag, value@).len() + rest.len() <= isize::MAX,
    ensures
        final(buf)@ == old(buf)@ + text_part(tag, value@),
        final(buf)@ + rest == old(buf)@ + (text_part(tag, value@) + rest),
        final(buf)@.len() + rest.len() <= isize::MAX,
{
    if !value.as_str().is_empty() {
        string_encode(tag, value, buf);
    }
    assert(buf@ + rest == old(buf)@ + (text_part(tag, value@) + rest));
}

/// Appends the varint field `tag` holding `value` (nothing when it is zero).
fn push_u32_part(tag: u32, value: u32, Ghost(rest): Ghost<Seq<u8>>, buf: &mut Vec<u8>)
    requires
        1 <= tag <= MAX_TAG,
        old(buf)@.len() + varint_part(tag, value as u64).len() + rest.len() <= isize::MAX,
    ensures
        final(buf)@ + rest == old(buf)@ + (varint_part(tag, value as u64) + rest),
        final(buf)@.len() + rest.len() <= isize::MAX,
{
    if value != 0 {
        uint32_encode(tag, value, buf);
    }
    assert(buf@ + rest == old(buf)@ + (varint_part(tag, value as u64) + rest));
}

/// Appends the varint field `tag` holding `value` (nothing when it is zero).
fn push_i64_part(tag: u32, value: i64, Ghost(rest): Ghost<Seq<u8>>, buf: &mut Vec<u8>)
    requires
        1 <= tag <= MAX_TAG,
        old(buf)@.len() + varint_part(tag, value as u64).len() + rest.len() <= isize::MAX,
    ensures
        final(buf)@ + rest == old(buf)@ + (varint_part(tag, value as u64) + rest),
        final(buf)@.len() + rest.len() <= isize::MAX,
{
    assert(value as u64 == 0 ==> value == 0) by (bit_vector);
    if value != 0 {
        int64_encode(tag, value, buf);
    }
    assert(buf@ + rest == old(buf)@ + (varint_part(tag, value as u64) + rest));
}

/// Appends the packed field `tag` holding `values` (nothing when empty).
fn push_words_part(tag: u32, values: &Vec<u32>, Ghost(rest): Ghost<Seq<u8>>, buf: &mut Vec<u8>)
    requires
        1 <= tag <= MAX_TAG,
        old(buf)@.len() + packed_fixed32_bytes(tag, values@).len() + rest.len() <= isize::MAX,
    ensures
        final(buf)@ + rest == old(buf)@ + (packed_fixed32_bytes(tag, values@) + rest),
        final(buf)@.len() + rest.len() <= isize::MAX,
{
    fixed32_encode_packed(tag, values.as_slice(), buf);
    assert(buf@ + rest == old(buf)@ + (packed_fixed32_bytes(tag, values@) + rest));
}

impl PredictionRecord {
    /// Resets every field to its default; the two float vectors keep their
    /// allocations.
    pub fn clear(&mut self)
        ensures
            final(self)@ == PredictionRecordModel::empty(),
    {
        self.entity_id = String::new();
        self.model_name = String::new();
        self.model_version = String::new();
        self.schema_version = 0;
        self.event_time_ms = 0;
        self.predict_time_ms = 0;
        self.features.clear();
        self.output.clear();
        self.request_id = String::new();
    }

    /// The length of this record's encoding.
    pub fn encoded_len(&self) -> (len: usize)
        requires
            spec_encode_prediction(self@).len() <= usize::MAX,
        ensures
            len == spec_encode_prediction(self@).len(),
    {
        proof {
            let et = self.event_time_ms;
            let pt = self.predict_time_ms;
            assert(et as u64 == 0 ==> et == 0) by (bit_vector);
            assert(pt as u64 == 0 ==> pt == 0) by (bit_vector);
        }
        let l1 = if !self.entity_id.as_str().is_empty() {
            string_encoded_len(TAG_ENTITY_ID, &self.entity_id)
        } else {
            0
        };
        let l2 = if !self.model_name.as_str().is_empty() {
            string_encoded_len(TAG_MODEL_NAME, &self.model_name)
        } else {
            0
        };
        let l3 = if !self.model_version.as_str().is_empty() {
            string_encoded_len(TAG_MODEL_VERSION, &self.model_version)
        } else {
            0
        };
        let l4 = if self.schema_version != 0 {
            uint32_encoded_len(TAG_SCHEMA_VERSION, self.schema_version)
        } else {
            0
        };
        let l5 = if self.event_time_ms != 0 {
            int64_encoded_len(TAG_EVENT_TIME_MS, self.event_time_ms)
        } else {
            0
        };
        let l6 = if self.predict_time_ms != 0 {
            int64_encoded_len(TAG_PREDICT_TIME_MS, self.predict_time_ms)
        } else {
            0
        };
        let l7 = fixed32_encoded_len_packed(TAG_FEATURES, self.features.as_slice());
        let l8 = fixed32_encoded_len_packed(TAG_OUTPUT, self.output.as_slice());
        let l9 = if !self.request_id.as_str().is_empty() {
            string_encoded_len(TAG_REQUEST_ID, &self.request_id)
        } else {
            0
        };
        l1 + l2 + l3 + l4 + l5 + l6 + l7 + l8 + l9
    }

    /// Appends this record's encoding to `buf`.
    fn encode_raw(&self, buf: &mut Vec<u8>)
        requires
            old(buf)@.len() + spec_encode_prediction(self@).len() <= isize::MAX,
        ensures
            final(buf)@ == old(buf)@ + spec_encode_prediction(self@),
    {
        let ghost p = self@;
        // What remains to be written after each field.
        let ghost t9 = text_part(TAG_REQUEST_ID, p.request_id);
        let ghost t8 = packed_fixed32_bytes(TAG_OUTPUT, p.output) + t9;
        let ghost t7 = packed_fixed32_bytes(TAG_FEATURES, p.features) + t8;
        let ghost t6 = varint_part(TAG_PREDICT_TIME_MS, p.predict_time_ms as u64) + t7;
        let ghost t5 = varint_part(TAG_EVENT_TIME_MS, p.event_time_ms as u64) + t6;
        let ghost t4 = varint_part(TAG_SCHEMA_VERSION, p.schema_version as u64) + t5;
        let ghost t3 = text_part(TAG_MODEL_VERSION, p.model_version) + t4;
        let ghost t2 = text_part(TAG_MODEL_NAME, p.model_name) + t3;
        let ghost t1 = text_part(TAG_ENTITY_ID, p.entity_id) + t2;
        assert(t1 == spec_encode_prediction(p));
        push_text_part(TAG_ENTITY_ID, &self.entity_id, Ghost(t2), buf);
        push_text_part(TAG_MODEL_NAME, &self.model_name, Ghost(t3), buf);
        push_text_part(TAG_MODEL_VERSION, &self.model_version, Ghost(t4), buf);
        push_u32_part(TAG_SCHEMA_VERSION, self.schema_version, Ghost(t5), buf);
        push_i64_part(TAG_EVENT_TIME_MS, self.event_time_ms, Ghost(t6), buf);
        push_i64_part(TAG_PREDICT_TIME_MS, self.predict_time_ms, Ghost(t7), buf);
        push_words_part(TAG_FEATURES, &self.features, Ghost(t8), buf);
        push_words_part(TAG_OUTPUT, &self.output, Ghost(t9), buf);
        push_text_part(TAG_REQUEST_ID, &self.request_id, Ghost(Seq::empty()), buf);
        assert(buf@ == buf@ + Seq::<u8>::empty());
    }

    /// Encodes this record into a new buffer sized to fit it.
    pub fn encode_to_vec(&self) -> (bytes: Vec<u8>)
        requires
            prediction_encodable(self@),
        ensures
            bytes@ == spec_encode_prediction(self@),
    {
        let mut buf = Vec::with_capacity(self.encoded_len());
        self.encode_raw(&mut buf);
        buf
    }

    /// Merges the fields encoded in `bytes` into this record, in order: a
    /// scalar or string field replaces the current value, floats are
    /// appended, unknown fields are skipped.
    ///
    /// # Errors
    /// Exactly when `bytes` is not a valid encoding; the record is then
    /// partly merged.
    pub fn merge(&mut self, bytes: &[u8]) -> (res: Result<(), DecodeError>)
        ensures
            match spec_merge_prediction(bytes@, old(self)@) {
                Some(m) => res is Ok && final(self)@ == m,
                None => res is Err,
            },
    {
        let len = bytes.len();
        let mut pos: usize = 0;
        assert(bytes@.skip(0) == bytes@);
        while pos < len
            invariant
                len == bytes@.len(),
                pos <= len,
                spec_merge_prediction(bytes@.skip(pos as int), self@) == spec_merge_prediction(
                    bytes@,
                    old(self)@,
                ),
            decreases len - pos,
        {
            let ghost s = bytes@.skip(pos as int);
            let rest = slice_subrange(bytes, pos, len);
            assert(rest@ == s);
            proof {
                lemma_decode_key_len(s);
            }
            let (tag, wire_type, after_key) = match decode_key(rest) {
                Ok(key) => key,
                Err(e) => return Err(e),
            };
            let start = len - after_key;
            let body = slice_subrange(bytes, start, len);
            assert(body@ == s.skip(start - pos));
            let ghost acc = self@;
            let (remaining, field) = if tag == TAG_ENTITY_ID {
                (string_merge(wire_type, &mut self.entity_id, body), "entity_id")
            } else if tag == TAG_MODEL_NAME {
                (string_merge(wire_type, &mut self.model_name, body), "model_name")
            } else if tag == TAG_MODEL_VERSION {
                (string_merge(wire_type, &mut self.model_version, body), "model_version")
            } else if tag == TAG_SCHEMA_VERSION {
                (
                    match uint32_merge(wire_type, body) {
                        Ok((v, rem)) => {
                            self.schema_version = v;
                            Ok(rem)
                        },
                        Err(e) => Err(e),
                    },
                    "schema_version",
                )
            } else if tag == TAG_EVENT_TIME_MS {
                (
                    match int64_merge(wire_type, body) {
                        Ok((v, rem)) => {
                            self.event_time_ms = v;
                            Ok(rem)
                        },
                        Err(e) => Err(e),
                    },
                    "event_time_ms",
                )
            } else if tag == TAG_PREDICT_TIME_MS {
                (
                    match int64_merge(wire_type, body) {
                        Ok((v, rem)) => {
                            self.predict_time_ms = v;
                            Ok(rem)
                        },
                        Err(e) => Err(e),
                    },
                    "predict_time_ms",
                )
            } else if tag == TAG_FEATURES {
                (fixed32_merge_repeated(wire_type, &mut self.features, body), "features")
            } else if tag == TAG_OUTPUT {
                (fixed32_merge_repeated(wire_type, &mut self.output, body), "output")
            } else if tag == TAG_REQUEST_ID {
                (string_merge(wire_type, &mut self.request_id, body), "request_id")
            } else {
                (skip_field(wire_type, tag, body), "")
            };
            let remaining = match remaining {
                Ok(rem) => rem,
                Err(e) => {
                    // An unknown field's error is passed on as prost reports it;
                    // a known field's names the field.
                    if TAG_ENTITY_ID <= tag && tag <= TAG_REQUEST_ID {
                        return Err(locate_error(e, "PredictionRecord", field));
                    } else {
                        return Err(e);
                    }
                },
            };
            proof {
                let m = (body@.len() - remaining) as nat;
                assert(spec_merge_prediction_field(tag, wire_type, body@, acc) == Some((self@, m)));
                assert(body@.skip(m as int) == bytes@.skip(len - remaining));
            }
            pos = len - remaining;
        }
        assert(bytes@.skip(len as int) == Seq::<u8>::empty());
        Ok(())
    }

    /// Decodes a prediction record from `bytes`.
    ///
    /// # Errors
    /// Exactly when `bytes` is not a valid encoding of a `PredictionRecord`.
    pub fn decode(bytes: &[u8]) -> (res: Result<PredictionRecord, DecodeError>)
        ensures
            match spec_decode_prediction(bytes@) {
                Some(p) => res matches Ok(rec) && rec@ == p,
                None => res is Err,
            },
    {
        let mut rec = PredictionRecord::default();
        match rec.merge(bytes) {
            Ok(()) => Ok(rec),
            Err(e) => Err(e),
        }
    }
}

} // verus!
