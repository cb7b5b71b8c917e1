//! The Protobuf wire primitives this crate's messages are built from.
//!
//! The field codecs themselves are prost's (`prost::encoding`), reached through
//! the trusted wrappers below; each wrapper's contract states the bytes it
//! writes or reads over the spec functions of this module (base-128 varints,
//! little-endian 32-bit words). The lemmas at the end prove that what the
//! encoders write, the decoders read back.

use prost::encoding::{DecodeContext, WireType};
use prost::DecodeError;
use vstd::prelude::*;
use vstd::utf8::{decode_utf8, encode_utf8, valid_utf8};

verus! {

/// prost's decoding error: opaque here, carried through to the caller.
#[verifier::external_type_specification]
#[verifier::external_body]
pub struct ExDecodeError(DecodeError);

/// Wire type code of a varint field.
pub const WIRE_VARINT: u8 = 0;

/// Wire type code of a length-delimited field (a packed repeated field).
pub const WIRE_LEN: u8 = 2;

/// Wire type code of a 32-bit fixed-width field.
pub const WIRE_FIXED32: u8 = 5;

/// Largest field tag that Protobuf allows.
pub const MAX_TAG: u32 = 536870911;

/// `128^k`.
pub open spec fn pow128(k: nat) -> nat
    decreases k,
{
    if k == 0 {
        1
    } else {
        128 * pow128((k - 1) as nat)
    }
}

/// Base-128 varint encoding of `x`: seven bits per byte, least significant
/// group first, the high bit set on every byte but the last.
pub open spec fn varint_bytes(x: nat) -> Seq<u8>
    decreases x,
{
    if x < 128 {
        seq![x as u8]
    } else {
        seq![(x % 128 + 128) as u8] + varint_bytes(x / 128)
    }
}

/// Reads a base-128 varint of at most `budget` bytes from the front of `s`:
/// its value and the number of bytes it spans.
pub open spec fn varint_prefix(s: Seq<u8>, budget: nat) -> Option<(nat, nat)>
    decreases budget,
{
    if budget == 0 || s.len() == 0 {
        None
    } else if s[0] < 128 {
        Some((s[0] as nat, 1))
    } else {
        match varint_prefix(s.drop_first(), (budget - 1) as nat) {
            Some((v, n)) => Some((((s[0] - 128) + 128 * v) as nat, n + 1)),
            None => None,
        }
    }
}

/// The varint at the front of `s` as prost reads it: at most ten bytes,
/// and a value that fits in 64 bits.
pub open spec fn spec_decode_varint(s: Seq<u8>) -> Option<(u64, nat)> {
    match varint_prefix(s, 10) {
        Some((v, n)) => if v <= u64::MAX {
            Some((v as u64, n))
        } else {
            None
        },
        None => None,
    }
}

/// The field key at the front of `s`: `(tag, wire type, bytes read)`.
/// The key must fit in 32 bits, name a wire type of at most 5 and a tag of
/// at least 1.
pub open spec fn spec_decode_key(s: Seq<u8>) -> Option<(u32, u8, nat)> {
    match spec_decode_varint(s) {
        Some((k, n)) => if k <= u32::MAX && k % 8 <= 5 && k / 8 >= 1 {
            Some(((k / 8) as u32, (k % 8) as u8, n))
        } else {
            None
        },
        None => None,
    }
}

/// The bytes of a field key.
pub open spec fn key_bytes(tag: u32, wire_type: u8) -> Seq<u8> {
    varint_bytes((tag * 8 + wire_type) as nat)
}

/// A varint field: its key, then the value as a varint.
pub open spec fn varint_field_bytes(tag: u32, value: u64) -> Seq<u8> {
    key_bytes(tag, WIRE_VARINT) + varint_bytes(value as nat)
}

/// The little-endian bytes of a 32-bit word.
pub open spec fn le_bytes(w: u32) -> Seq<u8> {
    seq![
        (w % 256) as u8,
        ((w / 256) % 256) as u8,
        ((w / 65536) % 256) as u8,
        (w / 16777216) as u8,
    ]
}

/// The 32-bit word whose little-endian bytes start `s`.
pub open spec fn le_word(s: Seq<u8>) -> u32 {
    (s[0] + 256 * s[1] + 65536 * s[2] + 16777216 * s[3]) as u32
}

/// The little-endian bytes of each word, in order.
pub open spec fn le_bytes_all(ws: Seq<u32>) -> Seq<u8>
    decreases ws.len(),
{
    if ws.len() == 0 {
        Seq::empty()
    } else {
        le_bytes(ws[0]) + le_bytes_all(ws.drop_first())
    }
}

/// The little-endian words that `s` holds, four bytes each.
pub open spec fn le_words(s: Seq<u8>) -> Seq<u32>
    decreases s.len(),
{
    if s.len() < 4 {
        Seq::empty()
    } else {
        seq![le_word(s)] + le_words(s.skip(4))
    }
}

/// A packed repeated 32-bit field: nothing when empty, else its key, the
/// byte length as a varint, and the words' little-endian bytes.
pub open spec fn packed_fixed32_bytes(tag: u32, ws: Seq<u32>) -> Seq<u8> {
    if ws.len() == 0 {
        Seq::empty()
    } else {
        key_bytes(tag, WIRE_LEN) + varint_bytes(4 * ws.len()) + le_bytes_all(ws)
    }
}

/// A varint field's value at the front of `s` (the bytes after its key):
/// the wire type must be that of a varint.
pub open spec fn spec_varint_value(wire_type: u8, s: Seq<u8>) -> Option<(u64, nat)> {
    if wire_type == WIRE_VARINT {
        spec_decode_varint(s)
    } else {
        None
    }
}

/// A repeated 32-bit field's values at the front of `s` (the bytes after its
/// key): packed (a varint byte length that is a multiple of four and fits in
/// `s`, then the words) or a single unpacked word.
pub open spec fn spec_fixed32_values(wire_type: u8, s: Seq<u8>) -> Option<(Seq<u32>, nat)> {
    if wire_type == WIRE_LEN {
        match spec_decode_varint(s) {
            Some((len, n)) => if len <= s.len() - n && len % 4 == 0 {
                Some((le_words(s.subrange(n as int, n + len)), (n + len) as nat))
            } else {
                None
            },
            None => None,
        }
    } else if wire_type == WIRE_FIXED32 {
        if s.len() >= 4 {
            Some((seq![le_word(s)], 4))
        } else {
            None
        }
    } else {
        None
    }
}

/// A string field: its key, the byte length of the text's UTF-8 encoding as
/// a varint, then that encoding.
pub open spec fn string_field_bytes(tag: u32, text: Seq<char>) -> Seq<u8> {
    key_bytes(tag, WIRE_LEN) + varint_bytes(encode_utf8(text).len()) + encode_utf8(text)
}

/// A string field's value at the front of `s` (the bytes after its key):
/// a varint byte length that fits in `s`, then that many bytes of valid
/// UTF-8.
pub open spec fn spec_string_value(wire_type: u8, s: Seq<u8>) -> Option<(Seq<char>, nat)> {
    if wire_type == WIRE_LEN {
        match spec_decode_varint(s) {
            Some((len, n)) => if len <= s.len() - n && valid_utf8(s.subrange(n as int, n + len)) {
                Some((decode_utf8(s.subrange(n as int, n + len)), (n + len) as nat))
            } else {
                None
            },
            None => None,
        }
    } else {
        None
    }
}

/// What remains of `s` after skipping one field's value of a wire type other
/// than a group: a varint; eight bytes; a varint length and that many bytes;
/// four bytes. An end-group marker with no group open, or a wire type above
/// 5, fails.
pub open spec fn spec_skip_plain(wire_type: u8, s: Seq<u8>) -> Option<nat> {
    if wire_type == WIRE_VARINT {
        match spec_decode_varint(s) {
            Some((_, n)) => Some((s.len() - n) as nat),
            None => None,
        }
    } else if wire_type == 1 {
        if s.len() >= 8 {
            Some((s.len() - 8) as nat)
        } else {
            None
        }
    } else if wire_type == WIRE_LEN {
        match spec_decode_varint(s) {
            Some((len, n)) => if len <= s.len() - n {
                Some((s.len() - n - len) as nat)
            } else {
                None
            },
            None => None,
        }
    } else if wire_type == WIRE_FIXED32 {
        if s.len() >= 4 {
            Some((s.len() - 4) as nat)
        } else {
            None
        }
    } else {
        None
    }
}

/// What remains of `input` after prost's `skip_field` passes over one
/// unknown field of the given wire type and tag (`None` when it fails).
pub uninterp spec fn prost_skip_field(wire_type: u8, tag: u32, input: Seq<u8>) -> Option<nat>;

/// `prost::encoding::uint32::encode`: appends the key of varint field `tag`
/// and `value` as a varint. prost writes into a `Vec`, which panics past
/// `isize::MAX` bytes; the `requires` leaves that out.
#[verifier::external_body]
pub(crate) fn uint32_encode(tag: u32, value: u32, buf: &mut Vec<u8>)
    requires
        1 <= tag <= MAX_TAG,
        old(buf)@.len() + varint_field_bytes(tag, value as u64).len() <= isize::MAX,
    ensures
        final(buf)@ == old(buf)@ + varint_field_bytes(tag, value as u64),
{
    prost::encoding::uint32::encode(tag, &value, buf)
}

/// `prost::encoding::int64::encode`: appends the key of varint field `tag`
/// and `value`, reinterpreted as 64 unsigned bits, as a varint.
#[verifier::external_body]
pub(crate) fn int64_encode(tag: u32, value: i64, buf: &mut Vec<u8>)
    requires
        1 <= tag <= MAX_TAG,
        old(buf)@.len() + varint_field_bytes(tag, value as u64).len() <= isize::MAX,
    ensures
        final(buf)@ == old(buf)@ + varint_field_bytes(tag, value as u64),
{
    prost::encoding::int64::encode(tag, &value, buf)
}

/// `prost::encoding::fixed32::encode_packed`: appends the packed field
/// `tag` holding `values` (nothing when `values` is empty). A packed
/// `float` field is written by the same code from the floats' bit patterns.
#[verifier::external_body]
pub(crate) fn fixed32_encode_packed(tag: u32, values: &[u32], buf: &mut Vec<u8>)
    requires
        1 <= tag <= MAX_TAG,
        old(buf)@.len() + packed_fixed32_bytes(tag, values@).len() <= isize::MAX,
    ensures
        final(buf)@ == old(buf)@ + packed_fixed32_bytes(tag, values@),
{
    prost::encoding::fixed32::encode_packed(tag, values, buf)
}

/// `prost::encoding::string::encode`: appends the string field `tag`
/// holding `value`.
#[verifier::external_body]
pub(crate) fn string_encode(tag: u32, value: &String, buf: &mut Vec<u8>)
    requires
        1 <= tag <= MAX_TAG,
        old(buf)@.len() + string_field_bytes(tag, value@).len() <= isize::MAX,
    ensures
        final(buf)@ == old(buf)@ + string_field_bytes(tag, value@),
{
    prost::encoding::string::encode(tag, value, buf)
}

/// `prost::encoding::string::encoded_len`: the length of the bytes that
/// `string_encode` writes.
#[verifier::external_body]
pub(crate) fn string_encoded_len(tag: u32, value: &String) -> (len: usize)
    requires
        1 <= tag <= MAX_TAG,
        string_field_bytes(tag, value@).len() <= usize::MAX,
    ensures
        len == string_field_bytes(tag, value@).len(),
{
    prost::encoding::string::encoded_len(tag, value)
}

/// `prost::encoding::uint32::encoded_len`: the length of the bytes that
/// `uint32_encode` writes.
#[verifier::external_body]
pub(crate) fn uint32_encoded_len(tag: u32, value: u32) -> (len: usize)
    requires
        1 <= tag <= MAX_TAG,
    ensures
        len == varint_field_bytes(tag, value as u64).len(),
{
    prost::encoding::uint32::encoded_len(tag, &value)
}

/// `prost::encoding::int64::encoded_len`: the length of the bytes that
/// `int64_encode` writes.
#[verifier::external_body]
pub(crate) fn int64_encoded_len(tag: u32, value: i64) -> (len: usize)
    requires
        1 <= tag <= MAX_TAG,
    ensures
        len == varint_field_bytes(tag, value as u64).len(),
{
    prost::encoding::int64::encoded_len(tag, &value)
}

/// `prost::encoding::fixed32::encoded_len_packed`: the length of the bytes
/// that `fixed32_encode_packed` writes. prost computes it in `usize`, so
/// the `requires` asks that it fit.
#[verifier::external_body]
pub(crate) fn fixed32_encoded_len_packed(tag: u32, values: &[u32]) -> (len: usize)
    requires
        1 <= tag <= MAX_TAG,
        packed_fixed32_bytes(tag, values@).len() <= usize::MAX,
    ensures
        len == packed_fixed32_bytes(tag, values@).len(),
{
    prost::encoding::fixed32::encoded_len_packed(tag, values)
}

/// `prost::encoding::decode_key`: reads the field key at the front of
/// `input`. On success it returns the tag, the wire type's code and the
/// length of what remains of `input` after the key.
#[verifier::external_body]
pub(crate) fn decode_key(input: &[u8]) -> (res: Result<(u32, u8, usize), DecodeError>)
    ensures
        match spec_decode_key(input@) {
            Some((tag, wt, n)) => res matches Ok((t, w, rem)) && t == tag && w == wt && rem
                == input@.len() - n,
            None => res is Err,
        },
{
    let mut rest = input;
    let (tag, wire_type) = prost::encoding::decode_key(&mut rest)?;
    Ok((tag, wire_type as u8, rest.len()))
}

/// `prost::encoding::uint32::merge`: reads the value of a varint field
/// (the wire type must be that of a varint), truncated to 32 bits, with the
/// length of what remains of `input`.
#[verifier::external_body]
pub(crate) fn uint32_merge(wire_type: u8, input: &[u8]) -> (res: Result<(u32, usize), DecodeError>)
    ensures
        match spec_varint_value(wire_type, input@) {
            Some((v, n)) => res matches Ok((x, rem)) && x == v as u32 && rem == input@.len() - n,
            None => res is Err,
        },
{
    let wire_type = WireType::try_from(u64::from(wire_type))?;
    let mut value = 0u32;
    let mut rest = input;
    prost::encoding::uint32::merge(wire_type, &mut value, &mut rest, DecodeContext::default())?;
    Ok((value, rest.len()))
}

/// `prost::encoding::int64::merge`: reads the value of a varint field
/// (the wire type must be that of a varint), reinterpreted as a signed
/// 64-bit integer, with the length of what remains of `input`.
#[verifier::external_body]
pub(crate) fn int64_merge(wire_type: u8, input: &[u8]) -> (res: Result<(i64, usize), DecodeError>)
    ensures
        match spec_varint_value(wire_type, input@) {
            Some((v, n)) => res matches Ok((x, rem)) && x == v as i64 && rem == input@.len() - n,
            None => res is Err,
        },
{
    let wire_type = WireType::try_from(u64::from(wire_type))?;
    let mut value = 0i64;
    let mut rest = input;
    prost::encoding::int64::merge(wire_type, &mut value, &mut rest, DecodeContext::default())?;
    Ok((value, rest.len()))
}

/// `prost::encoding::fixed32::merge_repeated`: appends the values of a
/// repeated 32-bit field (packed or not) to `values` and returns the length
/// of what remains of `input`. A `float` field is read by the same code; its
/// values are these words' bit patterns. On failure prost may have appended
/// some of the values already: nothing is stated of `values` then.
#[verifier::external_body]
pub(crate) fn fixed32_merge_repeated(wire_type: u8, values: &mut Vec<u32>, input: &[u8]) -> (res: Result<
    usize,
    DecodeError,
>)
    ensures
        match spec_fixed32_values(wire_type, input@) {
            Some((ws, n)) => res matches Ok(rem) && rem == input@.len() - n && final(values)@
                == old(values)@ + ws,
            None => res is Err,
        },
{
    let wire_type = WireType::try_from(u64::from(wire_type))?;
    let mut rest = input;
    prost::encoding::fixed32::merge_repeated(wire_type, values, &mut rest, DecodeContext::default())?;
    Ok(rest.len())
}

/// `prost::encoding::string::merge`: replaces `value` with the text of a
/// string field (the bytes must be valid UTF-8) and returns the length of
/// what remains of `input`. On failure prost may have cleared `value`:
/// nothing is stated of it then.
#[verifier::external_body]
pub(crate) fn string_merge(wire_type: u8, value: &mut String, input: &[u8]) -> (res: Result<
    usize,
    DecodeError,
>)
    ensures
        match spec_string_value(wire_type, input@) {
            Some((text, n)) => res matches Ok(rem) && rem == input@.len() - n && final(value)@
                == text,
            None => res is Err,
        },
{
    let wire_type = WireType::try_from(u64::from(wire_type))?;
    let mut rest = input;
    prost::encoding::string::merge(wire_type, value, &mut rest, DecodeContext::default())?;
    Ok(rest.len())
}

/// `prost::encoding::skip_field`, called with a fresh decode context as a
/// message's top-level decode does: passes over an unknown field and returns
/// the length of what remains of `input`, which is named
/// `prost_skip_field`. prost only ever advances through `input`; for every
/// wire type but a group's start the result is `spec_skip_plain`. What a
/// group skip returns (nested fields, up to prost's recursion limit) is left
/// to the name.
#[verifier::external_body]
pub(crate) fn skip_field(wire_type: u8, tag: u32, input: &[u8]) -> (res: Result<usize, DecodeError>)
    requires
        wire_type <= 5,
    ensures
        res is Ok <==> prost_skip_field(wire_type, tag, input@) is Some,
        res matches Ok(rem) ==> rem == prost_skip_field(wire_type, tag, input@).unwrap() && rem
            <= input@.len(),
        wire_type != 3 ==> match spec_skip_plain(wire_type, input@) {
            Some(rem) => res matches Ok(r) && r == rem,
            None => res is Err,
        },
{
    let wire_type = WireType::try_from(u64::from(wire_type))?;
    let mut rest = input;
    prost::encoding::skip_field(wire_type, tag, &mut rest, DecodeContext::default())?;
    Ok(rest.len())
}

/// `prost::DecodeError::push`: records that the failure happened in field
/// `field` of message `message`, as a message's field decoder does before
/// passing the error on. prost only extends the error's location stack,
/// which shows in its description; nothing is stated of the result.
#[verifier::external_body]
pub(crate) fn locate_error(error: DecodeError, message: &'static str, field: &'static str) -> DecodeError {
    let mut error = error;
    error.push(message, field);
    error
}

// Lemmas: what the encoders write, the decoders read back.

/// A varint spans at least one byte, and fewer than `k + 1` when its value
/// is below `128^k`.
pub proof fn lemma_varint_bytes_len(x: nat, k: nat)
    requires
        1 <= k,
        x < pow128(k),
    ensures
        1 <= varint_bytes(x).len() <= k,
    decreases x,
{
    if x >= 128 {
        assert(k >= 2) by {
            if k == 1 {
                assert(pow128(1) == 128 * pow128(0));
            }
        }
        let k1 = (k - 1) as nat;
        assert(pow128(k) == 128 * pow128(k1));
        assert(x / 128 < pow128(k1)) by (nonlinear_arith)
            requires
                x < 128 * pow128(k1),
        ;
        lemma_varint_bytes_len(x / 128, k1);
    }
}

/// Every 64-bit value's varint spans one to ten bytes.
pub proof fn lemma_varint_u64_len(x: u64)
    ensures
        1 <= varint_bytes(x as nat).len() <= 10,
{
    assert(pow128(10) == 1180591620717411303424nat) by {
        reveal_with_fuel(pow128, 11);
    }
    lemma_varint_bytes_len(x as nat, 10);
}

/// A varint spans at least one byte of the input, and no more than it.
pub proof fn lemma_varint_prefix_len(s: Seq<u8>, budget: nat)
    ensures
        varint_prefix(s, budget) matches Some((_, n)) ==> 1 <= n <= s.len(),
    decreases budget,
{
    if budget > 0 && s.len() > 0 && s[0] >= 128 {
        lemma_varint_prefix_len(s.drop_first(), (budget - 1) as nat);
    }
}

/// A field key spans at least one byte of the input, and no more than it.
pub proof fn lemma_decode_key_len(s: Seq<u8>)
    ensures
        spec_decode_key(s) matches Some((_, _, n)) ==> 1 <= n <= s.len(),
{
    lemma_varint_prefix_len(s, 10);
}

/// Reading a varint back from its encoding, whatever follows it.
pub proof fn lemma_varint_prefix_of_bytes(x: nat, rest: Seq<u8>, budget: nat)
    requires
        varint_bytes(x).len() <= budget,
    ensures
        varint_prefix(varint_bytes(x) + rest, budget) == Some((x, varint_bytes(x).len())),
    decreases x,
{
    let s = varint_bytes(x) + rest;
    if x < 128 {
        assert(s[0] == x as u8);
    } else {
        let hi = x / 128;
        assert(varint_bytes(x) == seq![(x % 128 + 128) as u8] + varint_bytes(hi));
        assert(s.drop_first() == varint_bytes(hi) + rest);
        lemma_varint_prefix_of_bytes(hi, rest, (budget - 1) as nat);
        assert(s[0] == (x % 128 + 128) as u8);
    }
}

/// prost reads back the varint of any 64-bit value, whatever follows it.
pub proof fn lemma_decode_varint_bytes(x: u64, rest: Seq<u8>)
    ensures
        spec_decode_varint(varint_bytes(x as nat) + rest) == Some((x, varint_bytes(x as nat).len())),
{
    lemma_varint_u64_len(x);
    lemma_varint_prefix_of_bytes(x as nat, rest, 10);
}

/// prost reads back the key of field `tag` with wire type `wt`.
pub proof fn lemma_decode_key_bytes(tag: u32, wt: u8, rest: Seq<u8>)
    requires
        1 <= tag <= MAX_TAG,
        wt <= 5,
    ensures
        spec_decode_key(key_bytes(tag, wt) + rest) == Some((tag, wt, key_bytes(tag, wt).len())),
{
    let k = (tag * 8 + wt) as u64;
    lemma_decode_varint_bytes(k, rest);
    assert(k / 8 == tag && k % 8 == wt);
}

/// Reading a word back from its little-endian bytes.
pub proof fn lemma_le_word_bytes(w: u32, rest: Seq<u8>)
    ensures
        le_word(le_bytes(w) + rest) == w,
{
    let s = le_bytes(w) + rest;
    let b0 = (w % 256) as u8;
    let b1 = ((w / 256) % 256) as u8;
    let b2 = ((w / 65536) % 256) as u8;
    let b3 = (w / 16777216) as u8;
    assert(s[0] == b0 && s[1] == b1 && s[2] == b2 && s[3] == b3);
    assert(b0 + 256 * b1 + 65536 * b2 + 16777216 * b3 == w) by (nonlinear_arith)
        requires
            b0 == w % 256,
            b1 == (w / 256) % 256,
            b2 == (w / 65536) % 256,
            b3 == w / 16777216,
            w < 4294967296,
    ;
}

/// Four bytes per word.
pub proof fn lemma_le_bytes_all_len(ws: Seq<u32>)
    ensures
        le_bytes_all(ws).len() == 4 * ws.len(),
    decreases ws.len(),
{
    if ws.len() > 0 {
        lemma_le_bytes_all_len(ws.drop_first());
    }
}

/// Reading words back from their little-endian bytes.
pub proof fn lemma_le_words_bytes(ws: Seq<u32>)
    ensures
        le_words(le_bytes_all(ws)) == ws,
    decreases ws.len(),
{
    lemma_le_bytes_all_len(ws);
    if ws.len() > 0 {
        let tail = ws.drop_first();
        let s = le_bytes_all(ws);
        assert(s == le_bytes(ws[0]) + le_bytes_all(tail));
        lemma_le_word_bytes(ws[0], le_bytes_all(tail));
        assert(s.skip(4) == le_bytes_all(tail));
        lemma_le_words_bytes(tail);
        assert(ws == seq![ws[0]] + tail);
    }
}

/// prost reads back a packed field's words, whatever follows them.
pub proof fn lemma_fixed32_values_bytes(ws: Seq<u32>, rest: Seq<u8>)
    requires
        ws.len() > 0,
        4 * ws.len() <= u64::MAX,
    ensures
        ({
            let body = varint_bytes(4 * ws.len()) + le_bytes_all(ws);
            spec_fixed32_values(WIRE_LEN, body + rest) == Some((ws, body.len()))
        }),
{
    let len = (4 * ws.len()) as u64;
    let vb = varint_bytes(len as nat);
    let body = vb + le_bytes_all(ws);
    let s = body + rest;
    lemma_le_bytes_all_len(ws);
    assert(s == vb + (le_bytes_all(ws) + rest));
    lemma_decode_varint_bytes(len, le_bytes_all(ws) + rest);
    assert(s.subrange(vb.len() as int, vb.len() + len) == le_bytes_all(ws));
    lemma_le_words_bytes(ws);
}

/// prost reads back a string field's text, whatever follows it.
pub proof fn lemma_string_value_bytes(text: Seq<char>, rest: Seq<u8>)
    requires
        encode_utf8(text).len() <= u64::MAX,
    ensures
        ({
            let body = varint_bytes(encode_utf8(text).len()) + encode_utf8(text);
            spec_string_value(WIRE_LEN, body + rest) == Some((text, body.len()))
        }),
{
    broadcast use vstd::utf8::encode_utf8_valid_utf8, vstd::utf8::encode_utf8_decode_utf8;

    let bytes = encode_utf8(text);
    let len = bytes.len() as u64;
    let vb = varint_bytes(len as nat);
    let s = vb + bytes + rest;
    assert(s == vb + (bytes + rest));
    lemma_decode_varint_bytes(len, bytes + rest);
    assert(s.subrange(vb.len() as int, vb.len() + len) == bytes);
}

} // verus!
