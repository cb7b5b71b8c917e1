//! Typed error enums shared across service boundaries, one per subsystem:
//! [`SchemaError`] (schema loading and validation), [`CodecError`] (the wire
//! codec) and [`StoreError`] (the online store). Each has a `message` method
//! that renders it as text.

use prost::DecodeError;
use vstd::prelude::*;

verus! {

/// The decimal digit `d` as a character.
pub open spec fn digit_char(d: nat) -> char {
    (48 + d) as char
}

/// The decimal representation of `n`, without leading zeros.
pub open spec fn decimal(n: nat) -> Seq<char>
    decreases n,
{
    if n < 10 {
        seq![digit_char(n)]
    } else {
        decimal(n / 10) + seq![digit_char(n % 10)]
    }
}

fn digit_text(d: u64) -> (text: &'static str)
    requires
        d < 10,
    ensures
        text@ == seq![digit_char(d as nat)],
{
    if d == 0 {
        proof {
            reveal_strlit("0");
        }
        "0"
    } else if d == 1 {
        proof {
            reveal_strlit("1");
        }
        "1"
    } else if d == 2 {
        proof {
            reveal_strlit("2");
        }
        "2"
    } else if d == 3 {
        proof {
            reveal_strlit("3");
        }
        "3"
    } else if d == 4 {
        proof {
            reveal_strlit("4");
        }
        "4"
    } else if d == 5 {
        proof {
            reveal_strlit("5");
        }
        "5"
    } else if d == 6 {
        proof {
            reveal_strlit("6");
        }
        "6"
    } else if d == 7 {
        proof {
            reveal_strlit("7");
        }
        "7"
    } else if d == 8 {
        proof {
            reveal_strlit("8");
        }
        "8"
    } else {
        proof {
            reveal_strlit("9");
        }
        "9"
    }
}

/// Appends the decimal representation of `n` to `out`.
fn push_decimal(out: &mut String, n: u64)
    ensures
        final(out)@ == old(out)@ + decimal(n as nat),
    decreases n,
{
    if n >= 10 {
        push_decimal(out, n / 10);
    }
    out.append(digit_text(n % 10));
}

/// prost's description of a decoding failure: the `Display` text of a
/// `DecodeError`, which is a function of the error's contents alone.
pub uninterp spec fn decode_error_description(e: DecodeError) -> Seq<char>;

/// toml's description of a parse failure: the `Display` text of a
/// `toml::de::Error`, which is a function of the error's contents alone.
pub uninterp spec fn toml_error_description(e: toml::de::Error) -> Seq<char>;

/// `<prost::DecodeError as Display>`: prost's description of a decoding
/// failure, named `decode_error_description`.
#[verifier::external_body]
fn decode_error_text(e: &DecodeError) -> (text: String)
    ensures
        text@ == decode_error_description(*e),
{
    e.to_string()
}

/// `<std::io::Error as Display>`: the operating system's description of an
/// I/O failure. Nothing is stated of the text.
#[verifier::external_body]
fn io_error_text(e: &std::io::Error) -> String {
    e.to_string()
}

/// `<toml::de::Error as Display>`: toml's description of a parse failure,
/// named `toml_error_description`.
#[verifier::external_body]
fn toml_error_text(e: &toml::de::Error) -> (text: String)
    ensures
        text@ == toml_error_description(*e),
{
    e.to_string()
}

/// An I/O error from std: opaque here.
#[verifier::external_type_specification]
#[verifier::external_body]
pub struct ExIoError(std::io::Error);

/// A TOML parse error from `toml`: opaque here.
#[verifier::external_type_specification]
#[verifier::external_body]
pub struct ExTomlDeError(toml::de::Error);

/// Whether `text` starts with `prefix`.
pub open spec fn starts_with(text: Seq<char>, prefix: Seq<char>) -> bool {
    prefix.len() <= text.len() && text.take(prefix.len() as int) == prefix
}

proof fn lemma_starts_with_concat(prefix: Seq<char>, rest: Seq<char>)
    ensures
        starts_with(prefix + rest, prefix),
{
    assert((prefix + rest).take(prefix.len() as int) == prefix);
}

/// The text of `CodecError::Decode(e)`.
pub open spec fn decode_failure_text(e: DecodeError) -> Seq<char> {
    "failed to decode protobuf message: "@ + decode_error_description(e)
}

/// Errors from encoding or decoding a message.
#[non_exhaustive]
#[derive(Debug)]
pub enum CodecError {
    /// The bytes were not a valid Protobuf encoding of the target message.
    Decode(DecodeError),
}

impl CodecError {
    /// The error as text: a fixed prefix, then prost's description.
    pub fn message(&self) -> (text: String)
        ensures
            match self {
                CodecError::Decode(e) => text@ == decode_failure_text(*e),
            },
    {
        match self {
            CodecError::Decode(e) => {
                let text = String::from_str("failed to decode protobuf message: ");
                let detail = decode_error_text(e);
                text.concat(detail.as_str())
            },
        }
    }
}

/// Errors from loading or validating a `FeatureSchema`.
#[non_exhaustive]
#[derive(Debug)]
pub enum SchemaError {
    /// The schema file could not be read.
    Io(std::io::Error),
    /// The schema file's content is not valid TOML of the schema's shape.
    Parse(toml::de::Error),
    /// A record's `schema_version` does not match the schema's `version`:
    /// the train/serve skew guard.
    VersionMismatch {
        /// The schema's own `version`.
        expected: u32,
        /// The `schema_version` carried by the record being checked.
        got: u32,
    },
    /// A feature vector's length does not match the schema's width.
    WidthMismatch {
        /// The schema's width (number of features).
        expected: usize,
        /// The length of the vector being checked.
        got: usize,
    },
}

/// The text of `SchemaError::VersionMismatch`.
pub open spec fn version_mismatch_text(expected: u32, got: u32) -> Seq<char> {
    "schema version mismatch: expected "@ + decimal(expected as nat) + ", got "@ + decimal(
        got as nat,
    )
}

/// The text of `SchemaError::WidthMismatch`.
pub open spec fn width_mismatch_text(expected: usize, got: usize) -> Seq<char> {
    "feature vector width mismatch: expected "@ + decimal(expected as nat) + ", got "@ + decimal(
        got as nat,
    )
}

impl SchemaError {
    /// The error as text. The I/O and parse variants end with the
    /// description of the underlying error; the I/O one comes from the
    /// operating system and is not stated here.
    pub fn message(&self) -> (text: String)
        ensures
            match self {
                SchemaError::Io(_) => starts_with(text@, "failed to read schema file: "@),
                SchemaError::Parse(e) => text@ == "failed to parse schema: "@
                    + toml_error_description(*e),
                SchemaError::VersionMismatch { expected, got } => text@ == version_mismatch_text(
                    *expected,
                    *got,
                ),
                SchemaError::WidthMismatch { expected, got } => text@ == width_mismatch_text(
                    *expected,
                    *got,
                ),
            },
    {
        match self {
            SchemaError::Io(e) => {
                let text = String::from_str("failed to read schema file: ");
                let detail = io_error_text(e);
                proof {
                    lemma_starts_with_concat("failed to read schema file: "@, detail@);
                }
                text.concat(detail.as_str())
            },
            SchemaError::Parse(e) => {
                let text = String::from_str("failed to parse schema: ");
                let detail = toml_error_text(e);
                text.concat(detail.as_str())
            },
            SchemaError::VersionMismatch { expected, got } => {
                let mut text = String::from_str("schema version mismatch: expected ");
                push_decimal(&mut text, *expected as u64);
                text.append(", got ");
                push_decimal(&mut text, *got as u64);
                text
            },
            SchemaError::WidthMismatch { expected, got } => {
                let mut text = String::from_str("feature vector width mismatch: expected ");
                push_decimal(&mut text, *expected as u64);
                text.append(", got ");
                push_decimal(&mut text, *got as u64);
                text
            },
        }
    }
}

/// Errors from an online-store backend, shared by the writer and the reader
/// so that a connection or shape failure means the same on either side.
#[non_exhaustive]
#[derive(Debug, Clone, PartialEq, Eq)]
pub enum StoreError {
    /// A connection or pool could not be established.
    Connection(String),
    /// A fetch (read) failed for the given entity.
    Fetch {
        /// Entity for which the fetch failed.
        entity_id: String,
        /// Underlying error from the backend.
        reason: String,
    },
    /// A write failed for the given entity.
    Write {
        /// Entity for which the write failed.
        entity_id: String,
        /// Underlying error from the backend.
        reason: String,
    },
    /// A freshness notification failed for the given entity.
    Notify {
        /// Entity for which the notify failed.
        entity_id: String,
        /// Underlying error from the backend.
        reason: String,
    },
    /// The bytes fetched for the given entity could not be decoded.
    Decode {
        /// Entity whose stored record could not be decoded.
        entity_id: String,
        /// Decode error detail.
        reason: String,
    },
    /// The decoded feature vector's length does not match the caller's buffer.
    ShapeMismatch {
        /// Entity whose feature vector had the wrong length.
        entity_id: String,
        /// Length the caller's destination buffer expects.
        expected: usize,
        /// Length of the vector actually stored.
        got: usize,
    },
}

/// `{before}{entity_id}': {reason}`: the shape of the entity errors' text.
pub open spec fn entity_text(before: Seq<char>, entity_id: Seq<char>, reason: Seq<char>) -> Seq<
    char,
> {
    before + entity_id + "': "@ + reason
}

/// The text of a `StoreError`.
pub open spec fn store_error_text(e: StoreError) -> Seq<char> {
    match e {
        StoreError::Connection(detail) => "failed to connect to the online store: "@ + detail@,
        StoreError::Fetch { entity_id, reason } => entity_text(
            "fetch failed for entity '"@,
            entity_id@,
            reason@,
        ),
        StoreError::Write { entity_id, reason } => entity_text(
            "write failed for entity '"@,
            entity_id@,
            reason@,
        ),
        StoreError::Notify { entity_id, reason } => entity_text(
            "notify failed for entity '"@,
            entity_id@,
            reason@,
        ),
        StoreError::Decode { entity_id, reason } => entity_text(
            "failed to decode stored record for entity '"@,
            entity_id@,
            reason@,
        ),
        StoreError::ShapeMismatch { entity_id, expected, got } => "feature vector shape mismatch for entity '"@
            + entity_id@ + "': expected "@ + decimal(expected as nat) + ", got "@ + decimal(
            got as nat,
        ),
    }
}

fn push_entity_text(before: &str, entity_id: &String, reason: &String) -> (text: String)
    ensures
        text@ == entity_text(before@, entity_id@, reason@),
{
    let mut text = String::from_str(before);
    text.append(entity_id.as_str());
    text.append("': ");
    text.append(reason.as_str());
    text
}

impl StoreError {
    /// The error as text, naming the entity and the reason.
    pub fn message(&self) -> (text: String)
        ensures
            text@ == store_error_text(*self),
    {
        match self {
            StoreError::Connection(detail) => {
                let text = String::from_str("failed to connect to the online store: ");
                text.concat(detail.as_str())
            },
            StoreError::Fetch { entity_id, reason } => {
                push_entity_text("fetch failed for entity '", entity_id, reason)
            },
            StoreError::Write { entity_id, reason } => {
                push_entity_text("write failed for entity '", entity_id, reason)
            },
            StoreError::Notify { entity_id, reason } => {
                push_entity_text("notify failed for entity '", entity_id, reason)
            },
            StoreError::Decode { entity_id, reason } => {
                push_entity_text("failed to decode stored record for entity '", entity_id, reason)
            },
            StoreError::ShapeMismatch { entity_id, expected, got } => {
                let mut text = String::from_str("feature vector shape mismatch for entity '");
                text.append(entity_id.as_str());
                text.append("': expected ");
                push_decimal(&mut text, *expected as u64);
                text.append(", got ");
                push_decimal(&mut text, *got as u64);
                text
            },
        }
    }
}

} // verus!
