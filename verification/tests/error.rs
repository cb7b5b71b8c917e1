use cortex_contract::{CodecError, SchemaError, StoreError};

#[test]
fn version_mismatch_includes_both_versions() {
    let e = SchemaError::VersionMismatch {
        expected: 1,
        got: 2,
    };
    let msg = e.message();
    assert!(msg.contains('1'));
    assert!(msg.contains('2'));
}

#[test]
fn width_mismatch_includes_both_widths() {
    let e = SchemaError::WidthMismatch {
        expected: 8,
        got: 6,
    };
    let msg = e.message();
    assert!(msg.contains('8'));
    assert!(msg.contains('6'));
}

#[test]
fn store_fetch_includes_entity_id() {
    let e = StoreError::Fetch {
        entity_id: "e1".into(),
        reason: "connection reset".into(),
    };
    let msg = e.message();
    assert!(msg.contains("e1"));
    assert!(msg.contains("connection reset"));
}

#[test]
fn store_shape_mismatch_includes_both_lengths() {
    let e = StoreError::ShapeMismatch {
        entity_id: "e1".into(),
        expected: 8,
        got: 6,
    };
    let msg = e.message();
    assert!(msg.contains('8'));
    assert!(msg.contains('6'));
}

#[test]
fn messages_have_the_exact_text() {
    assert_eq!(
        SchemaError::VersionMismatch {
            expected: 10,
            got: 207
        }
        .message(),
        "schema version mismatch: expected 10, got 207"
    );
    assert_eq!(
        SchemaError::WidthMismatch {
            expected: 0,
            got: 18446744073709551615
        }
        .message(),
        "feature vector width mismatch: expected 0, got 18446744073709551615"
    );
    assert_eq!(
        StoreError::Connection("refused".into()).message(),
        "failed to connect to the online store: refused"
    );
    assert_eq!(
        StoreError::Write {
            entity_id: "e2".into(),
            reason: "oom".into()
        }
        .message(),
        "write failed for entity 'e2': oom"
    );
    assert_eq!(
        StoreError::Notify {
            entity_id: "e3".into(),
            reason: "down".into()
        }
        .message(),
        "notify failed for entity 'e3': down"
    );
    assert_eq!(
        StoreError::Decode {
            entity_id: "e4".into(),
            reason: "bad".into()
        }
        .message(),
        "failed to decode stored record for entity 'e4': bad"
    );
    assert_eq!(
        StoreError::ShapeMismatch {
            entity_id: "e5".into(),
            expected: 8,
            got: 16
        }
        .message(),
        "feature vector shape mismatch for entity 'e5': expected 8, got 16"
    );
}

#[test]
fn io_and_parse_messages_start_with_their_prefix() {
    let io = std::io::Error::new(std::io::ErrorKind::NotFound, "no such file");
    let msg = SchemaError::Io(io).message();
    assert_eq!(msg, "failed to read schema file: no such file");

    let parse = toml::from_str::<toml::Value>("this is not [ valid toml").unwrap_err();
    let expected = format!("failed to parse schema: {parse}");
    let msg = SchemaError::Parse(parse).message();
    assert_eq!(msg, expected);
    assert!(msg.len() > "failed to parse schema: ".len());
}

#[test]
fn codec_message_names_the_decode_failure() {
    let err = cortex_contract::decode(&[0xFFu8; 10]).unwrap_err();
    let msg = err.message();
    assert!(msg.starts_with("failed to decode protobuf message: "));
    assert!(msg.contains("invalid varint"));
    match err {
        CodecError::Decode(e) => {
            assert_eq!(msg, format!("failed to decode protobuf message: {e}"))
        }
        _ => unreachable!("CodecError has one variant"),
    }
}
