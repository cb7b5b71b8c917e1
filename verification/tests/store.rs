use cortex_contract::codec::encode;
use cortex_contract::store::{complete_fetch, conclude_fetch, default_key_prefix};
use cortex_contract::{FeatureRecord, FetchResult, OnlineBackend, RecordHeader, StoreError};

fn stored_record() -> FeatureRecord {
    FeatureRecord {
        schema_version: 3,
        event_time_ms: 1_719_000_000_123,
        features: vec![1, 2, 3, 4],
    }
}

#[test]
fn record_header_default_is_zeroed() {
    let header = RecordHeader::default();
    assert_eq!(header.schema_version, 0);
    assert_eq!(header.event_time_ms, 0);
}

#[test]
fn default_key_prefix_is_the_keyspace_default() {
    assert_eq!(default_key_prefix(), cortex_contract::DEFAULT_KEY_PREFIX);
    let backend = OnlineBackend::Redis {
        url: "redis://localhost:6379".to_string(),
        key_prefix: default_key_prefix(),
    };
    match backend {
        OnlineBackend::Redis { key_prefix, .. } => assert_eq!(key_prefix, "features"),
        _ => unreachable!("only the Redis backend exists"),
    }
}

#[test]
fn fetch_miss_changes_nothing() {
    let mut scratch = stored_record();
    let mut header = RecordHeader {
        schema_version: 9,
        event_time_ms: 9,
    };
    let res = complete_fetch("e1", None, &mut scratch, &mut header, 4);
    assert_eq!(res, Ok(FetchResult::Miss));
    assert_eq!(header.schema_version, 9);
    assert_eq!(header.event_time_ms, 9);
    assert_eq!(scratch, stored_record());
}

#[test]
fn fetch_hit_fills_header_and_scratch() {
    let bytes = encode(&stored_record());
    let mut scratch = FeatureRecord {
        schema_version: 1,
        event_time_ms: 1,
        features: vec![9; 7],
    };
    let mut header = RecordHeader::default();
    let res = complete_fetch("e1", Some(&bytes), &mut scratch, &mut header, 4);
    assert_eq!(res, Ok(FetchResult::Hit));
    assert_eq!(header.schema_version, 3);
    assert_eq!(header.event_time_ms, 1_719_000_000_123);
    assert_eq!(scratch, stored_record());
}

#[test]
fn fetch_shape_mismatch_names_both_lengths() {
    let bytes = encode(&stored_record());
    let mut scratch = FeatureRecord::default();
    let mut header = RecordHeader::default();
    let res = complete_fetch("e1", Some(&bytes), &mut scratch, &mut header, 8);
    assert_eq!(
        res,
        Err(StoreError::ShapeMismatch {
            entity_id: "e1".to_string(),
            expected: 8,
            got: 4
        })
    );
    assert_eq!(header, RecordHeader::default());
}

#[test]
fn fetch_of_garbage_is_a_decode_error() {
    let mut scratch = FeatureRecord::default();
    let mut header = RecordHeader::default();
    let res = complete_fetch("e7", Some(&[0xFF; 10]), &mut scratch, &mut header, 4);
    match res {
        Err(StoreError::Decode { entity_id, reason }) => {
            assert_eq!(entity_id, "e7");
            assert!(reason.starts_with("failed to decode protobuf message: "));
            let codec_err = cortex_contract::decode(&[0xFF; 10]).unwrap_err();
            assert_eq!(reason, codec_err.message());
        }
        other => panic!("expected a decode error, got {other:?}"),
    }
    assert_eq!(header, RecordHeader::default());
}

#[test]
fn conclude_fetch_reports_the_given_decode_error() {
    let scratch = FeatureRecord::default();
    let mut header = RecordHeader {
        schema_version: 2,
        event_time_ms: 5,
    };
    let failure = cortex_contract::decode(&[0x08]).unwrap_err();
    let expected = failure.message();
    let res = conclude_fetch("e3", Err(failure), &scratch, &mut header, 0);
    assert_eq!(
        res,
        Err(StoreError::Decode {
            entity_id: "e3".to_string(),
            reason: expected
        })
    );
    assert_eq!(header.schema_version, 2);
    assert_eq!(header.event_time_ms, 5);
}

#[test]
fn conclude_fetch_checks_the_width_then_fills_the_header() {
    let scratch = stored_record();
    let mut header = RecordHeader::default();
    let res = conclude_fetch("e4", Ok(()), &scratch, &mut header, 3);
    assert_eq!(
        res,
        Err(StoreError::ShapeMismatch {
            entity_id: "e4".to_string(),
            expected: 3,
            got: 4
        })
    );
    assert_eq!(header, RecordHeader::default());
    let res = conclude_fetch("e4", Ok(()), &scratch, &mut header, 4);
    assert_eq!(res, Ok(FetchResult::Hit));
    assert_eq!(header.schema_version, 3);
    assert_eq!(header.event_time_ms, 1_719_000_000_123);
}
