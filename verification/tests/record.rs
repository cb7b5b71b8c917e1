use cortex_contract::{FeatureRecord, PredictionRecord};

fn bits(values: &[f32]) -> Vec<u32> {
    values.iter().map(|v| v.to_bits()).collect()
}

fn canonical_prediction() -> PredictionRecord {
    PredictionRecord {
        entity_id: "entity_0001".to_owned(),
        model_name: "fraud_demo".to_owned(),
        model_version: "3".to_owned(),
        schema_version: 1,
        event_time_ms: 1_719_000_000_123,
        predict_time_ms: 1_719_000_000_456,
        features: bits(&[0.1, 1.5, -2.0, 42.0]),
        output: bits(&[0.87]),
        request_id: "req-abc-123".to_owned(),
    }
}

#[test]
fn feature_record_round_trips() {
    let written = FeatureRecord {
        schema_version: 1,
        event_time_ms: 1_719_000_000_123,
        features: bits(&[0.1, 1.5, -2.0, 42.0]),
    };

    let bytes = written.encode_to_vec();
    let decoded = FeatureRecord::decode(bytes.as_slice()).expect("decode FeatureRecord");

    assert_eq!(decoded, written);
}

#[test]
fn prediction_record_round_trips() {
    let written = canonical_prediction();

    let bytes = written.encode_to_vec();
    let decoded = PredictionRecord::decode(bytes.as_slice()).expect("decode PredictionRecord");

    assert_eq!(decoded, written);
}

#[test]
fn prediction_record_encodes_to_the_exact_wire_bytes() {
    let expected: Vec<u8> = vec![
        0x0a, 0x0b, 0x65, 0x6e, 0x74, 0x69, 0x74, 0x79, 0x5f, 0x30, 0x30, 0x30, 0x31, 0x12, 0x0a,
        0x66, 0x72, 0x61, 0x75, 0x64, 0x5f, 0x64, 0x65, 0x6d, 0x6f, 0x1a, 0x01, 0x33, 0x20, 0x01,
        0x28, 0xfb, 0xcc, 0x89, 0xe3, 0x83, 0x32, 0x30, 0xc8, 0xcf, 0x89, 0xe3, 0x83, 0x32, 0x3a,
        0x10, 0xcd, 0xcc, 0xcc, 0x3d, 0x00, 0x00, 0xc0, 0x3f, 0x00, 0x00, 0x00, 0xc0, 0x00, 0x00,
        0x28, 0x42, 0x42, 0x04, 0x52, 0xb8, 0x5e, 0x3f, 0x4a, 0x0b, 0x72, 0x65, 0x71, 0x2d, 0x61,
        0x62, 0x63, 0x2d, 0x31, 0x32, 0x33,
    ];
    let rec = canonical_prediction();
    assert_eq!(rec.encode_to_vec(), expected);
    assert_eq!(rec.encoded_len(), expected.len());
}

#[test]
fn prediction_record_with_unicode_and_defaults_round_trips() {
    let written = PredictionRecord {
        entity_id: "é🦀".to_owned(),
        request_id: String::new(),
        ..PredictionRecord::default()
    };
    let bytes = written.encode_to_vec();
    assert_eq!(bytes, vec![0x0a, 0x06, 0xc3, 0xa9, 0xf0, 0x9f, 0xa6, 0x80]);
    assert_eq!(PredictionRecord::decode(&bytes).expect("decode"), written);
}

#[test]
fn prediction_record_rejects_invalid_utf8() {
    assert!(PredictionRecord::decode(&[0x0a, 0x02, 0xc3, 0x28]).is_err());
}

#[test]
fn prediction_record_clear_resets_every_field() {
    let mut rec = canonical_prediction();
    rec.clear();
    assert_eq!(rec, PredictionRecord::default());
    assert!(rec.encode_to_vec().is_empty());
}

#[test]
fn clear_resets_every_field() {
    let mut rec = FeatureRecord {
        schema_version: 4,
        event_time_ms: 5,
        features: vec![6, 7],
    };
    rec.clear();
    assert_eq!(rec, FeatureRecord::default());
}

#[test]
fn merge_appends_features_and_replaces_scalars() {
    let mut rec = FeatureRecord {
        schema_version: 1,
        event_time_ms: 2,
        features: vec![3],
    };
    rec.merge(&[0x08, 0x07, 0x1a, 0x04, 0x04, 0x00, 0x00, 0x00])
        .expect("merge");
    assert_eq!(
        rec,
        FeatureRecord {
            schema_version: 7,
            event_time_ms: 2,
            features: vec![3, 4],
        }
    );
}

/// Every feature is a 32-bit word on the wire: four bytes each.
#[test]
fn features_are_32_bit_words() {
    let rec = FeatureRecord {
        schema_version: 0,
        event_time_ms: 0,
        features: bits(&[0.1]),
    };
    let _: &Vec<u32> = &rec.features;
    assert_eq!(rec.features[0], 0.1f32.to_bits());
    let bytes = rec.encode_to_vec();
    assert_eq!(bytes, vec![0x1a, 0x04, 0xcd, 0xcc, 0xcc, 0x3d]);
    let decoded = FeatureRecord::decode(&bytes).expect("decode");
    assert_eq!(f32::from_bits(decoded.features[0]), 0.1f32);
}

#[test]
fn prediction_decode_error_names_the_field_that_failed() {
    let err = PredictionRecord::decode(&[0x0a, 0x05, b'a']).expect_err("truncated entity_id");
    assert_eq!(
        err.to_string(),
        "failed to decode Protobuf message: PredictionRecord.entity_id: buffer underflow"
    );
    let err = PredictionRecord::decode(&[0x42, 0x02, 0x01, 0x02]).expect_err("ragged output");
    assert!(err.to_string().contains("PredictionRecord.output: "));
}
