use cortex_contract::codec::{decode, decode_into, encode, encode_into};
use cortex_contract::FeatureRecord;

fn bits(values: &[f32]) -> Vec<u32> {
    values.iter().map(|v| v.to_bits()).collect()
}

fn sample() -> FeatureRecord {
    FeatureRecord {
        schema_version: 1,
        event_time_ms: 1_719_000_000_123,
        features: bits(&[0.1, 1.5, -2.0, 42.0]),
    }
}

#[test]
fn encode_decode_round_trips() {
    let rec = sample();
    let bytes = encode(&rec);
    let decoded = decode(&bytes).expect("decode");
    assert_eq!(decoded, rec);
}

#[test]
fn encode_into_decode_into_round_trips() {
    let rec = sample();
    let mut buf = Vec::new();
    encode_into(&rec, &mut buf);

    let mut decoded = FeatureRecord::default();
    decode_into(&buf, &mut decoded).expect("decode_into");
    assert_eq!(decoded, rec);
}

#[test]
fn decode_into_clears_stale_contents_before_merge() {
    let mut rec = FeatureRecord {
        schema_version: 99,
        event_time_ms: 999,
        features: bits(&[1.0, 2.0, 3.0, 4.0, 5.0]),
    };
    let fresh = sample();
    let bytes = encode(&fresh);

    decode_into(&bytes, &mut rec).expect("decode_into");
    assert_eq!(rec, fresh);
}

#[test]
fn decode_into_reuses_capacity_after_warmup() {
    let rec = sample();
    let mut buf = Vec::new();
    encode_into(&rec, &mut buf);

    let mut warm = FeatureRecord::default();
    decode_into(&buf, &mut warm).expect("warmup decode");
    let warmed_capacity = warm.features.capacity();
    let warmed_ptr = warm.features.as_ptr();
    assert!(warmed_capacity >= rec.features.len());

    decode_into(&buf, &mut warm).expect("second decode");

    assert_eq!(warm.features.capacity(), warmed_capacity);
    assert_eq!(warm.features.as_ptr(), warmed_ptr);
    assert_eq!(warm, rec);
}

#[test]
fn encode_into_reuses_buffer_capacity_after_warmup() {
    let rec = sample();
    let mut buf = Vec::with_capacity(0);

    encode_into(&rec, &mut buf);
    let warmed_capacity = buf.capacity();
    let warmed_ptr = buf.as_ptr();

    encode_into(&rec, &mut buf);

    assert_eq!(buf.capacity(), warmed_capacity);
    assert_eq!(buf.as_ptr(), warmed_ptr);
}

#[test]
fn decode_rejects_garbage_bytes() {
    let garbage = [0xFFu8; 10];
    assert!(decode(&garbage).is_err());
}

#[test]
fn decode_into_rejects_garbage_bytes() {
    let garbage = [0xFFu8; 10];
    let mut rec = FeatureRecord::default();
    assert!(decode_into(&garbage, &mut rec).is_err());
}

#[test]
fn encode_writes_the_exact_wire_bytes() {
    let expected: Vec<u8> = vec![
        0x08, 0x01, 0x10, 0xfb, 0xcc, 0x89, 0xe3, 0x83, 0x32, 0x1a, 0x10, 0xcd, 0xcc, 0xcc, 0x3d,
        0x00, 0x00, 0xc0, 0x3f, 0x00, 0x00, 0x00, 0xc0, 0x00, 0x00, 0x28, 0x42,
    ];
    let rec = sample();
    assert_eq!(encode(&rec), expected);
    assert_eq!(rec.encoded_len(), expected.len());
}

#[test]
fn encode_into_overwrites_previous_contents() {
    let rec = sample();
    let mut buf = vec![7u8; 100];
    encode_into(&rec, &mut buf);
    assert_eq!(buf, encode(&rec));
}

#[test]
fn default_record_encodes_to_nothing() {
    let rec = FeatureRecord::default();
    assert!(encode(&rec).is_empty());
    assert_eq!(rec.encoded_len(), 0);
    assert_eq!(decode(&[]).expect("empty input"), rec);
}

#[test]
fn negative_event_time_takes_ten_bytes_and_round_trips() {
    let rec = FeatureRecord {
        schema_version: 0,
        event_time_ms: -1,
        features: Vec::new(),
    };
    let bytes = encode(&rec);
    assert_eq!(
        bytes,
        vec![0x10, 0xff, 0xff, 0xff, 0xff, 0xff, 0xff, 0xff, 0xff, 0xff, 0x01]
    );
    assert_eq!(decode(&bytes).expect("decode"), rec);
}

#[test]
fn extreme_values_round_trip_bit_exactly() {
    let rec = FeatureRecord {
        schema_version: u32::MAX,
        event_time_ms: i64::MIN,
        features: vec![f32::NAN.to_bits() | 1, u32::MAX, 0, f32::NEG_INFINITY.to_bits()],
    };
    let decoded = decode(&encode(&rec)).expect("decode");
    assert_eq!(decoded, rec);
}

#[test]
fn decode_skips_unknown_fields() {
    // Field 4 as a varint, field 5 as a length-delimited blob, then field 1.
    let bytes = [0x20, 0x96, 0x01, 0x2a, 0x02, 0xaa, 0xbb, 0x08, 0x05];
    let rec = decode(&bytes).expect("decode");
    assert_eq!(rec.schema_version, 5);
    assert_eq!(rec.event_time_ms, 0);
    assert!(rec.features.is_empty());
}

#[test]
fn decode_keeps_the_last_scalar_and_appends_repeated_values() {
    let bytes = [
        0x08, 0x01, 0x08, 0x02, // schema_version twice
        0x1d, 0x01, 0x00, 0x00, 0x00, // one unpacked feature
        0x1a, 0x04, 0x02, 0x00, 0x00, 0x00, // one packed feature
    ];
    let rec = decode(&bytes).expect("decode");
    assert_eq!(rec.schema_version, 2);
    assert_eq!(rec.features, vec![1, 2]);
}

#[test]
fn decode_accepts_a_non_canonical_varint() {
    let rec = decode(&[0x08, 0x81, 0x00]).expect("decode");
    assert_eq!(rec.schema_version, 1);
}

#[test]
fn decode_truncates_schema_version_to_32_bits() {
    // 2^32 + 3 as a varint.
    let rec = decode(&[0x08, 0x83, 0x80, 0x80, 0x80, 0x10]).expect("decode");
    assert_eq!(rec.schema_version, 3);
}

#[test]
fn decode_rejects_a_wrong_wire_type_for_a_known_field() {
    assert!(decode(&[0x0d, 0x01, 0x00, 0x00, 0x00]).is_err());
}

#[test]
fn decode_rejects_a_packed_length_not_a_multiple_of_four() {
    assert!(decode(&[0x1a, 0x03, 0x01, 0x02, 0x03]).is_err());
}

#[test]
fn decode_rejects_a_truncated_field() {
    assert!(decode(&[0x1a, 0x08, 0x01, 0x02, 0x03, 0x04]).is_err());
    assert!(decode(&[0x10]).is_err());
}

#[test]
fn decode_rejects_tag_zero_and_bad_wire_types() {
    assert!(decode(&[0x00, 0x01]).is_err());
    assert!(decode(&[0x0e]).is_err());
}

#[test]
fn decode_skips_unknown_fixed_width_fields_and_rejects_truncated_ones() {
    // Field 4 as a 64-bit word, field 5 as a 32-bit word, then field 1.
    let bytes = [
        0x21, 1, 2, 3, 4, 5, 6, 7, 8, 0x2d, 1, 2, 3, 4, 0x08, 0x05,
    ];
    assert_eq!(decode(&bytes).expect("decode").schema_version, 5);
    assert!(decode(&[0x21, 0x01, 0x02]).is_err());
    assert!(decode(&[0x2a, 0x05, 0x01]).is_err());
    // An end-group marker with no group open.
    assert!(decode(&[0x24]).is_err());
}

#[test]
fn decode_skips_an_unknown_group_to_its_end_marker() {
    // Field 4 opens a group holding field 5 (varint 1), closes it, then
    // field 1 follows.
    let bytes = [0x23, 0x28, 0x01, 0x24, 0x08, 0x05];
    assert_eq!(decode(&bytes).expect("decode").schema_version, 5);
    // A nested group inside the unknown one is skipped too.
    let nested = [0x23, 0x2b, 0x30, 0x07, 0x2c, 0x24, 0x08, 0x06];
    assert_eq!(decode(&nested).expect("decode").schema_version, 6);
}

#[test]
fn decode_rejects_a_group_closed_by_another_field_or_left_open() {
    // Field 4 opens a group that field 5 closes.
    assert!(decode(&[0x23, 0x2c, 0x08, 0x05]).is_err());
    // Field 4 opens a group that never closes.
    assert!(decode(&[0x23, 0x28, 0x01]).is_err());
}

#[test]
fn decode_error_names_the_field_that_failed() {
    let msg = decode(&[0x08]).expect_err("truncated varint").message();
    assert_eq!(
        msg,
        "failed to decode protobuf message: failed to decode Protobuf message: \
         FeatureRecord.schema_version: invalid varint"
    );
    let msg = decode(&[0x1a, 0x03, 0x01, 0x02, 0x03]).expect_err("ragged packed").message();
    assert!(msg.contains("FeatureRecord.features: "));
    let msg = decode(&[0x15, 0x01, 0x00, 0x00, 0x00]).expect_err("wrong wire type").message();
    assert!(msg.contains("FeatureRecord.event_time_ms: "));
    // A failure while skipping an unknown field names no field.
    let msg = decode(&[0x24]).expect_err("stray end group").message();
    assert_eq!(
        msg,
        "failed to decode protobuf message: failed to decode Protobuf message: \
         unexpected end group tag"
    );
}
