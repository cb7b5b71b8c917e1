use cortex_contract::{FeatureSchema, FeatureSpec, SchemaError};

const REFERENCE_NAMES: [&str; 8] = [
    "txn_count_1m",
    "txn_count_5m",
    "txn_count_1h",
    "amount_sum_1m",
    "amount_sum_1h",
    "amount_avg_1h",
    "amount_min_1h",
    "amount_max_1h",
];

/// The reference schema (version 1, eight `f32` features), built in code.
/// Reading the schema file and parsing its TOML happen in the application
/// around this library, which takes the parsed value; these tests start from
/// that value.
fn reference_schema() -> FeatureSchema {
    FeatureSchema {
        version: 1,
        features: REFERENCE_NAMES
            .iter()
            .map(|name| FeatureSpec {
                name: name.to_string(),
                dtype: "f32".to_string(),
            })
            .collect(),
    }
}

// The reference schema, as built above, has the version, width and feature
// order that the schema file declares; the file itself is not read here.
#[test]
fn loads_reference_schema_with_expected_shape() {
    let schema = reference_schema();

    assert_eq!(schema.version, 1);
    assert_eq!(schema.width(), 8);

    let names: Vec<&str> = schema.names();
    assert_eq!(
        names,
        vec![
            "txn_count_1m",
            "txn_count_5m",
            "txn_count_1h",
            "amount_sum_1m",
            "amount_sum_1h",
            "amount_avg_1h",
            "amount_min_1h",
            "amount_max_1h",
        ]
    );
}

#[test]
fn validate_accepts_matching_version_and_width() {
    let schema = reference_schema();
    assert!(schema.validate(1, 8).is_ok());
}

#[test]
fn validate_rejects_version_mismatch() {
    let schema = reference_schema();
    let err = schema.validate(2, 8).unwrap_err();
    assert!(matches!(
        err,
        SchemaError::VersionMismatch {
            expected: 1,
            got: 2
        }
    ));
}

#[test]
fn validate_rejects_width_mismatch() {
    let schema = reference_schema();
    let err = schema.validate(1, 6).unwrap_err();
    assert!(matches!(
        err,
        SchemaError::WidthMismatch {
            expected: 8,
            got: 6
        }
    ));
}

#[test]
fn validate_reports_version_mismatch_before_width_mismatch() {
    let schema = reference_schema();
    let err = schema.validate(2, 6).unwrap_err();
    assert!(matches!(err, SchemaError::VersionMismatch { .. }));
}

#[test]
fn empty_schema_has_no_names_and_width_zero() {
    let schema = FeatureSchema {
        version: 3,
        features: Vec::new(),
    };
    assert_eq!(schema.width(), 0);
    assert!(schema.names().is_empty());
    assert!(schema.validate(3, 0).is_ok());
}
