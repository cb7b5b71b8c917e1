use cortex_contract::keys::{feature_key, update_channel, DEFAULT_KEY_PREFIX};

#[test]
fn feature_key_formats_prefix_and_entity() {
    assert_eq!(feature_key("features", "e1"), "features:e1");
}

#[test]
fn update_channel_formats_prefix_and_entity() {
    assert_eq!(update_channel("features", "e1"), "features:updates:e1");
}

#[test]
fn default_key_prefix_is_features() {
    assert_eq!(DEFAULT_KEY_PREFIX, "features");
}

#[test]
fn feature_key_and_update_channel_use_default_prefix_consistently() {
    let key = feature_key(DEFAULT_KEY_PREFIX, "e1");
    let channel = update_channel(DEFAULT_KEY_PREFIX, "e1");
    assert_eq!(key, "features:e1");
    assert_eq!(channel, "features:updates:e1");
}

#[test]
fn matches_the_documented_examples() {
    assert_eq!(feature_key("features", "e1"), "features:e1");
    assert_eq!(update_channel("features", "e1"), "features:updates:e1");
}

#[test]
fn default_prefix_round_trips_through_both_functions() {
    assert_eq!(feature_key(DEFAULT_KEY_PREFIX, "e1"), "features:e1");
    assert_eq!(
        update_channel(DEFAULT_KEY_PREFIX, "e1"),
        "features:updates:e1"
    );
}

#[test]
fn keys_keep_empty_and_non_ascii_parts() {
    assert_eq!(feature_key("", ""), ":");
    assert_eq!(feature_key("préfixe", "é:1"), "préfixe:é:1");
    assert_eq!(update_channel("p", ""), "p:updates:");
}
