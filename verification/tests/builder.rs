use docker_api::opts::VolumeCreateOpts;

#[test]
fn set_string_appears_in_serialized_body() {
    let opts = VolumeCreateOpts::builder().set_string("Name", "x").build();
    let body = opts.serialize().unwrap();
    assert_eq!(body, "{\"Name\":\"x\"}");
    assert!(body.contains("\"Name\""));
    assert!(body.contains("\"x\""));
}

#[test]
fn set_same_field_twice_keeps_last_value() {
    let opts = VolumeCreateOpts::builder()
        .set_string("Name", "first")
        .set_string("Name", "second")
        .build();
    let body = opts.serialize().unwrap();
    assert_eq!(body, "{\"Name\":\"second\"}");
    assert!(!body.contains("first"));
}

#[test]
fn name_and_labels_serialize_in_order() {
    let labels = vec![("com.github".to_string(), "docker_api".to_string())];
    let opts = VolumeCreateOpts::builder()
        .name("test-vol")
        .labels(&labels)
        .build();
    let body = opts.serialize().unwrap();
    assert_eq!(
        body,
        "{\"Name\":\"test-vol\",\"Labels\":{\"com.github\":\"docker_api\"}}"
    );
}

#[test]
fn builder_with_no_fields_serializes_to_empty_object() {
    let opts = VolumeCreateOpts::builder().build();
    assert_eq!(opts.serialize().unwrap(), "{}");
}

#[test]
fn set_bool_serializes_bare_booleans() {
    let opts = VolumeCreateOpts::builder().set_bool("Flag", true).build();
    assert_eq!(opts.serialize().unwrap(), "{\"Flag\":true}");
    let opts = VolumeCreateOpts::builder().set_bool("Flag", false).build();
    assert_eq!(opts.serialize().unwrap(), "{\"Flag\":false}");
}

#[test]
fn serialized_strings_are_escaped_and_reparse() {
    let opts = VolumeCreateOpts::builder()
        .name("a\"b\\c\nd\te\rf")
        .build();
    let body = opts.serialize().unwrap();
    assert_eq!(body, "{\"Name\":\"a\\\"b\\\\c\\nd\\te\\rf\"}");
    let value: serde_json::Value = serde_json::from_str(&body).unwrap();
    assert_eq!(
        value.get("Name").and_then(|v| v.as_str()),
        Some("a\"b\\c\nd\te\rf")
    );
}

#[test]
fn control_characters_serialize_as_unicode_escapes() {
    let raw = "a\u{1}b\u{1f}c\u{0}d\u{b}";
    let opts = VolumeCreateOpts::builder().name(raw).build();
    let body = opts.serialize().unwrap();
    assert_eq!(body, "{\"Name\":\"a\\u0001b\\u001fc\\u0000d\\u000b\"}");
    let value: serde_json::Value = serde_json::from_str(&body).unwrap();
    assert_eq!(value.get("Name").and_then(|v| v.as_str()), Some(raw));
}

#[test]
fn set_map_with_duplicate_keys_keeps_the_last_value() {
    let entries = vec![
        ("a".to_string(), "1".to_string()),
        ("b".to_string(), "x".to_string()),
        ("a".to_string(), "2".to_string()),
    ];
    let opts = VolumeCreateOpts::builder().labels(&entries).build();
    let body = opts.serialize().unwrap();
    assert_eq!(body, "{\"Labels\":{\"b\":\"x\",\"a\":\"2\"}}");
}

#[test]
fn finalized_options_are_independent_of_later_builder_use() {
    let builder = VolumeCreateOpts::builder().name("one");
    let opts = builder.build();
    let body_before = opts.serialize().unwrap();
    let body_after = opts.serialize().unwrap();
    assert_eq!(body_before, "{\"Name\":\"one\"}");
    assert_eq!(body_before, body_after);
}
