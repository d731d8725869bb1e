use stack_outputs::transform::{prefixed_key, transform_keys, with_key};

fn pairs(items: &[(&str, &str)]) -> Vec<(String, String)> {
    items.iter().map(|(k, v)| (k.to_string(), v.to_string())).collect()
}

fn key_of(prefix: &str, key: &str) -> String {
    let renamed = transform_keys(prefix.to_string(), pairs(&[(key, "v")]));
    assert_eq!(renamed.len(), 1);
    assert_eq!(renamed[0].1, "v");
    renamed[0].0.clone()
}

#[test]
fn prefix_is_joined_with_an_underscore() {
    assert_eq!(transform_keys("FOO".to_string(), pairs(&[("bar", "1")])), pairs(&[("FOO_BAR", "1")]));
}

#[test]
fn empty_prefix_adds_nothing() {
    assert_eq!(transform_keys(String::new(), pairs(&[("bar", "1")])), pairs(&[("BAR", "1")]));
}

#[test]
fn camel_case_key_becomes_upper_snake() {
    assert_eq!(key_of("", "myOutputKey"), "MY_OUTPUT_KEY");
}

#[test]
fn kebab_case_key_becomes_upper_snake() {
    assert_eq!(key_of("", "my-output-key"), "MY_OUTPUT_KEY");
}

#[test]
fn snake_case_key_becomes_upper_snake() {
    assert_eq!(key_of("", "already_upper"), "ALREADY_UPPER");
}

#[test]
fn upper_snake_key_stays() {
    assert_eq!(key_of("", "MY_KEY"), "MY_KEY");
}

#[test]
fn spaces_part_words() {
    assert_eq!(key_of("", "My variable NAME"), "MY_VARIABLE_NAME");
}

#[test]
fn digits_part_from_letters() {
    assert_eq!(key_of("", "bucket2Name"), "BUCKET_2_NAME");
    assert_eq!(key_of("", "Port8080"), "PORT_8080");
}

#[test]
fn acronym_parts_before_its_last_capital() {
    assert_eq!(key_of("", "HTTPRequest"), "HTTP_REQUEST");
}

#[test]
fn prefix_is_normalised_with_the_key() {
    assert_eq!(key_of("my-stack", "ApiUrl"), "MY_STACK_API_URL");
    assert_eq!(key_of("app", "Url"), "APP_URL");
}

#[test]
fn empty_key_leaves_the_prefix() {
    assert_eq!(key_of("app", ""), "APP");
    assert_eq!(key_of("", ""), "");
}

#[test]
fn transform_keeps_number_order_and_values() {
    let all = pairs(&[("Url", "http://x"), ("Port", "8080"), ("Url", "it's"), ("dbName", "")]);
    let renamed = transform_keys("App".to_string(), all.clone());
    assert_eq!(
        renamed,
        pairs(&[
            ("APP_URL", "http://x"),
            ("APP_PORT", "8080"),
            ("APP_URL", "it's"),
            ("APP_DB_NAME", ""),
        ])
    );
    assert_eq!(renamed.len(), all.len());
}

#[test]
fn transform_of_nothing_is_nothing() {
    assert_eq!(transform_keys("App".to_string(), Vec::new()), pairs(&[]));
}

#[test]
fn transform_does_not_hand_the_key_back_unchanged() {
    let renamed = transform_keys("Foo".to_string(), pairs(&[("bar", "1")]));
    assert_ne!(renamed[0].0, "Foo_bar");
    assert_ne!(renamed[0].0, "bar");
    assert_eq!(renamed[0].0, "FOO_BAR");
}

#[test]
fn prefixed_key_with_a_prefix() {
    assert_eq!(prefixed_key("FOO", "bar"), "FOO_bar");
    assert_eq!(prefixed_key("my-stack", ""), "my-stack_");
}

#[test]
fn prefixed_key_without_a_prefix() {
    assert_eq!(prefixed_key("", "bar"), "bar");
    assert_eq!(prefixed_key("", ""), "");
}

#[test]
fn with_key_replaces_the_key_only() {
    assert_eq!(
        with_key(("old".to_string(), "value".to_string()), "NEW".to_string()),
        ("NEW".to_string(), "value".to_string())
    );
}
