use smithy4rs_core::assertions::{assert_contains_all, contains};

const KEYS: &[&str] = &["foo", "bar", "baz"];

#[test]
fn test_contains() {
    assert!(contains(KEYS, "bar"));
    assert!(contains(KEYS, "foo"));
    assert!(!contains(KEYS, "quux"));
}

#[test]
fn test_contains_all() {
    assert_contains_all(KEYS, &["foo", "bar", "baz"]);
}
