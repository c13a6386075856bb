//! Texts, lookups and shapes of JSON.

use teardown::collections::{KeyMap, KeySet};
use teardown::json::{field, string_field, string_of, JsonShape};
use teardown::text::{
    before_first, compare_texts, contains, ends_with, eq_ignoring_ascii_case, is_blank,
    is_white_space, join, part, split_once, starts_with, strip_prefix, strip_suffix, to_decimal,
    to_hexadecimal, trim, trim_prefixes,
};

#[test]
fn texts_are_searched_and_cut() {
    assert!(contains("abcd", "bc"));
    assert!(contains("abcd", ""));
    assert!(!contains("abcd", "cb"));
    assert!(starts_with("abcd", "ab"));
    assert!(ends_with("abcd", "cd"));
    assert!(!ends_with("cd", "abcd"));
    assert_eq!(strip_prefix("failed: x", "failed: "), Some("x".to_string()));
    assert_eq!(strip_prefix("x", "failed: "), None);
    assert_eq!(strip_suffix("a.json", ".json"), Some("a".to_string()));
    assert_eq!(
        split_once("a/b/c", '/'),
        Some(("a".to_string(), "b/c".to_string()))
    );
    assert_eq!(split_once("abc", '/'), None);
    assert_eq!(
        part("widgets.x.io", '.'),
        Some(("widgets".to_string(), "x.io".to_string()))
    );
    assert_eq!(before_first("widgets.x.io", '.'), "widgets");
    assert_eq!(before_first("widgets", '.'), "widgets");
    assert_eq!(join(&vec!["a".to_string(), "b".to_string()], ", "), "a, b");
    assert_eq!(join(&vec![], ", "), "");
}

#[test]
fn numbers_are_written_out() {
    assert_eq!(to_decimal(0), "0");
    assert_eq!(to_decimal(1234567890), "1234567890");
    assert_eq!(to_hexadecimal(0), "0");
    assert_eq!(to_hexadecimal(0xdeadbeef), "deadbeef");
}

#[test]
fn white_space_is_that_of_the_language() {
    for c in '\0'..=char::MAX {
        assert_eq!(is_white_space(c), c.is_whitespace());
    }
    assert_eq!(trim(" \t\u{a0}a b\u{2003}\n"), "a b");
    assert!(is_blank(" \u{3000}\n"));
    assert!(is_blank(""));
    assert!(!is_blank(" x "));
    assert_eq!(trim_prefixes("vvv1", "v"), "1");
}

#[test]
fn case_is_ignored_for_ascii_letters_only() {
    assert!(eq_ignoring_ascii_case("DataScience", "datascience"));
    assert!(!eq_ignoring_ascii_case("É", "é"));
}

#[test]
fn texts_are_ordered_by_their_characters() {
    assert_eq!(compare_texts("a", "a"), 0);
    assert!(compare_texts("a", "b") < 0);
    assert!(compare_texts("ab", "a") > 0);
    assert!(compare_texts("2026-01-02", "2026-01-10") < 0);
    assert!(compare_texts("", "a") < 0);
    let long = "a".repeat(1000000);
    assert_eq!(compare_texts(&long, &long), 0);
    assert!(compare_texts(&long, &format!("{}b", long)) < 0);
}

#[test]
fn a_set_holds_each_key_once() {
    let mut s: KeySet<String> = KeySet::new();
    assert!(s.insert("a".to_string()));
    assert!(!s.insert("a".to_string()));
    assert!(s.insert("b".to_string()));
    assert_eq!(s.len(), 2);
    assert!(s.contains(&"b".to_string()));
    assert_eq!(s.as_vec(), &vec!["a".to_string(), "b".to_string()]);
}

#[test]
fn a_map_holds_the_last_value_of_a_key() {
    let mut m: KeyMap<(String, String), u32> = KeyMap::new();
    let key = ("x.io".to_string(), "Widget".to_string());
    assert!(m.get(&key).is_none());
    m.insert(key.clone(), 1);
    m.insert(key.clone(), 2);
    assert_eq!(m.get(&key), Some(&2));
    assert_eq!(m.as_vec().len(), 1);
}

#[test]
fn fields_are_read_from_objects_only() {
    let shape = Some(JsonShape::Object(vec![
        ("a".to_string(), "\"x\"".to_string()),
        ("b".to_string(), "1".to_string()),
    ]));
    assert_eq!(field(&shape, "b"), Some(&"1".to_string()));
    assert_eq!(string_field(&shape, "a"), Some("x".to_string()));
    assert_eq!(string_field(&shape, "b"), None);
    assert_eq!(field(&shape, "c"), None);
    assert_eq!(field(&Some(JsonShape::Null), "a"), None);
    assert_eq!(field(&None, "a"), None);
    assert_eq!(
        string_of(Some(JsonShape::Text("x".to_string()))),
        Some("x".to_string())
    );
    assert_eq!(string_of(Some(JsonShape::Bool(true))), None);
}
