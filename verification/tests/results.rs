use fluentval::text::append_decimal;
use fluentval::text::append_signed_decimal;
use fluentval::text::blank;
use fluentval::text::bytes_in;
use fluentval::text::same_text;
use fluentval::text::white_space;
use fluentval::ValidationError;
use fluentval::ValidationResult;

fn sample() -> ValidationResult {
    let mut result = ValidationResult::new();
    result.add_error(ValidationError::new("b", "b1"));
    result.add_error(ValidationError::new("a", "a1"));
    result.add_error(ValidationError::new("b", "b2"));
    result.add_error(ValidationError::new("c", "c1"));
    result.add_error(ValidationError::new("a", "a2"));
    result.add_error(ValidationError::new("b", "b1"));
    result
}

#[test]
fn errors_keep_the_order_in_which_they_were_added() {
    let result = sample();
    let pairs: Vec<(String, String)> =
        result.errors().iter().map(|e| (e.property.clone(), e.message.clone())).collect();
    let expected: Vec<(String, String)> =
        vec![("b", "b1"), ("a", "a1"), ("b", "b2"), ("c", "c1"), ("a", "a2"), ("b", "b1")]
            .into_iter()
            .map(|(p, m)| (p.to_string(), m.to_string()))
            .collect();
    assert_eq!(pairs, expected);
}

#[test]
fn duplicate_errors_are_kept() {
    let mut result = ValidationResult::new();
    result.add_error(ValidationError::new("name", "bad"));
    result.add_error(ValidationError::new("name", "bad"));
    assert_eq!(result.errors().len(), 2);
    assert_eq!(result.errors()[0], result.errors()[1]);
}

#[test]
fn add_errors_appends_in_order() {
    let mut result = ValidationResult::new();
    result.add_error(ValidationError::new("x", "first"));
    result.add_errors(vec![ValidationError::new("y", "second"), ValidationError::new("x", "third")]);
    result.add_errors(Vec::new());
    let messages: Vec<&str> = result.errors().iter().map(|e| e.message.as_str()).collect();
    assert_eq!(messages, vec!["first", "second", "third"]);
}

#[test]
fn is_valid_exactly_when_there_is_no_error() {
    let mut result = ValidationResult::new();
    assert!(result.is_valid());
    assert!(result.errors().is_empty());
    result.add_errors(Vec::new());
    assert!(result.is_valid());
    result.add_error(ValidationError::new("", ""));
    assert!(!result.is_valid());
}

#[test]
fn groups_stand_in_first_seen_order() {
    let grouped = sample().errors_by_property();
    let fields: Vec<&str> = grouped.groups().iter().map(|g| g.property.as_str()).collect();
    assert_eq!(fields, vec!["b", "a", "c"]);
    assert_eq!(grouped.len(), 3);
    assert!(!grouped.is_empty());
}

#[test]
fn messages_of_a_group_stand_in_append_order() {
    let grouped = sample().errors_by_property();
    assert_eq!(grouped.get("b").unwrap(), &vec!["b1".to_string(), "b2".to_string(), "b1".to_string()]);
    assert_eq!(grouped.get("a").unwrap(), &vec!["a1".to_string(), "a2".to_string()]);
    assert_eq!(grouped.get("c").unwrap(), &vec!["c1".to_string()]);
    assert!(grouped.get("d").is_none());
    assert!(grouped.contains_key("c"));
    assert!(!grouped.contains_key("d"));
    assert!(!grouped.contains_key(""));
}

#[test]
fn flattening_the_groups_gives_back_the_content() {
    let result = sample();
    let grouped = result.errors_by_property();
    let mut flat: Vec<(String, String)> = Vec::new();
    for group in grouped.groups() {
        for message in &group.messages {
            flat.push((group.property.clone(), message.clone()));
        }
    }
    let mut added: Vec<(String, String)> =
        result.errors().iter().map(|e| (e.property.clone(), e.message.clone())).collect();
    assert_eq!(flat.len(), added.len());
    for field in ["a", "b", "c"] {
        let of_flat: Vec<&String> = flat.iter().filter(|e| e.0 == field).map(|e| &e.1).collect();
        let of_added: Vec<&String> =
            added.iter().filter(|e| e.0 == field).map(|e| &e.1).collect();
        assert_eq!(of_flat, of_added);
    }
    flat.sort();
    added.sort();
    assert_eq!(flat, added);
}

#[test]
fn grouping_an_empty_result_gives_no_group() {
    let grouped = ValidationResult::new().errors_by_property();
    assert_eq!(grouped.len(), 0);
    assert!(grouped.is_empty());
    assert!(grouped.groups().is_empty());
    assert!(grouped.get("name").is_none());
}

#[test]
fn first_error_is_the_earliest_of_the_field() {
    let result = sample();
    assert_eq!(result.first_error_for("b"), Some("b1"));
    assert_eq!(result.first_error_for("a"), Some("a1"));
    assert_eq!(result.first_error_for("c"), Some("c1"));
    assert_eq!(result.first_error_for("d"), None);
    assert_eq!(ValidationResult::new().first_error_for("a"), None);
}

#[test]
fn first_error_tells_fields_apart_by_their_whole_name() {
    let mut result = ValidationResult::new();
    result.add_error(ValidationError::new("name2", "longer"));
    result.add_error(ValidationError::new("nam", "shorter"));
    result.add_error(ValidationError::new("name", "exact"));
    assert_eq!(result.first_error_for("name"), Some("exact"));
    assert_eq!(result.first_error_for("na"), None);
}

#[test]
fn errors_compare_by_field_and_message() {
    assert_eq!(ValidationError::new("a", "m"), ValidationError::new("a".to_string(), "m"));
    assert_ne!(ValidationError::new("a", "m"), ValidationError::new("a", "n"));
    assert_ne!(ValidationError::new("a", "m"), ValidationError::new("b", "m"));
}

#[test]
fn results_compare_by_their_errors_in_order() {
    let mut one = ValidationResult::new();
    let mut other = ValidationResult::new();
    assert_eq!(one, other);
    one.add_error(ValidationError::new("a", "1"));
    assert_ne!(one, other);
    other.add_error(ValidationError::new("a", "1"));
    assert_eq!(one, other);
    one.add_error(ValidationError::new("a", "2"));
    one.add_error(ValidationError::new("b", "3"));
    other.add_error(ValidationError::new("b", "3"));
    other.add_error(ValidationError::new("a", "2"));
    assert_ne!(one, other);
}

#[test]
fn an_error_reads_as_field_colon_message() {
    assert_eq!(ValidationError::new("age", "must be greater than 18").to_string(), "age: must be greater than 18");
    assert_eq!(ValidationError::new("", "").to_string(), ": ");
}

#[test]
fn white_space_is_what_the_standard_library_calls_white_space() {
    let mut code: u32 = 0;
    while code <= 0x10FFFF {
        if let Some(c) = char::from_u32(code) {
            assert_eq!(white_space(c), c.is_whitespace(), "U+{:04X}", code);
        }
        code += 1;
    }
}

#[test]
fn blank_agrees_with_trimming() {
    for text in ["", " ", "   ", "\t\n\r", "\u{2003}\u{00A0}\u{3000}", "a", " a ", "\u{200B}", " \u{FEFF}", "  x", "x  "] {
        assert_eq!(blank(text), text.trim().is_empty(), "{:?}", text);
    }
}

#[test]
fn bytes_in_counts_bytes_not_characters() {
    assert_eq!(bytes_in(""), 0);
    assert_eq!(bytes_in("abc"), 3);
    assert_eq!(bytes_in("é"), 2);
    assert_eq!(bytes_in("日本語"), 9);
    assert_eq!(bytes_in("  a  "), 5);
}

#[test]
fn same_text_compares_every_character() {
    assert!(same_text("", ""));
    assert!(same_text("name", "name"));
    assert!(!same_text("name", "Name"));
    assert!(!same_text("name", "names"));
    assert!(!same_text("é", "e"));
}

#[test]
fn decimal_digits_are_those_of_the_standard_formatting() {
    for n in [0u64, 1, 9, 10, 11, 99, 100, 101, 12345, 1_000_000, u64::MAX - 1, u64::MAX] {
        let mut out = String::from("n=");
        append_decimal(&mut out, n);
        assert_eq!(out, format!("n={}", n));
    }
    for n in [0i64, 1, -1, 9, -9, 10, -10, 18, -5, 120, i64::MAX, i64::MIN, i64::MIN + 1] {
        let mut out = String::new();
        append_signed_decimal(&mut out, n);
        assert_eq!(out, format!("{}", n));
    }
}
