use tracker::text::{contains, escape, insert_ascending, is_before, join, push_decimal};

fn decimal(n: u64) -> String {
    let mut text = String::new();
    push_decimal(&mut text, n);
    text
}

#[test]
fn decimal_matches_display() {
    for n in [0, 7, 10, 99, 100, 2000006, u64::MAX] {
        assert_eq!(decimal(n), n.to_string());
    }
    let mut text = String::from("v");
    push_decimal(&mut text, 42);
    assert_eq!(text, "v42");
}

#[test]
fn join_matches_slice_join() {
    let none: Vec<String> = vec![];
    assert_eq!(join(&none, ", "), "");
    assert_eq!(join(&vec!["a".to_string()], ", "), "a");
    assert_eq!(join(&vec!["a".to_string(), "".to_string(), "c".to_string()], ", "), "a, , c");
}

#[test]
fn contains_matches_str_contains() {
    let texts = ["", "a", "ab", "aab", "RATE_LIMITED", "xRATE_LIMIT", "RATE-LIMIT", "größe"];
    let patterns = ["", "a", "ab", "RATE_LIMIT", "öß", "aaab"];
    for text in texts {
        for pattern in patterns {
            assert_eq!(contains(text, pattern), text.contains(pattern), "{text:?} {pattern:?}");
        }
    }
}

#[test]
fn is_before_matches_str_order() {
    let texts = ["", "a", "aa", "ab", "b", "stable2407", "stable2407-1", "stable2409", "é", "𝄞", "\u{fffd}"];
    for a in texts {
        for b in texts {
            assert_eq!(is_before(a, b), a < b, "{a:?} {b:?}");
        }
    }
}

#[test]
fn insert_ascending_sorts_and_drops_duplicates() {
    let tags = ["stable2409", "stable2407", "stable2412-1", "stable2407", "stable2412"];
    let mut list: Vec<String> = vec![];
    for tag in tags {
        insert_ascending(&mut list, tag);
    }
    let mut expected: Vec<String> = tags.iter().map(|t| t.to_string()).collect();
    expected.sort();
    expected.dedup();
    assert_eq!(list, expected);
}

#[test]
fn escape_guards_quotes_and_backslashes() {
    assert_eq!(escape("v1002300 (2/3 crates)"), "v1002300 (2/3 crates)");
    assert_eq!(escape(r#"a "b" \c\""#), r#"a \"b\" \\c\\\""#);
    assert_eq!(escape("\n"), "\n");
}

#[test]
fn escape_reads_back_as_json() {
    for text in ["", "plain", r#"a "b""#, r"\", r#"\""#, r#"""""#] {
        let literal = format!("\"{}\"", escape(text));
        let value: serde_json::Value = serde_json::from_str(&literal).unwrap();
        assert_eq!(value.as_str(), Some(text));
    }
}
