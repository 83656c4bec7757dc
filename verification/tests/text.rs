//! Trimming, searching, ordering and writing text.

use matrix_adk_agent::text::{
    chars_of, contains_text, decimal_text, find_from, insert_ascending, is_blank, matches_at,
    meaningful_text, same_text, text_order, trim_bounds, trimmed, white_space, TextOrder,
};

#[test]
fn white_space_is_that_of_char() {
    for c in '\0'..=char::MAX {
        assert_eq!(white_space(c), c.is_whitespace(), "{:?}", c);
    }
}

#[test]
fn trimmed_text_has_no_white_space_around_it() {
    assert_eq!(trimmed("  a b\t\n"), "a b");
    assert_eq!(trimmed("a"), "a");
    assert_eq!(trimmed(" \n "), "");
    assert_eq!(trimmed(""), "");
    assert_eq!(trimmed("\u{3000}ä ö\u{a0}"), "ä ö");
}

#[test]
fn trim_bounds_stay_within_the_range() {
    let chars = chars_of("x  a  y");
    assert_eq!(trim_bounds(&chars, 1, 6), (3, 4));
    let (from, to) = trim_bounds(&chars, 1, 3);
    assert_eq!(from, to);
}

#[test]
fn blank_text_is_white_space() {
    assert!(is_blank(""));
    assert!(is_blank(" \t\r\n"));
    assert!(!is_blank(" . "));
}

#[test]
fn only_meaningful_text_is_kept() {
    assert_eq!(meaningful_text(Some(" a ".to_string())), Some("a".to_string()));
    assert_eq!(meaningful_text(Some("  ".to_string())), None);
    assert_eq!(meaningful_text(None), None);
}

#[test]
fn a_pattern_is_found_at_its_first_place() {
    let chars = chars_of("abcabc");
    let pattern = chars_of("bc");
    assert_eq!(find_from(&chars, &pattern, 0), Some(1));
    assert_eq!(find_from(&chars, &pattern, 2), Some(4));
    assert_eq!(find_from(&chars, &pattern, 5), None);
    assert!(matches_at(&chars, &pattern, 4));
    assert!(!matches_at(&chars, &pattern, 5));
    assert!(!matches_at(&chars, &pattern, 0));
}

#[test]
fn text_contains_its_parts() {
    assert!(contains_text("session not found: x", "session not found"));
    assert!(contains_text("abc", ""));
    assert!(contains_text("äöü", "ü"));
    assert!(!contains_text("ab", "abc"));
    assert!(!contains_text("", "a"));
}

#[test]
fn text_is_ordered_as_strings_are() {
    let texts = ["", "a", "ab", "b", "B", "é", "z", "\u{10000}", "\u{ffff}"];
    for a in texts {
        for b in texts {
            match text_order(a, b) {
                TextOrder::Before => assert!(a < b),
                TextOrder::Same => assert!(a == b),
                TextOrder::After => assert!(a > b),
            }
            assert_eq!(same_text(a, b), a == b);
        }
    }
}

#[test]
fn an_ascending_list_stays_ascending() {
    let mut list: Vec<String> = Vec::new();
    for item in ["b", "a", "c", "b", "", "a"] {
        insert_ascending(&mut list, item.to_string());
    }
    assert_eq!(list, ["", "a", "b", "c"]);
}

#[test]
fn numbers_are_written_in_decimal() {
    for n in [0, 1, 9, 10, 42, 100, 18446744073709551615] {
        assert_eq!(decimal_text(n), n.to_string());
    }
}
