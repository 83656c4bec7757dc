//! Markers, helper tags and introductions in messages.

use matrix_adk_agent::markers::{
    extract_helper_tags, extract_introduction, extract_marker_value, strip_marker,
};

fn value(message: &str, prefix: &str) -> Option<String> {
    extract_marker_value(message, prefix, ']')
}

#[test]
fn a_marker_value_is_trimmed() {
    assert_eq!(value("hi [Task:  t-1 ] there", "[Task:"), Some("t-1".to_string()));
    assert_eq!(value("[Task:ü]", "[Task:"), Some("ü".to_string()));
}

#[test]
fn the_first_marker_counts() {
    assert_eq!(value("[Task: a] [Task: b]", "[Task:"), Some("a".to_string()));
    assert_eq!(value("[Task: ] [Task: b]", "[Task:"), None);
}

#[test]
fn an_absent_open_or_blank_marker_has_no_value() {
    assert_eq!(value("nothing", "[Task:"), None);
    assert_eq!(value("[Task: a", "[Task:"), None);
    assert_eq!(value("[Task:  ]", "[Task:"), None);
    assert_eq!(value("[task: a]", "[Task:"), None);
}

#[test]
fn another_suffix_ends_the_value() {
    assert_eq!(extract_marker_value("<a: b> c]", "<a:", '>'), Some("b".to_string()));
}

#[test]
fn a_completion_marker_is_no_task_marker() {
    assert_eq!(value("[TaskComplete: t]", "[Task:"), None);
    assert_eq!(value("[TaskComplete: t]", "[TaskComplete:"), Some("t".to_string()));
}

#[test]
fn all_markers_are_stripped() {
    assert_eq!(strip_marker("a [Task: 1] b [Task: 2] c", "[Task:"), "a  b  c");
    assert_eq!(strip_marker("[Task:]", "[Task:"), "");
    assert_eq!(strip_marker("plain", "[Task:"), "plain");
    assert_eq!(strip_marker("", "[Task:"), "");
}

#[test]
fn an_open_marker_stays() {
    assert_eq!(strip_marker("a [Task: 1] [Task: 2", "[Task:"), "a  [Task: 2");
}

#[test]
fn stripping_does_not_look_back() {
    assert_eq!(strip_marker("[Ta[Task: 1]sk: 2]", "[Task:"), "[Task: 2]");
}

#[test]
fn a_written_marker_is_read_and_removed() {
    let message = format!("[Task:{}]{}", "t-1", " rest");
    assert_eq!(value(&message, "[Task:"), Some("t-1".to_string()));
    assert_eq!(strip_marker(&message, "[Task:"), " rest");
}

#[test]
fn helper_tags_become_mentions() {
    let (text, names) = extract_helper_tags("ask @[ Bob ] and @[Alice-2], please");
    assert_eq!(text, "ask @Bob and @Alice-2, please");
    assert_eq!(names, ["Bob", "Alice-2"]);
}

#[test]
fn a_blank_helper_tag_vanishes() {
    let (text, names) = extract_helper_tags("a @[ ] b");
    assert_eq!(text, "a  b");
    assert!(names.is_empty());
}

#[test]
fn an_open_helper_tag_stays() {
    let (text, names) = extract_helper_tags("@[a] @[b");
    assert_eq!(text, "@a @[b");
    assert_eq!(names, ["a"]);
}

#[test]
fn untagged_text_is_kept() {
    let (text, names) = extract_helper_tags("mail a@b [c]");
    assert_eq!(text, "mail a@b [c]");
    assert!(names.is_empty());
}

#[test]
fn a_helper_may_be_named_twice() {
    let (text, names) = extract_helper_tags("@[a]@[a]");
    assert_eq!(text, "@a@a");
    assert_eq!(names, ["a", "a"]);
}

#[test]
fn an_introduction_opens_the_message() {
    assert_eq!(extract_introduction("[Introduction]: I cook "), Some("I cook".to_string()));
    assert_eq!(extract_introduction("  [introduction] I cook"), Some("I cook".to_string()));
    assert_eq!(extract_introduction("[Introduction]:::x"), Some("x".to_string()));
    assert_eq!(extract_introduction("[Introduction] : x"), Some(": x".to_string()));
    assert_eq!(extract_introduction("say [Introduction]: x"), None);
    assert_eq!(extract_introduction("[INTRODUCTION]: x"), None);
}

#[test]
fn a_blank_introduction_is_none() {
    assert_eq!(extract_introduction("[Introduction]:  "), None);
    assert_eq!(extract_introduction("[introduction]"), None);
    assert_eq!(extract_introduction(""), None);
}
