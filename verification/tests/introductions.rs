//! The introductions that are known, stored, loaded and asked for.

use matrix_adk_agent::introductions::{
    answer_known_introductions, find_user_ids, get_known_introductions, json_text,
    load_introductions, name_matches, persist_introductions, write_entries, FileContents,
    Introductions, KnownIntroductions, StoreError,
};
use serde_json::Value;

fn registry(entries: &[(&str, &str)]) -> Introductions {
    let mut known = Introductions::new();
    for (name, introduction) in entries {
        known.insert(name.to_string(), introduction.to_string());
    }
    known
}

fn pairs(entries: &[(&str, &str)]) -> Vec<(String, String)> {
    entries.iter().map(|(name, text)| (name.to_string(), text.to_string())).collect()
}

fn sample() -> Introductions {
    registry(&[("@Cook:x.org", "I cook"), ("@baker:x.org", "I bake"), ("@cookie:y.org", "crumbs")])
}

#[test]
fn entries_are_listed_in_ascending_order() {
    assert_eq!(
        sample().entries(),
        pairs(&[("@Cook:x.org", "I cook"), ("@baker:x.org", "I bake"), ("@cookie:y.org", "crumbs")])
    );
    assert!(Introductions::new().entries().is_empty());
}

#[test]
fn a_later_introduction_replaces_an_earlier_one() {
    let mut known = sample();
    known.insert("@baker:x.org".to_string(), "I fry".to_string());
    assert_eq!(
        known.entries(),
        pairs(&[("@Cook:x.org", "I cook"), ("@baker:x.org", "I fry"), ("@cookie:y.org", "crumbs")])
    );
}

#[test]
fn names_are_known_exactly() {
    let known = sample();
    assert!(known.contains_name("@Cook:x.org"));
    assert!(!known.contains_name("@cook:x.org"));
}

#[test]
fn helpers_are_found_by_a_part_of_their_id_in_any_case() {
    let known = sample();
    assert_eq!(find_user_ids(&known, " COOK "), ["@Cook:x.org", "@cookie:y.org"]);
    assert_eq!(find_user_ids(&known, "cook"), ["@Cook:x.org", "@cookie:y.org"]);
    assert_eq!(find_user_ids(&known, "@baker:x.org"), ["@baker:x.org"]);
    assert!(find_user_ids(&known, "nobody").is_empty());
}

#[test]
fn a_blank_name_finds_nobody() {
    assert!(find_user_ids(&sample(), "").is_empty());
    assert!(find_user_ids(&sample(), " \t").is_empty());
}

#[test]
fn letters_beyond_ascii_are_lowered_too() {
    let known = registry(&[("@ÄRZTIN:x.org", "I heal")]);
    assert_eq!(find_user_ids(&known, "ärztin"), ["@ÄRZTIN:x.org"]);
    assert!(name_matches("@ärztin:x.org", "ärztin"));
    assert!(!name_matches("@ÄRZTIN:x.org", "ärztin"));
}

#[test]
fn helpers_stay_found() {
    let mut known = sample();
    known.insert("@cool:x.org".to_string(), "hey".to_string());
    assert_eq!(find_user_ids(&known, "coo"), ["@Cook:x.org", "@cookie:y.org", "@cool:x.org"]);
}

#[test]
fn a_missing_file_holds_nothing() {
    let known = load_introductions(&FileContents::Missing).unwrap();
    assert!(known.entries().is_empty());
}

#[test]
fn an_unreadable_file_is_an_error() {
    let error = load_introductions(&FileContents::Unreadable).err().unwrap();
    assert!(matches!(error, StoreError::Unreadable));
    assert_eq!(error.message("a.json"), "failed to read introductions file a.json");
}

#[test]
fn a_malformed_file_is_an_error() {
    for document in ["", "[]", "{\"a\": 1}", "{\"a\": \"b\""] {
        let file = FileContents::Bytes(document.as_bytes().to_vec());
        let error = load_introductions(&file).err().unwrap();
        assert!(matches!(error, StoreError::Malformed(_)));
        assert_eq!(error.message("a.json"), "failed to parse introductions file a.json");
    }
}

#[test]
fn a_failed_write_is_described() {
    let error = serde_json::from_slice::<Value>(b"").err().unwrap();
    let error = StoreError::NotSerializable(error);
    assert_eq!(error.message("a.json"), "failed to serialize known introductions");
}

#[test]
fn a_document_is_loaded() {
    let file = FileContents::Bytes(br#"{"b": "2", "a": "x\ny", "b": "3"}"#.to_vec());
    let known = load_introductions(&file).unwrap();
    assert_eq!(known.entries(), pairs(&[("a", "x\ny"), ("b", "3")]));
}

#[test]
fn what_is_saved_is_loaded() {
    let known = registry(&[("a\"b", "\n\u{0}\\"), ("", ""), ("ü", "\u{1f600}")]);
    let document = persist_introductions(&known).unwrap();
    let loaded = load_introductions(&FileContents::Bytes(document)).unwrap();
    assert_eq!(loaded.entries(), known.entries());
}

#[test]
fn the_saved_document_is_pretty_json() {
    let document = persist_introductions(&registry(&[("@a:x", "hi")])).unwrap();
    assert_eq!(document, b"{\n  \"@a:x\": \"hi\"\n}".to_vec());
    let empty = persist_introductions(&Introductions::new()).unwrap();
    assert_eq!(empty, b"{}".to_vec());
}

#[test]
fn entries_are_put_in_order() {
    let known = Introductions::from_entries(pairs(&[("b", "2"), ("a", "1")]));
    assert_eq!(known.entries(), pairs(&[("a", "1"), ("b", "2")]));
}

fn arguments(name: Option<Value>) -> Value {
    let mut object = serde_json::Map::new();
    object.insert("other".to_string(), Value::from("x"));
    if let Some(name) = name {
        object.insert("name".to_string(), name);
    }
    Value::Object(object)
}

#[test]
fn all_introductions_are_given_where_no_name_is_asked_for() {
    let known = sample();
    let questions = [
        arguments(None),
        arguments(Some(Value::from("  "))),
        arguments(Some(Value::from(7))),
        Value::Null,
        Value::from("name"),
    ];
    for question in questions {
        match get_known_introductions(Some(&known), &question) {
            KnownIntroductions::All { all } => assert_eq!(all, known.entries()),
            _ => panic!("not all introductions"),
        }
    }
}

#[test]
fn matching_introductions_are_given_for_a_name() {
    let known = sample();
    match get_known_introductions(Some(&known), &arguments(Some(Value::from(" Cook ")))) {
        KnownIntroductions::Matching { requested_name, matches, all } => {
            assert_eq!(requested_name, "Cook");
            assert_eq!(
                matches,
                pairs(&[("@Cook:x.org", "I cook"), ("@cookie:y.org", "crumbs")])
            );
            assert_eq!(all, known.entries());
        }
        _ => panic!("no matching introductions"),
    }
}

#[test]
fn a_name_that_nobody_has_matches_none() {
    let known = sample();
    match answer_known_introductions(Some(&known), Some("zoe".to_string())) {
        KnownIntroductions::Matching { requested_name, matches, all } => {
            assert_eq!(requested_name, "zoe");
            assert!(matches.is_empty());
            assert_eq!(all.len(), 3);
        }
        _ => panic!("no matching introductions"),
    }
}

#[test]
fn introductions_may_be_unavailable() {
    match get_known_introductions(None, &arguments(Some(Value::from(" Bob")))) {
        KnownIntroductions::Unavailable { requested } => {
            assert_eq!(requested, Some("Bob".to_string()))
        }
        _ => panic!("available"),
    }
}

fn json(document: &str) -> Value {
    serde_json::from_str(document).unwrap()
}

#[test]
fn answers_are_shown_to_the_model_as_json() {
    let known = registry(&[("@b:x", "I \"bake\""), ("@a:x", "hi")]);
    let all = r#"[{"name": "@a:x", "introduction": "hi"}, {"name": "@b:x", "introduction": "I \"bake\""}]"#;
    assert_eq!(
        answer_known_introductions(Some(&known), None).to_json(),
        json(&format!(r#"{{"all": {all}}}"#))
    );
    assert_eq!(
        answer_known_introductions(Some(&known), Some("B:".to_string())).to_json(),
        json(&format!(
            r#"{{"requested_name": "B:", "matches": [{{"name": "@b:x", "introduction": "I \"bake\""}}], "all": {all}}}"#
        ))
    );
}

#[test]
fn an_unavailable_registry_is_shown_as_an_error() {
    let error = "failed to read introductions registry";
    assert_eq!(
        answer_known_introductions(None, None).to_json(),
        json(&format!(
            r#"{{"requested_name": null, "matches": [], "all": [], "error": "{error}"}}"#
        ))
    );
    assert_eq!(
        answer_known_introductions(None, Some("Bob".to_string())).to_json(),
        json(&format!(
            r#"{{"requested_name": "Bob", "matches": [], "all": [], "error": "{error}"}}"#
        ))
    );
}

#[test]
fn texts_and_entries_are_written_as_json() {
    assert_eq!(json_text("a\nb"), Value::from("a\nb"));
    assert_eq!(write_entries(&Vec::new()), json("[]"));
}
