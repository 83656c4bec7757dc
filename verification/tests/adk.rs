//! The side that faces the model.

use matrix_adk_agent::adk::{
    fetch_response_text, get_configured_instruction, get_configured_introduction,
    introductions_dir, introductions_dir_failure, load_or_create_session, room_session,
    AdkEnvironment, AdkOpenAiAgent, AdkOpenAiAgentConfig, AskEvent, AskState, ResponsePart,
    ResponseText, SessionEvent, SessionState, StreamItem, TextFile, COLLABORATION_PROTOCOL,
    DEFAULT_INSTRUCTION, DEFAULT_INTRODUCTION,
};
use matrix_adk_agent::config::ConfigError;
use matrix_adk_agent::introductions::{load_introductions, FileContents, StoreError};
use matrix_adk_agent::outside::IdentityFault;

type Config = AdkOpenAiAgentConfig<u8, bool>;

fn environment() -> AdkEnvironment {
    AdkEnvironment {
        openai_api_key: Some("key".to_string()),
        open_responses_base_url: None,
        open_responses_model: None,
        introductions_store_file: None,
        introduction_file: None,
        instruction: None,
    }
}

fn config() -> Config {
    Config::default_from_env(environment()).unwrap()
}

fn text(s: &str) -> TextFile {
    TextFile::Text(s.to_string())
}

#[test]
fn the_configuration_has_defaults() {
    let config = config();
    assert_eq!(config.openai_api_key, "key");
    assert_eq!(config.open_responses_base_url, "https://api.openai.com/v1");
    assert_eq!(config.open_responses_model, "gpt-4.1-nano");
    assert_eq!(config.introductions_store_file, ".matrix-store/introductions.json");
    assert_eq!(config.introduction_file, "INTRODUCTION.md");
    assert_eq!(config.instruction_file, "INSTRUCTION.md");
    assert_eq!(config.instruction, None);
    assert_eq!(config.introduction, None);
    assert!(config.tools.is_empty());
    assert_eq!(config.agent, None);
}

#[test]
fn the_environment_goes_before_the_defaults() {
    let config = Config::default_from_env(AdkEnvironment {
        openai_api_key: Some("k".to_string()),
        open_responses_base_url: Some("http://localhost:1234/v1".to_string()),
        open_responses_model: Some("local-model".to_string()),
        introductions_store_file: Some("store/all.json".to_string()),
        introduction_file: Some("texts/me.md".to_string()),
        instruction: Some(" be kind \n".to_string()),
    })
    .unwrap();
    assert_eq!(config.open_responses_base_url, "http://localhost:1234/v1");
    assert_eq!(config.open_responses_model, "local-model");
    assert_eq!(config.introductions_store_file, "store/all.json");
    assert_eq!(config.introduction_file, "texts/me.md");
    assert_eq!(config.instruction, Some("be kind".to_string()));
    let sibling = std::path::Path::new("texts/me.md").with_file_name("INSTRUCTION.md");
    assert_eq!(std::path::Path::new(&config.instruction_file), sibling);
}

#[test]
fn the_instruction_stands_beside_the_introduction() {
    // The directory that the instruction file is put into.
    let files = [
        ("./conf/me.md", "./conf"),
        ("./me.md", "."),
        ("../me.md", ".."),
        ("../conf/me.md", "../conf"),
        ("/me.md", "/"),
        ("conf//me.md", "conf"),
        ("conf/./me.md", "conf"),
        ("conf/.//me.md/", "conf"),
        ("conf/me.md/.", "conf"),
        ("/conf/me.md//", "/conf"),
        ("/./me.md", "/"),
        ("cd:e.md", ""),
        ("conf/c:d.md", "conf"),
        ("me.", ""),
        ("me.md/", ""),
        ("", ""),
        ("/", "/"),
        (".", "."),
        ("./", "./"),
        ("..", ".."),
        ("conf/..", "conf/.."),
        ("conf/../", "conf/../"),
    ];
    for (introduction_file, dir) in files {
        let env = AdkEnvironment {
            introduction_file: Some(introduction_file.to_string()),
            ..environment()
        };
        let expected = if dir.is_empty() || dir.ends_with('/') {
            format!("{dir}INSTRUCTION.md")
        } else {
            format!("{dir}{}INSTRUCTION.md", std::path::MAIN_SEPARATOR)
        };
        assert_eq!(Config::default_from_env(env).unwrap().instruction_file, expected);
    }
}

#[test]
fn a_blank_instruction_counts_as_none() {
    let env = AdkEnvironment { instruction: Some(" \n".to_string()), ..environment() };
    assert_eq!(Config::default_from_env(env).unwrap().instruction, None);
}

#[test]
fn the_api_key_must_be_given() {
    let env = AdkEnvironment { openai_api_key: None, ..environment() };
    let error = Config::default_from_env(env).err().unwrap();
    assert_eq!(error, ConfigError::NoOpenAiApiKey);
    assert_eq!(error.message(), "no OpenAI API Key given by env parameter OPENAI_API_KEY");
}

#[test]
fn the_instruction_file_may_be_given() {
    let config = Config::from_environment(environment(), "other.md".to_string()).unwrap();
    assert_eq!(config.instruction_file, "other.md");
}

#[test]
fn setters_set_one_thing_each() {
    let config = config()
        .with_instruction("do".to_string())
        .with_introduction("hi".to_string())
        .with_tools(vec![1, 2])
        .with_agent(true);
    assert_eq!(config.instruction, Some("do".to_string()));
    assert_eq!(config.introduction, Some("hi".to_string()));
    assert_eq!(config.tools, [1, 2]);
    assert_eq!(config.agent, Some(true));
    assert_eq!(config.openai_api_key, "key");
}

#[test]
fn the_introduction_comes_from_the_caller_the_file_or_nowhere() {
    assert_eq!(get_configured_introduction(&config(), &TextFile::Missing), DEFAULT_INTRODUCTION);
    assert_eq!(
        get_configured_introduction(&config(), &TextFile::Unreadable),
        "Hello! I am an AI assistant. How can I help you today?"
    );
    assert_eq!(get_configured_introduction(&config(), &text(" me\n")), " me\n");
    assert_eq!(get_configured_introduction(&config(), &text("")), "");
    let given = config().with_introduction("hi".to_string());
    assert_eq!(get_configured_introduction(&given, &text("me")), "hi");
}

#[test]
fn the_instruction_comes_from_the_caller_the_file_or_nowhere() {
    assert_eq!(get_configured_instruction(&config(), &TextFile::Missing), DEFAULT_INSTRUCTION);
    assert_eq!(
        get_configured_instruction(&config(), &TextFile::Unreadable),
        "You are a helpful assistant."
    );
    assert_eq!(get_configured_instruction(&config(), &text(" do\n")), " do\n");
    assert_eq!(get_configured_instruction(&config(), &text(" \n")), DEFAULT_INSTRUCTION);
    let given = config().with_instruction("be".to_string());
    assert_eq!(get_configured_instruction(&given, &text("do")), "be");
}

#[test]
fn the_store_directory_is_the_parent_of_the_store_file() {
    assert_eq!(introductions_dir(&config()), Some(".matrix-store".to_string()));
    let mut here = config();
    here.introductions_store_file = "all.json".to_string();
    assert_eq!(introductions_dir(&here), Some(String::new()));
    here.introductions_store_file = String::new();
    assert_eq!(introductions_dir(&here), None);
    here.introductions_store_file = "/all.json".to_string();
    assert_eq!(introductions_dir(&here), Some("/".to_string()));
    let relative = [
        ("./data/all.json", "./data"),
        ("./all.json", "."),
        ("../data/all.json", "../data"),
        ("../all.json", ".."),
        ("a/../b/all.json", "a/../b"),
        ("/a/../all.json", "/a/.."),
        ("data//all.json", "data"),
        ("data///all.json", "data"),
        ("data/./all.json", "data"),
        ("data/././/all.json", "data"),
        ("data/all.json/", "data"),
        ("data/all.json/.", "data"),
        ("data/all.json/./", "data"),
        (".//all.json", "."),
        ("./.", ""),
        (".", ""),
        ("./", ""),
        ("..", ""),
        ("a/..", "a"),
        ("a/.", ""),
        ("./..", "."),
        ("/all.json/", "/"),
        ("/./all.json", "/"),
        ("/..", "/"),
        ("data/c:d.json", "data"),
        ("data./.all.json", "data."),
        ("a/...", "a"),
    ];
    for (path, dir) in relative {
        here.introductions_store_file = path.to_string();
        assert_eq!(introductions_dir(&here), Some(dir.to_string()));
    }
    for path in ["/", "/.", "/./"] {
        here.introductions_store_file = path.to_string();
        assert_eq!(introductions_dir(&here), None);
    }
    assert_eq!(introductions_dir_failure("a/b"), "failed to create introductions dir a/b");
}

fn start(store: &FileContents) -> Result<AdkOpenAiAgent, StoreError> {
    AdkOpenAiAgent::new(config(), &TextFile::Missing, &TextFile::Missing, store)
        .map(|(agent, _)| agent)
}

#[test]
fn the_model_is_set_up_with_the_protocol_and_the_introduction() {
    let store = FileContents::Bytes(br#"{"@a:x": "hi"}"#.to_vec());
    let started = AdkOpenAiAgent::new(config(), &text("Be brief."), &text("I am A."), &store);
    let (agent, setup) = started.ok().unwrap();
    assert_eq!(setup.instruction, format!("Be brief.\n\n{}", COLLABORATION_PROTOCOL));
    assert!(setup.instruction.ends_with("do not use markdown in your answer.\n    "));
    assert_eq!(setup.introduction_reply, "[Introduction]: I am A.");
    assert_eq!(setup.introduce_yourself(), serde_json::Value::from("[Introduction]: I am A."));
    assert!(agent.is_known_helper_user_id("@a:x"));
    assert_eq!(agent.introductions_store_file, ".matrix-store/introductions.json");
    assert_eq!(agent.open_responses_base_url, "https://api.openai.com/v1");
}

#[test]
fn a_bad_store_stops_the_start() {
    let error = start(&FileContents::Unreadable).err().unwrap();
    assert!(matches!(error, StoreError::Unreadable));
    let error = start(&FileContents::Bytes(b"no".to_vec())).err().unwrap();
    assert!(matches!(error, StoreError::Malformed(_)));
}

#[test]
fn an_introduction_is_remembered_and_stored() {
    let mut agent = start(&FileContents::Missing).ok().unwrap();
    assert!(!agent.is_known_helper_user_id("@a:x"));
    let document = agent.remember_introduction("@a:x".to_string(), "hi".to_string()).unwrap();
    assert!(agent.is_known_helper_user_id("@a:x"));
    assert_eq!(agent.find_helper_user_ids_by_name("A:X"), ["@a:x"]);
    let loaded = load_introductions(&FileContents::Bytes(document)).unwrap();
    assert_eq!(loaded.entries(), agent.introductions.entries());
}

#[test]
fn the_model_is_shown_what_was_learned_after_the_start() {
    let mut agent = start(&FileContents::Bytes(br#"{"@a:x": "hi"}"#.to_vec())).ok().unwrap();
    let anyone = serde_json::Value::Null;
    let shown = agent.get_known_introductions(&anyone).to_json();
    assert_eq!(shown["all"].as_array().unwrap().len(), 1);
    agent.remember_introduction("@b:x".to_string(), "I bake".to_string()).unwrap();
    let shown = agent.get_known_introductions(&anyone).to_json();
    let expected = r#"{"all": [{"name": "@a:x", "introduction": "hi"}, {"name": "@b:x", "introduction": "I bake"}]}"#;
    assert_eq!(shown, serde_json::from_str::<serde_json::Value>(expected).unwrap());
    let baker: serde_json::Value = serde_json::from_str(r#"{"name": " B:X "}"#).unwrap();
    let shown = agent.get_known_introductions(&baker).to_json();
    assert_eq!(shown["requested_name"], "B:X");
    assert_eq!(shown["matches"][0]["introduction"], "I bake");
    assert_eq!(shown["all"].as_array().unwrap().len(), 2);
}

#[test]
fn every_room_has_one_session() {
    let session = room_session("!room:x.org").unwrap();
    assert_eq!(session.app_name, "chatbot");
    assert_eq!(session.user_id, "!room:x.org");
    assert_eq!(session.session_id, "room-context");
}

#[test]
fn a_room_needs_an_identifier() {
    let long = "é".repeat(257);
    assert_eq!(room_session("").err(), Some(IdentityFault::Empty));
    assert_eq!(room_session(&long).err(), Some(IdentityFault::TooLong));
    assert_eq!(room_session("a\0b").err(), Some(IdentityFault::ContainsNull));
    assert!(room_session(&"é".repeat(256)).is_ok());
    assert!(room_session(&"\0".repeat(513)).err() == Some(IdentityFault::TooLong));
}

#[test]
fn identity_faults_read_as_their_source_says() {
    let faults = [
        ("", IdentityFault::Empty),
        ("\0", IdentityFault::ContainsNull),
        (&"a".repeat(513), IdentityFault::TooLong),
    ];
    for (id, fault) in faults {
        let error = adk_rust::UserId::new(id).err().unwrap();
        assert_eq!(fault.message("UserId"), error.to_string());
    }
}

#[test]
fn a_question_goes_to_the_room_session() {
    let question = AdkOpenAiAgent::ask("!r:x", "why?".to_string()).unwrap();
    assert_eq!(question.session.user_id, "!r:x");
    assert_eq!(question.role, "user");
    assert_eq!(question.text, "why?");
    assert_eq!(AdkOpenAiAgent::ask("", "why?".to_string()).err(), Some(IdentityFault::Empty));
}

#[test]
fn an_observed_message_goes_to_the_room_session() {
    let observed = AdkOpenAiAgent::record_observed_message("!r:x", "so".to_string()).unwrap();
    assert_eq!(observed.session.app_name, "chatbot");
    assert_eq!(observed.session.user_id, "!r:x");
    assert_eq!(observed.session.session_id, "room-context");
    assert_eq!(observed.invocation_id, "matrix-observed-message");
    assert_eq!(observed.author, "user");
    assert_eq!(observed.role, "user");
    assert_eq!(observed.text, "so");
    let refused = AdkOpenAiAgent::record_observed_message("\0", "so".to_string());
    assert_eq!(refused.err(), Some(IdentityFault::ContainsNull));
}

fn lookup_failed(reason: &str) -> SessionEvent {
    SessionEvent::LookupFailed(reason.to_string())
}

#[test]
fn a_session_that_does_not_exist_is_created() {
    let start = SessionState::LookingUp;
    assert_eq!(load_or_create_session(start, &SessionEvent::Found), SessionState::Ready);
    let creating = load_or_create_session(start, &lookup_failed("x: session not found!"));
    assert_eq!(creating, SessionState::Creating);
    assert_eq!(load_or_create_session(creating, &SessionEvent::Created), SessionState::Ready);
    assert_eq!(
        load_or_create_session(creating, &SessionEvent::CreationFailed),
        SessionState::Failed
    );
}

#[test]
fn any_other_failed_lookup_is_final() {
    let failed = load_or_create_session(SessionState::LookingUp, &lookup_failed("no disk"));
    assert_eq!(failed, SessionState::Failed);
    assert_eq!(load_or_create_session(failed, &SessionEvent::Found), SessionState::Failed);
    let ready = SessionState::Ready;
    assert_eq!(load_or_create_session(ready, &lookup_failed("no disk")), ready);
}

fn item(parts: &[&str]) -> StreamItem {
    let mut list: Vec<ResponsePart> = Vec::new();
    for part in parts {
        list.push(ResponsePart::Text(part.to_string()));
        list.push(ResponsePart::Other);
    }
    StreamItem::Event(Some(list))
}

#[test]
fn the_answer_is_the_text_of_the_stream() {
    let items = vec![
        item(&["a", "", "b"]),
        StreamItem::Failed,
        StreamItem::Event(None),
        item(&[]),
        item(&["c "]),
    ];
    let response = fetch_response_text(&items);
    assert_eq!(response.text, "abc ");
    assert!(response.received_content);
}

#[test]
fn a_stream_without_text_brings_no_content() {
    let response = fetch_response_text(&vec![item(&[""]), StreamItem::Failed]);
    assert_eq!(response.text, "");
    assert!(!response.received_content);
    assert!(!ResponseText::new().received_content);
}

#[test]
fn a_question_is_answered_step_by_step() {
    let events = [
        AskEvent::Started,
        AskEvent::Session(lookup_failed("session not found")),
        AskEvent::Session(SessionEvent::Created),
        AskEvent::Started,
        AskEvent::Item(item(&["4", "2"])),
        AskEvent::Item(StreamItem::Failed),
        AskEvent::Item(item(&["!"])),
        AskEvent::Ended,
    ];
    let mut state = AskState::new();
    for event in &events {
        state = state.step(event);
    }
    match state {
        AskState::Answered(text) => assert_eq!(text, "42!"),
        _ => panic!("not answered"),
    }
}

#[test]
fn a_question_fails_without_a_session_or_a_model() {
    let state = AskState::new().step(&AskEvent::Session(lookup_failed("no disk")));
    assert!(matches!(state, AskState::Failed));
    let state = AskState::new()
        .step(&AskEvent::Session(SessionEvent::Found))
        .step(&AskEvent::NotStarted);
    assert!(matches!(state, AskState::Failed));
    let state = state.step(&AskEvent::Started);
    assert!(matches!(state, AskState::Failed));
}
