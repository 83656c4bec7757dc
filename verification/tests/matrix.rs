//! The side that faces the Matrix server.

use matrix_adk_agent::config::{setting_or, ConfigError};
use matrix_adk_agent::introductions::FileContents;
use matrix_adk_agent::matrix::{
    persist_session, try_restore_session, ConnectEvent, ConnectFailure, ConnectPhase, MatrixAgent,
    MatrixAgentConfig, MatrixEnvironment, RequiredDirectory, RestoreStep,
};
use matrix_sdk::authentication::matrix::MatrixSession;

fn environment() -> MatrixEnvironment {
    MatrixEnvironment {
        homeserver_url: None,
        username: Some("bot".to_string()),
        password: Some("secret".to_string()),
        store_dir: None,
        session_file: None,
        device_display_name: None,
    }
}

fn config() -> MatrixAgentConfig {
    MatrixAgentConfig::default_from_env(environment()).unwrap()
}

#[test]
fn the_connection_has_defaults() {
    let config = config();
    assert_eq!(config.matrix_username, "bot");
    assert_eq!(config.matrix_password, "secret");
    assert_eq!(config.matrix_homeserver_url, "https://matrix.org");
    assert_eq!(config.matrix_store_dir, ".matrix-store");
    assert_eq!(config.matrix_device_display_name, "autojoin bot");
    let session_file = std::path::Path::new(".matrix-store").join("session.json");
    assert_eq!(std::path::Path::new(&config.matrix_session_file), session_file);
}

#[test]
fn the_connection_is_configured_by_the_environment() {
    let config = MatrixAgentConfig::default_from_env(MatrixEnvironment {
        homeserver_url: Some("https://x.org".to_string()),
        store_dir: Some("/var/bot".to_string()),
        session_file: Some("s.json".to_string()),
        device_display_name: Some("bot 2".to_string()),
        ..environment()
    })
    .unwrap();
    assert_eq!(config.matrix_homeserver_url, "https://x.org");
    assert_eq!(config.matrix_store_dir, "/var/bot");
    assert_eq!(config.matrix_session_file, "s.json");
    assert_eq!(config.matrix_device_display_name, "bot 2");
}

#[test]
fn the_session_is_kept_in_the_store() {
    let env = MatrixEnvironment { store_dir: Some("/var/bot".to_string()), ..environment() };
    let config = MatrixAgentConfig::default_from_env(env).unwrap();
    let session_file = std::path::Path::new("/var/bot").join("session.json");
    assert_eq!(std::path::Path::new(&config.matrix_session_file), session_file);
}

#[test]
fn the_session_is_kept_in_any_store() {
    for dir in ["./st", "../st", "..", ".", "st/", "", "a/../b", "a//b", "a/.", "/", "st:1", "a/b:c", "c:/"] {
        let env = MatrixEnvironment { store_dir: Some(dir.to_string()), ..environment() };
        let config = MatrixAgentConfig::default_from_env(env).unwrap();
        let expected = if dir.is_empty() || dir.ends_with('/') {
            format!("{dir}session.json")
        } else {
            format!("{dir}{}session.json", std::path::MAIN_SEPARATOR)
        };
        assert_eq!(config.matrix_session_file, expected);
    }
}

#[test]
fn the_user_name_and_the_password_must_be_given() {
    let neither = MatrixEnvironment { username: None, password: None, ..environment() };
    let error = MatrixAgentConfig::default_from_env(neither).err().unwrap();
    assert_eq!(error, ConfigError::NoMatrixUsername);
    assert_eq!(error.message(), "No MATRIX_USERNAME given as env parameter");
    let no_password = MatrixEnvironment { password: None, ..environment() };
    let error = MatrixAgentConfig::default_from_env(no_password).err().unwrap();
    assert_eq!(error, ConfigError::NoMatrixPassword);
    assert_eq!(error.message(), "No MATRIX_PASSWORD given as env parameter");
}

#[test]
fn the_session_file_may_stand_elsewhere_by_default() {
    let config =
        MatrixAgentConfig::from_environment(environment(), "here.json".to_string()).unwrap();
    assert_eq!(config.matrix_session_file, "here.json");
}

#[test]
fn a_setting_goes_before_its_default() {
    assert_eq!(setting_or(Some("a".to_string()), "b"), "a");
    assert_eq!(setting_or(None, "b"), "b");
}

fn directories(session_file: &str) -> Vec<(String, String)> {
    let mut config = config();
    config.matrix_session_file = session_file.to_string();
    config
        .required_directories()
        .iter()
        .map(|dir| (dir.path().to_string(), dir.failure_message()))
        .collect()
}

#[test]
fn the_session_directory_is_made_before_the_store() {
    let store = (
        ".matrix-store".to_string(),
        "failed to create matrix store dir .matrix-store".to_string(),
    );
    assert_eq!(
        directories("a/b/s.json"),
        [("a/b".to_string(), "failed to create session dir a/b".to_string()), store.clone()]
    );
    assert_eq!(
        directories("s.json"),
        [(String::new(), "failed to create session dir ".to_string()), store.clone()]
    );
    for (session_file, dir) in [("./s.json", "."), ("./a/s.json", "./a"), ("../a/s.json", "../a"), ("../s.json", ".."), ("a//s.json", "a"), ("a/./s.json/", "a")] {
        let session = (dir.to_string(), format!("failed to create session dir {dir}"));
        assert_eq!(directories(session_file), [session, store.clone()]);
    }
    assert_eq!(directories("/"), [store.clone()]);
    assert_eq!(directories(""), [store]);
    assert!(matches!(config().required_directories()[0], RequiredDirectory::Session(_)));
}

const DOCUMENT: &str =
    r#"{"user_id": "@bot:x.org", "device_id": "DEV", "access_token": "t\"1", "extra": 1}"#;

fn session() -> MatrixSession {
    serde_json::from_str(DOCUMENT).unwrap()
}

fn bytes(document: &str) -> FileContents {
    FileContents::Bytes(document.as_bytes().to_vec())
}

fn file(document: &str) -> ConnectEvent {
    ConnectEvent::SessionFile(bytes(document))
}

fn missing() -> ConnectEvent {
    ConnectEvent::SessionFile(FileContents::Missing)
}

fn unreadable() -> ConnectEvent {
    ConnectEvent::SessionFile(FileContents::Unreadable)
}

fn connect(events: Vec<ConnectEvent>) -> ConnectPhase {
    let mut phase = ConnectPhase::new();
    for event in events {
        phase = MatrixAgent::<()>::connect_matrix(phase, event);
    }
    phase
}

#[test]
fn a_session_file_is_read() {
    match try_restore_session(&bytes(DOCUMENT)) {
        RestoreStep::Restore(read) => {
            assert_eq!(read, session());
            assert_eq!(read.meta.user_id.as_str(), "@bot:x.org");
            assert_eq!(read.tokens.access_token, "t\"1");
        }
        _ => panic!("no session"),
    }
    assert!(matches!(try_restore_session(&FileContents::Missing), RestoreStep::NotRestored));
    assert!(matches!(try_restore_session(&FileContents::Unreadable), RestoreStep::Failed));
}

#[test]
fn a_file_without_a_session_is_unparsable() {
    let documents = [
        "",
        "{}",
        r#"{"user_id": "bot", "device_id": "DEV", "access_token": "t"}"#,
        r#"{"user_id": "@bot:x.org", "access_token": "t"}"#,
    ];
    for document in documents {
        match try_restore_session(&bytes(document)) {
            RestoreStep::Unparsable(error) => {
                let cause = serde_json::from_str::<MatrixSession>(document).err().unwrap();
                assert_eq!(error.to_string(), cause.to_string());
            }
            _ => panic!("parsed"),
        }
    }
}

#[test]
fn a_session_is_kept_as_it_is() {
    let refreshed: MatrixSession = serde_json::from_str(
        r#"{"user_id": "@b:x", "device_id": "\u0000\"", "access_token": "", "refresh_token": "r"}"#,
    )
    .unwrap();
    for kept in [session(), refreshed] {
        let document = persist_session(&Some(kept.clone())).unwrap();
        match try_restore_session(&FileContents::Bytes(document)) {
            RestoreStep::Restore(restored) => assert_eq!(restored, kept),
            _ => panic!("no session"),
        }
    }
    assert!(matches!(persist_session(&None), Err(ConnectFailure::NoSession)));
}

#[test]
fn the_kept_document_is_pretty_json() {
    let document = persist_session(&Some(session())).unwrap();
    assert_eq!(
        String::from_utf8(document).unwrap(),
        "{\n  \"user_id\": \"@bot:x.org\",\n  \"device_id\": \"DEV\",\n  \"access_token\": \"t\\\"1\"\n}"
    );
}

#[test]
fn a_kept_session_is_restored() {
    assert!(matches!(connect(vec![]), ConnectPhase::Reading));
    match connect(vec![file(DOCUMENT)]) {
        ConnectPhase::Restoring(restored) => assert_eq!(restored, session()),
        _ => panic!("no session"),
    }
    let restored = || vec![file(DOCUMENT), ConnectEvent::RestoreTried(true)];
    assert!(matches!(connect(restored()), ConnectPhase::Connected));
    let mut later = restored();
    later.push(ConnectEvent::LoginTried(false));
    assert!(matches!(connect(later), ConnectPhase::Connected));
}

#[test]
fn a_session_that_cannot_be_used_leads_to_a_login() {
    assert!(matches!(connect(vec![missing()]), ConnectPhase::LoggingIn { unparsable: None }));
    assert!(matches!(connect(vec![file("no")]), ConnectPhase::LoggingIn { unparsable: Some(_) }));
    assert!(matches!(
        connect(vec![file(DOCUMENT), ConnectEvent::RestoreTried(false)]),
        ConnectPhase::LoggingIn { unparsable: None }
    ));
}

#[test]
fn an_unreadable_session_file_ends_the_connecting() {
    for events in [vec![unreadable()], vec![unreadable(), missing()]] {
        assert!(matches!(
            connect(events),
            ConnectPhase::Failed(ConnectFailure::SessionUnreadable)
        ));
    }
}

#[test]
fn a_new_session_is_kept() {
    let login = || vec![missing(), ConnectEvent::LoginTried(true)];
    assert!(matches!(connect(login()), ConnectPhase::Taking));
    let mut events = login();
    events.push(ConnectEvent::SessionTaken(Some(session())));
    match connect(events) {
        ConnectPhase::Writing(document) => {
            let again = connect(vec![ConnectEvent::SessionFile(FileContents::Bytes(document))]);
            assert!(matches!(again, ConnectPhase::Restoring(restored) if restored == session()));
        }
        _ => panic!("nothing to write"),
    }
    let mut events = login();
    events.push(ConnectEvent::SessionTaken(Some(session())));
    events.push(ConnectEvent::WriteTried(true));
    assert!(matches!(connect(events), ConnectPhase::Connected));
}

#[test]
fn each_failure_of_a_login_is_told_apart() {
    assert!(matches!(
        connect(vec![missing(), ConnectEvent::LoginTried(false)]),
        ConnectPhase::Failed(ConnectFailure::LoginFailed)
    ));
    assert!(matches!(
        connect(vec![
            missing(),
            ConnectEvent::LoginTried(true),
            ConnectEvent::SessionTaken(None),
        ]),
        ConnectPhase::Failed(ConnectFailure::NoSession)
    ));
    assert!(matches!(
        connect(vec![
            missing(),
            ConnectEvent::LoginTried(true),
            ConnectEvent::SessionTaken(Some(session())),
            ConnectEvent::WriteTried(false),
        ]),
        ConnectPhase::Failed(ConnectFailure::SessionNotWritable)
    ));
}

#[test]
fn an_event_out_of_turn_changes_nothing() {
    assert!(matches!(connect(vec![ConnectEvent::LoginTried(true)]), ConnectPhase::Reading));
    assert!(matches!(
        connect(vec![missing(), ConnectEvent::WriteTried(true)]),
        ConnectPhase::LoggingIn { unparsable: None }
    ));
}

#[test]
fn failures_are_described() {
    let path = "s.json";
    assert_eq!(
        ConnectFailure::SessionUnreadable.message(path),
        Some("failed to read matrix session file s.json".to_string())
    );
    assert_eq!(ConnectFailure::LoginFailed.message(path), None);
    assert_eq!(
        ConnectFailure::NoSession.message(path),
        Some("matrix login succeeded but no session is available to persist".to_string())
    );
    let cause = serde_json::from_str::<MatrixSession>("").err().unwrap();
    assert_eq!(
        ConnectFailure::SessionNotSerializable(cause).message(path),
        Some("failed to serialize matrix session".to_string())
    );
    assert_eq!(
        ConnectFailure::SessionNotWritable.message(path),
        Some("failed to write matrix session file s.json".to_string())
    );
}

#[test]
fn the_agent_hands_out_its_client() {
    let agent = MatrixAgent::new(config(), "client".to_string());
    assert_eq!(agent.client(), "client");
    assert_eq!(agent.client, "client");
    assert_eq!(agent.config.matrix_username, "bot");
}
