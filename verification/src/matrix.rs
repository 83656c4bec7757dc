//! The side of the assistant that faces the Matrix server: its configuration,
//! and how it comes to be logged in.

use crate::config;
use crate::config::{setting_or, ConfigError};
use crate::introductions::FileContents;
use crate::outside;
use crate::outside::{parent_path, parse_session, path_in, render_session};
use crate::text;
use matrix_sdk::authentication::matrix::MatrixSession;
use vstd::prelude::*;

verus! {

/// The environment variables that configure the connection.
pub struct MatrixEnvironment {
    /// `MATRIX_HOMESERVER_URL`.
    pub homeserver_url: Option<String>,
    /// `MATRIX_USERNAME`.
    pub username: Option<String>,
    /// `MATRIX_PASSWORD`.
    pub password: Option<String>,
    /// `MATRIX_STORE_DIR`.
    pub store_dir: Option<String>,
    /// `MATRIX_SESSION_FILE`.
    pub session_file: Option<String>,
    /// `MATRIX_DEVICE_DISPLAY_NAME`.
    pub device_display_name: Option<String>,
}

/// The configuration of the connection.
#[derive(Clone)]
pub struct MatrixAgentConfig {
    /// The user to log in as.
    pub matrix_username: String,
    /// The user's password.
    pub matrix_password: String,
    /// The server.
    pub matrix_homeserver_url: String,
    /// Where the client keeps its state.
    pub matrix_store_dir: String,
    /// Where the session is kept.
    pub matrix_session_file: String,
    /// How the device is shown.
    pub matrix_device_display_name: String,
}

/// A directory that has to exist before the client is built.
pub enum RequiredDirectory {
    /// The one of the session file.
    Session(String),
    /// The one of the client's state.
    Store(String),
}

impl RequiredDirectory {
    /// What is said where the directory cannot be made.
    pub open spec fn describes_failure(self) -> Seq<char> {
        match self {
            RequiredDirectory::Session(path) => "failed to create session dir "@ + path@,
            RequiredDirectory::Store(path) => "failed to create matrix store dir "@ + path@,
        }
    }

    /// Where the directory is.
    pub fn path(&self) -> (path: &str)
        ensures
            path@ == match *self {
                RequiredDirectory::Session(path) => path@,
                RequiredDirectory::Store(path) => path@,
            },
    {
        match self {
            RequiredDirectory::Session(path) => path.as_str(),
            RequiredDirectory::Store(path) => path.as_str(),
        }
    }

    /// Describes that the directory could not be made.
    pub fn failure_message(&self) -> (message: String)
        ensures
            message@ == self.describes_failure(),
    {
        match self {
            RequiredDirectory::Session(path) => "failed to create session dir ".to_owned().concat(
                path.as_str(),
            ),
            RequiredDirectory::Store(path) =>
                "failed to create matrix store dir ".to_owned().concat(path.as_str()),
        }
    }
}

impl MatrixAgentConfig {
    /// The configuration says what the environment says, and keeps the session
    /// at `default_session_file` where the environment does not say where.
    pub open spec fn is_from(
        self,
        env: MatrixEnvironment,
        default_session_file: Seq<char>,
    ) -> bool {
        &&& env.username matches Some(username) && self.matrix_username@ == username@
        &&& env.password matches Some(password) && self.matrix_password@ == password@
        &&& self.matrix_homeserver_url@ == config::setting(
            env.homeserver_url,
            "https://matrix.org"@,
        )
        &&& self.matrix_store_dir@ == config::setting(env.store_dir, ".matrix-store"@)
        &&& self.matrix_session_file@ == config::setting(env.session_file, default_session_file)
        &&& self.matrix_device_display_name@ == config::setting(
            env.device_display_name,
            "autojoin bot"@,
        )
    }

    /// What the environment lacks, the user name being asked for first.
    pub open spec fn missing_setting(env: MatrixEnvironment) -> Option<ConfigError> {
        if env.username is None {
            Some(ConfigError::NoMatrixUsername)
        } else if env.password is None {
            Some(ConfigError::NoMatrixPassword)
        } else {
            None
        }
    }

    /// Reads the configuration from the environment. The session is kept in the
    /// store directory unless the environment says where.
    pub fn default_from_env(env: MatrixEnvironment) -> (config: Result<Self, ConfigError>)
        ensures
            match config {
                Ok(config) => {
                    &&& Self::missing_setting(env) is None
                    &&& config.is_from(env, config.matrix_session_file@)
                    &&& env.session_file is None ==> outside::is_path_in(
                        config.matrix_session_file@,
                        config.matrix_store_dir@,
                        "session.json"@,
                    )
                },
                Err(error) => Self::missing_setting(env) == Some(error),
            },
    {
        let store_dir = match &env.store_dir {
            Some(dir) => dir.as_str(),
            None => ".matrix-store",
        };
        assert(outside::is_file_name("session.json"@)) by {
            reveal_strlit("session.json");
            reveal_strlit(".");
            reveal_strlit("..");
            let name = "session.json"@;
            assert(name.len() == 12 && "."@.len() == 1 && ".."@.len() == 2);
            assert(!name.contains('/') && !name.contains('\\') && !name.contains(':'));
        }
        let default_session_file = path_in(store_dir, "session.json");
        Self::from_environment(env, default_session_file)
    }

    /// Reads the configuration from the environment. The session is kept at
    /// `default_session_file` unless the environment says where.
    pub fn from_environment(env: MatrixEnvironment, default_session_file: String) -> (config:
        Result<Self, ConfigError>)
        ensures
            match config {
                Ok(config) => Self::missing_setting(env) is None && config.is_from(
                    env,
                    default_session_file@,
                ),
                Err(error) => Self::missing_setting(env) == Some(error),
            },
    {
        let matrix_username = match env.username {
            Some(username) => username,
            None => {
                return Err(ConfigError::NoMatrixUsername);
            },
        };
        let matrix_password = match env.password {
            Some(password) => password,
            None => {
                return Err(ConfigError::NoMatrixPassword);
            },
        };
        Ok(
            MatrixAgentConfig {
                matrix_username,
                matrix_password,
                matrix_homeserver_url: setting_or(env.homeserver_url, "https://matrix.org"),
                matrix_store_dir: setting_or(env.store_dir, ".matrix-store"),
                matrix_session_file: setting_or(env.session_file, default_session_file.as_str()),
                matrix_device_display_name: setting_or(env.device_display_name, "autojoin bot"),
            },
        )
    }

    /// The directories that have to exist, in the order in which they are made:
    /// the one of the session file, if its path names one, and the store.
    pub fn required_directories(&self) -> (dirs: Vec<RequiredDirectory>)
        ensures
            dirs@.len() == 1 || dirs@.len() == 2,
            dirs@.last() == RequiredDirectory::Store(self.matrix_store_dir),
            match dirs@[0] {
                RequiredDirectory::Session(dir) => dirs@.len() == 2 && outside::is_parent(
                    Some(dir@),
                    self.matrix_session_file@,
                ),
                RequiredDirectory::Store(_) => dirs@.len() == 1 && outside::is_parent(
                    None,
                    self.matrix_session_file@,
                ),
            },
    {
        let mut dirs: Vec<RequiredDirectory> = Vec::new();
        if let Some(dir) = parent_path(self.matrix_session_file.as_str()) {
            dirs.push(RequiredDirectory::Session(dir));
        }
        dirs.push(RequiredDirectory::Store(self.matrix_store_dir.clone()));
        dirs
    }
}

/// What follows the reading of the session file.
pub enum RestoreStep {
    /// The session that was kept is handed to the client.
    Restore(MatrixSession),
    /// The file does not hold a session, for the reason given.
    Unparsable(serde_json::Error),
    /// No session was kept.
    NotRestored,
    /// The file could not be read.
    Failed,
}

/// How far the connecting is.
pub enum ConnectPhase {
    /// The session file is being read.
    Reading,
    /// The kept session is being handed to the client.
    Restoring(MatrixSession),
    /// The assistant is logging in.
    LoggingIn {
        /// Why the session file could not be used, where it was there and did not
        /// hold a session.
        unparsable: Option<serde_json::Error>,
    },
    /// The client is being asked for its new session.
    Taking,
    /// The document of the new session is being written to the session file.
    Writing(Vec<u8>),
    /// The assistant is connected.
    Connected,
    /// It is not.
    Failed(ConnectFailure),
}

/// What happened while connecting.
pub enum ConnectEvent {
    /// The session file was read.
    SessionFile(FileContents),
    /// The client was given the kept session, and took it or not.
    RestoreTried(bool),
    /// The login was tried, and succeeded or not.
    LoginTried(bool),
    /// The client was asked for its session.
    SessionTaken(Option<MatrixSession>),
    /// The session file was written, or could not be.
    WriteTried(bool),
}

/// Why there is no connection.
#[derive(Debug)]
pub enum ConnectFailure {
    /// The session file could not be read.
    SessionUnreadable,
    /// The login failed.
    LoginFailed,
    /// The client had no session after the login.
    NoSession,
    /// The session could not be written as a document.
    SessionNotSerializable(serde_json::Error),
    /// The session file could not be written.
    SessionNotWritable,
}

/// `next` follows `event` in the connecting: the kept session if it can be
/// restored, and otherwise a login whose session is kept. A missing file, and one
/// whose session cannot be used, only mean that there is no session. An event
/// that the connecting does not wait for changes nothing.
pub open spec fn leads_to(phase: ConnectPhase, event: ConnectEvent, next: ConnectPhase) -> bool {
    match (phase, event) {
        (ConnectPhase::Reading, ConnectEvent::SessionFile(FileContents::Missing)) => next == (
        ConnectPhase::LoggingIn { unparsable: None }),
        (ConnectPhase::Reading, ConnectEvent::SessionFile(FileContents::Unreadable)) => next
            == ConnectPhase::Failed(ConnectFailure::SessionUnreadable),
        (
            ConnectPhase::Reading,
            ConnectEvent::SessionFile(FileContents::Bytes(document)),
        ) => match outside::document_session(document@) {
            Some(session) => next == ConnectPhase::Restoring(session),
            None => next is LoggingIn && next->unparsable is Some,
        },
        (ConnectPhase::Restoring(_), ConnectEvent::RestoreTried(restored)) => next == (
        if restored {
            ConnectPhase::Connected
        } else {
            ConnectPhase::LoggingIn { unparsable: None }
        }),
        (ConnectPhase::LoggingIn { .. }, ConnectEvent::LoginTried(logged_in)) => next == (
        if logged_in {
            ConnectPhase::Taking
        } else {
            ConnectPhase::Failed(ConnectFailure::LoginFailed)
        }),
        (ConnectPhase::Taking, ConnectEvent::SessionTaken(Some(session))) => next is Writing
            && outside::document_session(next->Writing_0@) == Some(session),
        (ConnectPhase::Taking, ConnectEvent::SessionTaken(None)) => next == ConnectPhase::Failed(
            ConnectFailure::NoSession,
        ),
        (ConnectPhase::Writing(_), ConnectEvent::WriteTried(written)) => next == (if written {
            ConnectPhase::Connected
        } else {
            ConnectPhase::Failed(ConnectFailure::SessionNotWritable)
        }),
        (phase, _) => next == phase,
    }
}

/// Reads the session that was kept, if one was.
pub fn try_restore_session(file: &FileContents) -> (step: RestoreStep)
    ensures
        match *file {
            FileContents::Missing => step is NotRestored,
            FileContents::Unreadable => step is Failed,
            FileContents::Bytes(document) => match outside::document_session(document@) {
                Some(session) => step == RestoreStep::Restore(session),
                None => step is Unparsable,
            },
        },
{
    match file {
        FileContents::Missing => RestoreStep::NotRestored,
        FileContents::Unreadable => RestoreStep::Failed,
        FileContents::Bytes(document) => match parse_session(document.as_slice()) {
            Ok(session) => RestoreStep::Restore(session),
            Err(error) => RestoreStep::Unparsable(error),
        },
    }
}

/// Writes the client's session as a document for the session file.
pub fn persist_session(session: &Option<MatrixSession>) -> (document: Result<
    Vec<u8>,
    ConnectFailure,
>)
    ensures
        match *session {
            Some(session) => document is Ok && outside::document_session(document->Ok_0@) == Some(
                session,
            ),
            None => document == Err::<Vec<u8>, ConnectFailure>(ConnectFailure::NoSession),
        },
{
    match session {
        Some(session) => match render_session(session) {
            Ok(document) => Ok(document),
            Err(error) => Err(ConnectFailure::SessionNotSerializable(error)),
        },
        None => Err(ConnectFailure::NoSession),
    }
}

impl ConnectPhase {
    /// The beginning.
    pub fn new() -> (phase: Self)
        ensures
            phase == ConnectPhase::Reading,
    {
        ConnectPhase::Reading
    }

    /// There is a connection, or there will be none.
    pub open spec fn settled(self) -> bool {
        self is Connected || self is Failed
    }

    /// The connecting waits for `event`.
    pub open spec fn awaits(self, event: ConnectEvent) -> bool {
        match self {
            ConnectPhase::Reading => event is SessionFile,
            ConnectPhase::Restoring(_) => event is RestoreTried,
            ConnectPhase::LoggingIn { .. } => event is LoginTried,
            ConnectPhase::Taking => event is SessionTaken,
            ConnectPhase::Writing(_) => event is WriteTried,
            _ => false,
        }
    }

    /// How many steps are left at most.
    pub open spec fn steps_left(self) -> nat {
        match self {
            ConnectPhase::Reading => 5,
            ConnectPhase::Restoring(_) => 4,
            ConnectPhase::LoggingIn { .. } => 3,
            ConnectPhase::Taking => 2,
            ConnectPhase::Writing(_) => 1,
            _ => 0,
        }
    }
}

impl ConnectFailure {
    /// What is said of the failure, beside the error behind it, where the session
    /// file is at `path`. A failed login speaks for itself.
    pub open spec fn describes(self, path: Seq<char>) -> Option<Seq<char>> {
        match self {
            ConnectFailure::SessionUnreadable => Some(
                "failed to read matrix session file "@ + path,
            ),
            ConnectFailure::LoginFailed => None,
            ConnectFailure::NoSession => Some(
                "matrix login succeeded but no session is available to persist"@,
            ),
            ConnectFailure::SessionNotSerializable(_) => Some(
                "failed to serialize matrix session"@,
            ),
            ConnectFailure::SessionNotWritable => Some(
                "failed to write matrix session file "@ + path,
            ),
        }
    }

    /// Describes the failure where the session file is at `path`.
    pub fn message(&self, path: &str) -> (message: Option<String>)
        ensures
            text::optional_text(message) == self.describes(path@),
    {
        match self {
            ConnectFailure::SessionUnreadable => Some(
                "failed to read matrix session file ".to_owned().concat(path),
            ),
            ConnectFailure::LoginFailed => None,
            ConnectFailure::NoSession => Some(
                "matrix login succeeded but no session is available to persist".to_owned(),
            ),
            ConnectFailure::SessionNotSerializable(_) => Some(
                "failed to serialize matrix session".to_owned(),
            ),
            ConnectFailure::SessionNotWritable => Some(
                "failed to write matrix session file ".to_owned().concat(path),
            ),
        }
    }
}

/// The assistant as the Matrix server knows it, with a client `C`.
#[derive(Clone)]
pub struct MatrixAgent<C> {
    /// The configuration.
    pub config: MatrixAgentConfig,
    /// The client.
    pub client: C,
}

impl<C> MatrixAgent<C> {
    /// Puts the configuration and the client that was built for it together.
    pub fn new(config: MatrixAgentConfig, client: C) -> (agent: Self)
        ensures
            agent.config == config,
            agent.client == client,
    {
        MatrixAgent { config, client }
    }

    /// Goes on with the connecting.
    pub fn connect_matrix(phase: ConnectPhase, event: ConnectEvent) -> (next: ConnectPhase)
        ensures
            leads_to(phase, event, next),
    {
        match (phase, event) {
            (ConnectPhase::Reading, ConnectEvent::SessionFile(file)) => match try_restore_session(
                &file,
            ) {
                RestoreStep::Restore(session) => ConnectPhase::Restoring(session),
                RestoreStep::Unparsable(error) => ConnectPhase::LoggingIn {
                    unparsable: Some(error),
                },
                RestoreStep::NotRestored => ConnectPhase::LoggingIn { unparsable: None },
                RestoreStep::Failed => ConnectPhase::Failed(ConnectFailure::SessionUnreadable),
            },
            (ConnectPhase::Restoring(_), ConnectEvent::RestoreTried(restored)) => if restored {
                ConnectPhase::Connected
            } else {
                ConnectPhase::LoggingIn { unparsable: None }
            },
            (ConnectPhase::LoggingIn { .. }, ConnectEvent::LoginTried(logged_in)) => if logged_in {
                ConnectPhase::Taking
            } else {
                ConnectPhase::Failed(ConnectFailure::LoginFailed)
            },
            (ConnectPhase::Taking, ConnectEvent::SessionTaken(session)) => match persist_session(
                &session,
            ) {
                Ok(document) => ConnectPhase::Writing(document),
                Err(failure) => ConnectPhase::Failed(failure),
            },
            (ConnectPhase::Writing(_), ConnectEvent::WriteTried(written)) => if written {
                ConnectPhase::Connected
            } else {
                ConnectPhase::Failed(ConnectFailure::SessionNotWritable)
            },
            (phase, _) => phase,
        }
    }
}

impl<C: Clone> MatrixAgent<C> {
    /// A clone of the client.
    pub fn client(&self) -> (client: C)
        ensures
            cloned(self.client, client),
    {
        self.client.clone()
    }
}

/// The connecting comes to an end: every event that it waits for brings it
/// closer, and what is settled stays.
pub proof fn law_connecting_ends(phase: ConnectPhase, event: ConnectEvent, next: ConnectPhase)
    requires
        leads_to(phase, event, next),
    ensures
        phase.awaits(event) ==> next.steps_left() < phase.steps_left(),
        !phase.awaits(event) ==> next == phase,
        phase.settled() ==> next == phase,
        phase.settled() <==> phase.steps_left() == 0,
{
}

/// A kept session never stands in the way of a login: until the login is tried,
/// only a session file that is there and cannot be read ends the connecting.
pub proof fn law_only_unreadable_session_stops(
    phase: ConnectPhase,
    event: ConnectEvent,
    next: ConnectPhase,
)
    requires
        leads_to(phase, event, next),
        phase is Reading || phase is Restoring,
        next is Failed,
    ensures
        phase is Reading,
        event == ConnectEvent::SessionFile(FileContents::Unreadable),
        next == ConnectPhase::Failed(ConnectFailure::SessionUnreadable),
{
}

/// The assistant is connected only after a session was restored or a new one was
/// kept.
pub proof fn law_connected_with_session(
    phase: ConnectPhase,
    event: ConnectEvent,
    next: ConnectPhase,
)
    requires
        leads_to(phase, event, next),
        !(phase is Connected),
        next is Connected,
    ensures
        (phase is Restoring && event == ConnectEvent::RestoreTried(true)) || (phase is Writing
            && event == ConnectEvent::WriteTried(true)),
{
}

/// The session that is kept is the one that is restored: where the document of a
/// client's session is written to the session file, the next start hands that
/// session to its client.
pub proof fn law_kept_session_is_restored(
    session: MatrixSession,
    document: Vec<u8>,
    next: ConnectPhase,
)
    requires
        leads_to(
            ConnectPhase::Taking,
            ConnectEvent::SessionTaken(Some(session)),
            ConnectPhase::Writing(document),
        ),
        leads_to(
            ConnectPhase::Reading,
            ConnectEvent::SessionFile(FileContents::Bytes(document)),
            next,
        ),
    ensures
        next == ConnectPhase::Restoring(session),
{
}

/// Every outcome has one consequence. No session file, and one without a session,
/// lead to the login, and so does a session that the client does not take. A
/// session in the file is handed to the client as it is. After the login the new
/// session is taken and written, and then the assistant is connected.
pub proof fn law_outcomes_have_their_consequences(
    phase: ConnectPhase,
    event: ConnectEvent,
    next: ConnectPhase,
)
    requires
        leads_to(phase, event, next),
    ensures
        phase is Reading && event == ConnectEvent::SessionFile(FileContents::Missing)
            ==> next is LoggingIn && next->unparsable is None,
        phase is Reading && event == ConnectEvent::SessionFile(FileContents::Unreadable)
            ==> next == ConnectPhase::Failed(ConnectFailure::SessionUnreadable),
        phase is Reading && event is SessionFile && event->SessionFile_0 is Bytes ==> (
        match outside::document_session(event->SessionFile_0->Bytes_0@) {
            Some(session) => next == ConnectPhase::Restoring(session),
            None => next is LoggingIn && next->unparsable is Some,
        }),
        phase is Restoring && event == ConnectEvent::RestoreTried(true) ==> next is Connected,
        phase is Restoring && event == ConnectEvent::RestoreTried(false) ==> next is LoggingIn
            && next->unparsable is None,
        phase is LoggingIn && event == ConnectEvent::LoginTried(true) ==> next is Taking,
        phase is LoggingIn && event == ConnectEvent::LoginTried(false) ==> next
            == ConnectPhase::Failed(ConnectFailure::LoginFailed),
        phase is Taking && event == ConnectEvent::SessionTaken(None) ==> next
            == ConnectPhase::Failed(ConnectFailure::NoSession),
        phase is Taking && event is SessionTaken && event->SessionTaken_0 is Some ==> next
            is Writing && outside::document_session(next->Writing_0@) == event->SessionTaken_0,
        phase is Writing && event == ConnectEvent::WriteTried(true) ==> next is Connected,
        phase is Writing && event == ConnectEvent::WriteTried(false) ==> next
            == ConnectPhase::Failed(ConnectFailure::SessionNotWritable),
{
}

/// No step is skipped: a session is restored only from the file, and a new one is
/// taken only after a login and written only after it was taken.
pub proof fn law_no_step_is_skipped(phase: ConnectPhase, event: ConnectEvent, next: ConnectPhase)
    requires
        leads_to(phase, event, next),
        next != phase,
    ensures
        next is Restoring ==> phase is Reading && event is SessionFile,
        next is LoggingIn ==> phase is Reading || phase is Restoring,
        next is Taking ==> phase is LoggingIn && event == ConnectEvent::LoginTried(true),
        next is Writing ==> phase is Taking && event is SessionTaken,
        !(next is Reading),
{
}

/// What the environment gives is taken as it is, and what it does not give has a
/// fixed default.
pub proof fn law_environment_is_taken(
    config: MatrixAgentConfig,
    env: MatrixEnvironment,
    default_session_file: Seq<char>,
)
    requires
        config.is_from(env, default_session_file),
    ensures
        env.username is Some && config.matrix_username@ == env.username->Some_0@,
        env.password is Some && config.matrix_password@ == env.password->Some_0@,
        config.matrix_homeserver_url@ == match env.homeserver_url {
            Some(url) => url@,
            None => "https://matrix.org"@,
        },
        config.matrix_store_dir@ == match env.store_dir {
            Some(dir) => dir@,
            None => ".matrix-store"@,
        },
        config.matrix_session_file@ == match env.session_file {
            Some(path) => path@,
            None => default_session_file,
        },
        config.matrix_device_display_name@ == match env.device_display_name {
            Some(name) => name@,
            None => "autojoin bot"@,
        },
{
}

/// The user name is asked for first, and then the password. Nothing else is missed.
pub proof fn law_missing_settings_are_told(env: MatrixEnvironment)
    ensures
        env.username is None ==> MatrixAgentConfig::missing_setting(env) == Some(
            ConfigError::NoMatrixUsername,
        ),
        env.username is Some && env.password is None ==> MatrixAgentConfig::missing_setting(env)
            == Some(ConfigError::NoMatrixPassword),
        env.username is Some && env.password is Some ==> MatrixAgentConfig::missing_setting(
            env,
        ) is None,
{
}

/// A failure with a file or a directory names it.
pub proof fn law_failures_name_their_paths(dir: String, path: Seq<char>)
    ensures
        ConnectFailure::SessionUnreadable.describes(path) == Some(
            "failed to read matrix session file "@ + path,
        ),
        ConnectFailure::SessionNotWritable.describes(path) == Some(
            "failed to write matrix session file "@ + path,
        ),
        ConnectFailure::LoginFailed.describes(path) is None,
        RequiredDirectory::Session(dir).describes_failure() == "failed to create session dir "@
            + dir@,
        RequiredDirectory::Store(dir).describes_failure() == "failed to create matrix store dir "@
            + dir@,
{
}

} // verus!
