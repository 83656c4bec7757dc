//! The side of the assistant that faces the language model: its configuration,
//! its instruction, the introductions it knows, and the sessions it asks in.

use crate::config;
use crate::config::{setting_or, ConfigError};
use crate::introductions;
use crate::introductions::{
    find_user_ids, json_text, load_introductions, persist_introductions, FileContents,
    Introductions, KnownIntroductions, StoreError,
};
use crate::outside;
use crate::outside::{
    adk_app_name, adk_session_id, adk_user_id, parent_path, sibling_path, IdentityFault,
};
use crate::text;
use crate::text::{contains_text, is_blank, meaningful_text};
use vstd::prelude::*;

verus! {

/// The instruction of an assistant that was given none.
pub const DEFAULT_INSTRUCTION: &'static str = "You are a helpful assistant.";

/// The self-introduction of an assistant that was given none.
pub const DEFAULT_INTRODUCTION: &'static str =
    "Hello! I am an AI assistant. How can I help you today?";

/// The name that sessions are kept under.
pub const APP_NAME: &'static str = "chatbot";

/// The one session that each room has.
pub const ROOM_CONTEXT_SESSION_ID: &'static str = "room-context";

/// How assistants work together. It follows every instruction.
pub const COLLABORATION_PROTOCOL: &'static str = r#"When you receive a chat message, first inspect the known participant introductions 
    with the get_known_introductions tool before deciding whether to answer yourself or collaborate. Use those introductions 
    to judge who is best suited for the task.
    
    If you are asked to introduce yourself, use the introduce_yourself tool and return only its result, nothing more. Do not mention anyone then!
    
    You may receive a task context block containing task_id, requester, sender, room_id, and the original message. Keep the task_id stable across 
    all collaboration messages.
    
    If another participant is better suited or collaboration is needed, respond with a message that includes `[Task: <task_id>]` and mention collaborators 
    as `@[Agent-Name]`.
    
    If you complete the task yourself, include `[TaskComplete: <task_id>]` in your reply. When a requester is provided in the context, also include `[Requester: <requester_user_id>]`.
    
    Do not invent collaborators. Base delegation decisions on known introductions.

    Never, and I mean never, use your own name in your responses or mention yourself. Always refer to yourself as 'I' or 'me'.

    If you ever get the feeling that you are stuck in a loop (e.g. when being asked nearly exactly the same question again or giving the exactly same response) or you are unable to complete the task, respond with `[TaskFailed: <task_id>]` and provide a brief explanation of the issue. And in this case, DO NOT mention anyone, because it would open the loop again.

    If you have the feeling that mentioning you in the request message was not on purpose (e.g. you were not meant), then you can ignore the request and respond with a brief explanation. And in this case, DO NOT mention anyone, because it would open a loop again.

    Please answer short and precise, do not use markdown in your answer.
    "#;

/// The environment variables that configure the assistant.
pub struct AdkEnvironment {
    /// `OPENAI_API_KEY`.
    pub openai_api_key: Option<String>,
    /// `OPEN_RESPONSES_BASE_URL`.
    pub open_responses_base_url: Option<String>,
    /// `OPEN_RESPONSES_MODEL`.
    pub open_responses_model: Option<String>,
    /// `INTRODUCTIONS_STORE_FILE`.
    pub introductions_store_file: Option<String>,
    /// `INTRODUCTION_FILE`.
    pub introduction_file: Option<String>,
    /// `INSTRUCTION`.
    pub instruction: Option<String>,
}

/// The configuration of the assistant, with tools `T` and an agent `A` of its
/// own.
#[derive(Clone)]
pub struct AdkOpenAiAgentConfig<T, A> {
    /// The self-introduction, where it does not come from a file.
    pub introduction: Option<String>,
    /// The instruction, where it does not come from a file.
    pub instruction: Option<String>,
    /// Where the introductions of others are kept.
    pub introductions_store_file: String,
    /// Where the self-introduction stands.
    pub introduction_file: String,
    /// Where the instruction stands.
    pub instruction_file: String,
    /// The language model.
    pub open_responses_model: String,
    /// Where the model is served.
    pub open_responses_base_url: String,
    /// The key to the service.
    pub openai_api_key: String,
    /// Tools that the caller hands in.
    pub tools: Vec<T>,
    /// An agent that the caller hands in.
    pub agent: Option<A>,
}

impl<T, A> AdkOpenAiAgentConfig<T, A> {
    /// The configuration says what the environment says, and keeps the
    /// instruction at `instruction_file`.
    pub open spec fn is_from(self, env: AdkEnvironment, instruction_file: Seq<char>) -> bool {
        &&& env.openai_api_key matches Some(key) && self.openai_api_key@ == key@
        &&& self.open_responses_base_url@ == config::setting(
            env.open_responses_base_url,
            "https://api.openai.com/v1"@,
        )
        &&& self.open_responses_model@ == config::setting(
            env.open_responses_model,
            "gpt-4.1-nano"@,
        )
        &&& self.introductions_store_file@ == config::setting(
            env.introductions_store_file,
            ".matrix-store/introductions.json"@,
        )
        &&& self.introduction_file@ == config::setting(env.introduction_file, "INTRODUCTION.md"@)
        &&& self.instruction_file@ == instruction_file
        &&& text::optional_text(self.instruction) == text::meaningful(
            text::optional_text(env.instruction),
        )
        &&& self.introduction is None
        &&& self.tools@.len() == 0
        &&& self.agent is None
    }

    /// Reads the configuration from the environment. The instruction file stands
    /// beside the introduction file.
    pub fn default_from_env(env: AdkEnvironment) -> (config: Result<Self, ConfigError>)
        ensures
            match config {
                Ok(config) => {
                    &&& config.is_from(env, config.instruction_file@)
                    &&& outside::is_sibling(
                        config.instruction_file@,
                        config.introduction_file@,
                        "INSTRUCTION.md"@,
                    )
                    &&& env.introduction_file is None ==> config.instruction_file@
                        == "INSTRUCTION.md"@
                },
                Err(error) => env.openai_api_key is None && error == ConfigError::NoOpenAiApiKey,
            },
            env.openai_api_key is Some ==> config is Ok,
    {
        let introduction_file = match &env.introduction_file {
            Some(file) => file.as_str(),
            None => "INTRODUCTION.md",
        };
        assert(outside::is_file_name("INTRODUCTION.md"@) && outside::is_file_name(
            "INSTRUCTION.md"@,
        )) by {
            reveal_strlit("INTRODUCTION.md");
            reveal_strlit("INSTRUCTION.md");
            reveal_strlit(".");
            reveal_strlit("..");
            let own = "INTRODUCTION.md"@;
            let other = "INSTRUCTION.md"@;
            assert(own.len() == 15 && other.len() == 14 && "."@.len() == 1 && ".."@.len() == 2);
            assert(!own.contains('/') && !own.contains('\\') && !own.contains(':'));
            assert(!other.contains('/') && !other.contains('\\') && !other.contains(':'));
        }
        proof {
            outside::lemma_parent_of_file_name("INTRODUCTION.md"@);
        }
        let instruction_file = sibling_path(introduction_file, "INSTRUCTION.md");
        assert(Seq::<char>::empty() + "INSTRUCTION.md"@ =~= "INSTRUCTION.md"@);
        Self::from_environment(env, instruction_file)
    }

    /// Reads the configuration from the environment, with the instruction file
    /// at `instruction_file`.
    pub fn from_environment(env: AdkEnvironment, instruction_file: String) -> (config: Result<
        Self,
        ConfigError,
    >)
        ensures
            match config {
                Ok(config) => config.is_from(env, instruction_file@),
                Err(error) => env.openai_api_key is None && error == ConfigError::NoOpenAiApiKey,
            },
            env.openai_api_key is Some ==> config is Ok,
    {
        match env.openai_api_key {
            Some(openai_api_key) => Ok(
                AdkOpenAiAgentConfig {
                    introduction: None,
                    instruction: meaningful_text(env.instruction),
                    introductions_store_file: setting_or(
                        env.introductions_store_file,
                        ".matrix-store/introductions.json",
                    ),
                    introduction_file: setting_or(env.introduction_file, "INTRODUCTION.md"),
                    instruction_file,
                    open_responses_model: setting_or(env.open_responses_model, "gpt-4.1-nano"),
                    open_responses_base_url: setting_or(
                        env.open_responses_base_url,
                        "https://api.openai.com/v1",
                    ),
                    openai_api_key,
                    tools: Vec::new(),
                    agent: None,
                },
            ),
            None => Err(ConfigError::NoOpenAiApiKey),
        }
    }

    /// Sets the instruction.
    pub fn with_instruction(self, instruction: String) -> (config: Self)
        ensures
            config == (AdkOpenAiAgentConfig { instruction: Some(instruction), ..self }),
    {
        AdkOpenAiAgentConfig { instruction: Some(instruction), ..self }
    }

    /// Sets the self-introduction.
    pub fn with_introduction(self, introduction: String) -> (config: Self)
        ensures
            config == (AdkOpenAiAgentConfig { introduction: Some(introduction), ..self }),
    {
        AdkOpenAiAgentConfig { introduction: Some(introduction), ..self }
    }

    /// Sets the tools.
    pub fn with_tools(self, tools: Vec<T>) -> (config: Self)
        ensures
            config == (AdkOpenAiAgentConfig { tools: tools, ..self }),
    {
        AdkOpenAiAgentConfig { tools, ..self }
    }

    /// Sets the agent.
    pub fn with_agent(self, agent: A) -> (config: Self)
        ensures
            config == (AdkOpenAiAgentConfig { agent: Some(agent), ..self }),
    {
        AdkOpenAiAgentConfig { agent: Some(agent), ..self }
    }
}

/// What reading a text file gave.
pub enum TextFile {
    /// There is no such file.
    Missing,
    /// The file could not be read as text.
    Unreadable,
    /// The file's text.
    Text(String),
}

/// The assistant's self-introduction: the configured one, or what the file
/// holds, or the default.
pub open spec fn configured_introduction<T, A>(
    config: AdkOpenAiAgentConfig<T, A>,
    file: TextFile,
) -> Seq<char> {
    match (config.introduction, file) {
        (Some(introduction), _) => introduction@,
        (None, TextFile::Text(introduction)) => introduction@,
        (None, _) => DEFAULT_INTRODUCTION@,
    }
}

/// The assistant's instruction: the configured one, or what the file holds
/// unless that is blank, or the default.
pub open spec fn configured_instruction<T, A>(
    config: AdkOpenAiAgentConfig<T, A>,
    file: TextFile,
) -> Seq<char> {
    match (config.instruction, file) {
        (Some(instruction), _) => instruction@,
        (None, TextFile::Text(instruction)) => if text::trim(instruction@).len() == 0 {
            DEFAULT_INSTRUCTION@
        } else {
            instruction@
        },
        (None, _) => DEFAULT_INSTRUCTION@,
    }
}

/// Chooses the assistant's self-introduction. `file` is what reading the
/// introduction file gave.
pub fn get_configured_introduction<T, A>(
    config: &AdkOpenAiAgentConfig<T, A>,
    file: &TextFile,
) -> (introduction: String)
    ensures
        introduction@ == configured_introduction(*config, *file),
{
    match &config.introduction {
        Some(introduction) => introduction.clone(),
        None => match file {
            TextFile::Text(introduction) => introduction.clone(),
            TextFile::Unreadable => DEFAULT_INTRODUCTION.to_owned(),
            TextFile::Missing => DEFAULT_INTRODUCTION.to_owned(),
        },
    }
}

/// Chooses the assistant's instruction. `file` is what reading the instruction
/// file gave.
pub fn get_configured_instruction<T, A>(
    config: &AdkOpenAiAgentConfig<T, A>,
    file: &TextFile,
) -> (instruction: String)
    ensures
        instruction@ == configured_instruction(*config, *file),
{
    match &config.instruction {
        Some(instruction) => instruction.clone(),
        None => match file {
            TextFile::Text(instruction) => if is_blank(instruction.as_str()) {
                DEFAULT_INSTRUCTION.to_owned()
            } else {
                instruction.clone()
            },
            TextFile::Unreadable => DEFAULT_INSTRUCTION.to_owned(),
            TextFile::Missing => DEFAULT_INSTRUCTION.to_owned(),
        },
    }
}

/// The directory of the introductions store, if its path names one. It has to
/// exist before the assistant starts.
pub fn introductions_dir<T, A>(config: &AdkOpenAiAgentConfig<T, A>) -> (dir: Option<String>)
    ensures
        outside::is_parent(text::optional_text(dir), config.introductions_store_file@),
{
    parent_path(config.introductions_store_file.as_str())
}

/// Describes that the directory of the introductions store could not be made.
pub fn introductions_dir_failure(dir: &str) -> (message: String)
    ensures
        message@ == "failed to create introductions dir "@ + dir@,
{
    "failed to create introductions dir ".to_owned().concat(dir)
}

/// What the model is set up with.
pub struct AgentSetup {
    /// The instruction, with the rules for working together.
    pub instruction: String,
    /// What the model says when it is asked to introduce itself.
    pub introduction_reply: String,
}

impl AgentSetup {
    /// Answers the model's request for its introduction.
    pub fn introduce_yourself(&self) -> (value: serde_json::Value)
        ensures
            outside::json_contents(value) == outside::Json::Text(self.introduction_reply@),
    {
        json_text(self.introduction_reply.as_str())
    }
}

/// The instruction that the model works under.
pub open spec fn full_instruction(instruction: Seq<char>) -> Seq<char> {
    instruction + "\n\n"@ + COLLABORATION_PROTOCOL@
}

/// The reply to a request for an introduction.
pub open spec fn introduction_reply(introduction: Seq<char>) -> Seq<char> {
    "[Introduction]: "@ + introduction
}

/// The assistant as the model knows it: the introductions of the others, and
/// where they are kept.
pub struct AdkOpenAiAgent {
    /// Where the introductions are kept.
    pub introductions_store_file: String,
    /// Where the model is served.
    pub open_responses_base_url: String,
    /// The introductions of the others.
    pub introductions: Introductions,
}

impl AdkOpenAiAgent {
    /// The introductions are in order.
    pub open spec fn wf(self) -> bool {
        self.introductions.wf()
    }

    /// Starts the assistant, with what reading its files gave, and says how to
    /// set up the model.
    pub fn new<T, A>(
        config: AdkOpenAiAgentConfig<T, A>,
        instruction_file: &TextFile,
        introduction_file: &TextFile,
        store_file: &FileContents,
    ) -> (started: Result<(Self, AgentSetup), StoreError>)
        ensures
            match started {
                Ok((agent, setup)) => {
                    &&& agent.wf()
                    &&& introductions::stored_introductions(*store_file) == Some(
                        agent.introductions@,
                    )
                    &&& agent.introductions_store_file == config.introductions_store_file
                    &&& agent.open_responses_base_url == config.open_responses_base_url
                    &&& setup.instruction@ == full_instruction(
                        configured_instruction(config, *instruction_file),
                    )
                    &&& setup.introduction_reply@ == introduction_reply(
                        configured_introduction(config, *introduction_file),
                    )
                },
                Err(StoreError::Unreadable) => *store_file is Unreadable,
                Err(StoreError::Malformed(_)) => *store_file is Bytes
                    && introductions::stored_introductions(*store_file) is None,
                Err(StoreError::NotSerializable(_)) => false,
            },
    {
        let mut instruction = get_configured_instruction(&config, instruction_file);
        instruction.append("\n\n");
        instruction.append(COLLABORATION_PROTOCOL);
        let introduction = get_configured_introduction(&config, introduction_file);
        let introduction_reply = "[Introduction]: ".to_owned().concat(introduction.as_str());
        match load_introductions(store_file) {
            Ok(introductions) => {
                let agent = AdkOpenAiAgent {
                    introductions_store_file: config.introductions_store_file,
                    open_responses_base_url: config.open_responses_base_url,
                    introductions,
                };
                Ok((agent, AgentSetup { instruction, introduction_reply }))
            },
            Err(error) => Err(error),
        }
    }

    /// Remembers what `name` said of itself, and writes the document for the
    /// store file.
    pub fn remember_introduction(&mut self, name: String, introduction: String) -> (document:
        Result<Vec<u8>, StoreError>)
        requires
            old(self).wf(),
        ensures
            final(self).wf(),
            final(self).introductions@ == old(self).introductions@.insert(name@, introduction@),
            final(self).introductions_store_file == old(self).introductions_store_file,
            final(self).open_responses_base_url == old(self).open_responses_base_url,
            document is Ok,
            outside::document_entries(document->Ok_0@) == Some(final(self).introductions@),
    {
        self.introductions.insert(name, introduction);
        persist_introductions(&self.introductions)
    }

    /// The user ids of those who answer to `name`, in ascending order.
    pub fn find_helper_user_ids_by_name(&self, name: &str) -> (ids: Vec<String>)
        requires
            self.wf(),
        ensures
            text::is_ascending(text::texts(ids@)),
            text::texts(ids@).to_set() == introductions::helper_ids(self.introductions@, name@),
            text::trim(name@).len() == 0 ==> ids@.len() == 0,
            text::trim(name@).len() > 0 ==> text::texts(ids@).to_set()
                == introductions::matching_entries(
                self.introductions@,
                outside::lowercase(text::trim(name@)),
            ).dom(),
            text::trim(name@).len() > 0 ==> forall|id: Seq<char>| #[trigger]
                text::texts(ids@).contains(id) <==> self.introductions@.contains_key(id) && exists|
                    a: Seq<char>,
                    b: Seq<char>,
                | outside::lowercase(id) == #[trigger] (a + outside::lowercase(text::trim(name@))
                    + b),
    {
        find_user_ids(&self.introductions, name)
    }

    /// Answers the model's question for the introductions that are known by now.
    pub fn get_known_introductions(&self, arguments: &serde_json::Value) -> (answer:
        KnownIntroductions)
        requires
            self.wf(),
        ensures
            introductions::is_answer(
                answer,
                Some(self.introductions@),
                text::meaningful(introductions::name_argument(*arguments)),
            ),
    {
        introductions::get_known_introductions(Some(&self.introductions), arguments)
    }

    /// Whether `user_id` has introduced itself.
    pub fn is_known_helper_user_id(&self, user_id: &str) -> (yes: bool)
        requires
            self.wf(),
        ensures
            yes == self.introductions@.contains_key(user_id@),
    {
        self.introductions.contains_name(user_id)
    }

    /// Prepares to put `message` to the model in the session of a room.
    pub fn ask(room_id: &str, message: String) -> (question: Result<Question, IdentityFault>)
        ensures
            match question {
                Ok(question) => {
                    &&& outside::identity_fault(room_id@) is None
                    &&& question.session.is_room_session(room_id@)
                    &&& question.role@ == "user"@
                    &&& question.text == message
                },
                Err(fault) => outside::identity_fault(room_id@) == Some(fault),
            },
    {
        match room_session(room_id) {
            Ok(session) => Ok(Question { session, role: "user".to_owned(), text: message }),
            Err(fault) => Err(fault),
        }
    }

    /// Prepares to add `message` to the session of a room without an answer.
    pub fn record_observed_message(room_id: &str, message: String) -> (observed: Result<
        ObservedMessage,
        IdentityFault,
    >)
        ensures
            match observed {
                Ok(observed) => {
                    &&& outside::identity_fault(room_id@) is None
                    &&& observed.session.is_room_session(room_id@)
                    &&& observed.invocation_id@ == "matrix-observed-message"@
                    &&& observed.author@ == "user"@
                    &&& observed.role@ == "user"@
                    &&& observed.text == message
                },
                Err(fault) => outside::identity_fault(room_id@) == Some(fault),
            },
    {
        let session = match room_session(room_id) {
            Ok(session) => session,
            Err(fault) => {
                return Err(fault);
            },
        };
        proof {
            lemma_own_names_are_identities();
        }
        let app_name = match adk_app_name(APP_NAME) {
            Ok(app_name) => app_name,
            Err(fault) => {
                return Err(fault);
            },
        };
        Ok(
            ObservedMessage {
                session: SessionKey { app_name, ..session },
                invocation_id: "matrix-observed-message".to_owned(),
                author: "user".to_owned(),
                role: "user".to_owned(),
                text: message,
            },
        )
    }
}

/// What a session is found by.
pub struct SessionKey {
    /// The application.
    pub app_name: String,
    /// The user: here, the room.
    pub user_id: String,
    /// The session of that user.
    pub session_id: String,
}

impl SessionKey {
    /// The key of a room's one session.
    pub open spec fn is_room_session(self, room_id: Seq<char>) -> bool {
        &&& self.app_name@ == APP_NAME@
        &&& self.user_id@ == room_id
        &&& self.session_id@ == ROOM_CONTEXT_SESSION_ID@
    }
}

/// A message to put to the model.
pub struct Question {
    /// The session to ask in.
    pub session: SessionKey,
    /// Who asks.
    pub role: String,
    /// What is asked.
    pub text: String,
}

/// A message to add to a session.
pub struct ObservedMessage {
    /// The session to add to.
    pub session: SessionKey,
    /// What the addition is called.
    pub invocation_id: String,
    /// Whom the addition comes from.
    pub author: String,
    /// Who speaks in it.
    pub role: String,
    /// What is said.
    pub text: String,
}

impl IdentityFault {
    /// What the fault says of an identifier of some kind.
    pub open spec fn describes(self, kind: Seq<char>) -> Seq<char> {
        match self {
            IdentityFault::Empty => kind + " must not be empty"@,
            IdentityFault::TooLong => kind + " exceeds maximum length of 512 bytes"@,
            IdentityFault::ContainsNull => kind + " must not contain null bytes"@,
        }
    }

    /// Describes the fault of an identifier of some kind.
    pub fn message(&self, kind: &str) -> (message: String)
        ensures
            message@ == self.describes(kind@),
    {
        match self {
            IdentityFault::Empty => kind.to_owned().concat(" must not be empty"),
            IdentityFault::TooLong => kind.to_owned().concat(
                " exceeds maximum length of 512 bytes",
            ),
            IdentityFault::ContainsNull => kind.to_owned().concat(" must not contain null bytes"),
        }
    }
}

/// The library's own names are identifiers.
proof fn lemma_own_names_are_identities()
    ensures
        outside::identity_fault(APP_NAME@) is None,
        outside::identity_fault(ROOM_CONTEXT_SESSION_ID@) is None,
{
    reveal_strlit("chatbot");
    reveal_strlit("room-context");
    vstd::utf8::is_ascii_chars_encode_utf8(APP_NAME@);
    vstd::utf8::is_ascii_chars_encode_utf8(ROOM_CONTEXT_SESSION_ID@);
}

/// The key of a room's one session.
pub fn room_session(room_id: &str) -> (session: Result<SessionKey, IdentityFault>)
    ensures
        match session {
            Ok(session) => outside::identity_fault(room_id@) is None && session.is_room_session(
                room_id@,
            ),
            Err(fault) => outside::identity_fault(room_id@) == Some(fault),
        },
{
    let user_id = match adk_user_id(room_id) {
        Ok(user_id) => user_id,
        Err(fault) => {
            return Err(fault);
        },
    };
    proof {
        lemma_own_names_are_identities();
    }
    match adk_session_id(ROOM_CONTEXT_SESSION_ID) {
        Ok(session_id) => Ok(SessionKey { app_name: APP_NAME.to_owned(), user_id, session_id }),
        Err(fault) => Err(fault),
    }
}

/// How far the search for a session is.
#[derive(Clone, Copy, Debug, PartialEq, Eq, Structural)]
pub enum SessionState {
    /// It is being looked up.
    LookingUp,
    /// It is being created.
    Creating,
    /// It is there.
    Ready,
    /// There is none.
    Failed,
}

/// What happened in the search for a session.
pub enum SessionEvent {
    /// The session was found.
    Found,
    /// It was not, for the reason that the text gives.
    LookupFailed(String),
    /// The session was created.
    Created,
    /// It could not be created.
    CreationFailed,
}

/// The step that `event` leads to. A session that does not exist is created, and
/// any other failure is final. An event that the state does not wait for changes
/// nothing.
pub open spec fn next_session_state(state: SessionState, event: SessionEvent) -> SessionState {
    match (state, event) {
        (SessionState::LookingUp, SessionEvent::Found) => SessionState::Ready,
        (SessionState::LookingUp, SessionEvent::LookupFailed(reason)) => if text::contains(
            reason@,
            "session not found"@,
        ) {
            SessionState::Creating
        } else {
            SessionState::Failed
        },
        (SessionState::Creating, SessionEvent::Created) => SessionState::Ready,
        (SessionState::Creating, SessionEvent::CreationFailed) => SessionState::Failed,
        (state, _) => state,
    }
}

/// Goes on in the search for a session.
pub fn load_or_create_session(state: SessionState, event: &SessionEvent) -> (next: SessionState)
    ensures
        next == next_session_state(state, *event),
{
    match (state, event) {
        (SessionState::LookingUp, SessionEvent::Found) => SessionState::Ready,
        (SessionState::LookingUp, SessionEvent::LookupFailed(reason)) => if contains_text(
            reason.as_str(),
            "session not found",
        ) {
            SessionState::Creating
        } else {
            SessionState::Failed
        },
        (SessionState::Creating, SessionEvent::Created) => SessionState::Ready,
        (SessionState::Creating, SessionEvent::CreationFailed) => SessionState::Failed,
        (state, _) => state,
    }
}

/// A part of what the model sends.
pub enum ResponsePart {
    /// Text.
    Text(String),
    /// Anything else.
    Other,
}

/// What the model's stream gives at a time.
pub enum StreamItem {
    /// An error, which the stream may go on after.
    Failed,
    /// An event, with the parts of its content, if it has any.
    Event(Option<Vec<ResponsePart>>),
}

/// The text of a part.
pub open spec fn part_text(part: ResponsePart) -> Seq<char> {
    match part {
        ResponsePart::Text(text) => text@,
        ResponsePart::Other => Seq::empty(),
    }
}

/// The text of parts, one behind the other.
pub open spec fn parts_text(parts: Seq<ResponsePart>) -> Seq<char>
    decreases parts.len(),
{
    if parts.len() == 0 {
        Seq::empty()
    } else {
        parts_text(parts.drop_last()) + part_text(parts.last())
    }
}

/// The text of an item.
pub open spec fn item_text(item: StreamItem) -> Seq<char> {
    match item {
        StreamItem::Event(Some(parts)) => parts_text(parts@),
        _ => Seq::empty(),
    }
}

/// The text of a stream.
pub open spec fn stream_text(items: Seq<StreamItem>) -> Seq<char>
    decreases items.len(),
{
    if items.len() == 0 {
        Seq::empty()
    } else {
        stream_text(items.drop_last()) + item_text(items.last())
    }
}

/// What has come of the model's answer.
pub struct ResponseText {
    /// The text so far.
    pub text: String,
    /// Whether any text has come.
    pub received_content: bool,
}

impl ResponseText {
    /// Text has come exactly where there is text.
    pub open spec fn wf(self) -> bool {
        self.received_content == (self.text@.len() > 0)
    }

    /// Nothing has come.
    pub fn new() -> (response: Self)
        ensures
            response.wf(),
            response.text@ == Seq::<char>::empty(),
    {
        ResponseText { text: String::new(), received_content: false }
    }

    /// Adds what an item brings.
    pub fn push_item(&mut self, item: &StreamItem)
        requires
            old(self).wf(),
        ensures
            final(self).wf(),
            final(self).text@ == old(self).text@ + item_text(*item),
    {
        if let StreamItem::Event(Some(parts)) = item {
            let mut i: usize = 0;
            assert(parts@.take(0) =~= Seq::empty());
            assert(self.text@ =~= old(self).text@ + parts_text(parts@.take(0)));
            while i < parts.len()
                invariant
                    i <= parts@.len(),
                    self.wf(),
                    self.text@ == old(self).text@ + parts_text(parts@.take(i as int)),
                decreases parts@.len() - i,
            {
                let ghost before = self.text@;
                if let ResponsePart::Text(text) = &parts[i] {
                    if !text.as_str().is_empty() {
                        self.text.append(text.as_str());
                        self.received_content = true;
                    }
                }
                proof {
                    assert(parts@.take(i + 1).drop_last() =~= parts@.take(i as int));
                    assert(self.text@ =~= before + part_text(parts@[i as int]));
                    assert(self.text@ =~= old(self).text@ + parts_text(parts@.take(i + 1)));
                }
                i = i + 1;
            }
            assert(parts@.take(i as int) =~= parts@);
        } else {
            assert(self.text@ =~= old(self).text@ + item_text(*item));
        }
    }
}

/// Reads the model's answer from its stream.
pub fn fetch_response_text(items: &Vec<StreamItem>) -> (response: ResponseText)
    ensures
        response.wf(),
        response.text@ == stream_text(items@),
{
    let mut response = ResponseText::new();
    let mut i: usize = 0;
    assert(items@.take(0) =~= Seq::empty());
    while i < items.len()
        invariant
            i <= items@.len(),
            response.wf(),
            response.text@ == stream_text(items@.take(i as int)),
        decreases items@.len() - i,
    {
        response.push_item(&items[i]);
        assert(items@.take(i + 1).drop_last() =~= items@.take(i as int));
        i = i + 1;
    }
    assert(items@.take(i as int) =~= items@);
    response
}

/// How far a question is.
pub enum AskState {
    /// Its session is being searched for.
    Searching(SessionState),
    /// The model is answering.
    Answering(ResponseText),
    /// The model has answered.
    Answered(String),
    /// There will be no answer.
    Failed,
}

/// What happened to a question.
pub enum AskEvent {
    /// The search for the session went on.
    Session(SessionEvent),
    /// The model has begun to answer.
    Started,
    /// The model could not be asked.
    NotStarted,
    /// The model's stream gave something.
    Item(StreamItem),
    /// The model's stream ended.
    Ended,
}

/// How far a question is, with the text that has come.
pub enum AskProgress {
    /// Its session is being searched for.
    Searching(SessionState),
    /// The model is answering.
    Answering(Seq<char>),
    /// The model has answered.
    Answered(Seq<char>),
    /// There will be no answer.
    Failed,
}

impl View for AskState {
    type V = AskProgress;

    open spec fn view(&self) -> AskProgress {
        match self {
            AskState::Searching(session) => AskProgress::Searching(*session),
            AskState::Answering(response) => AskProgress::Answering(response.text@),
            AskState::Answered(text) => AskProgress::Answered(text@),
            AskState::Failed => AskProgress::Failed,
        }
    }
}

impl AskState {
    /// What has come of an answer is in order.
    pub open spec fn wf(self) -> bool {
        self matches AskState::Answering(response) ==> response.wf()
    }

    /// A question at its beginning.
    pub fn new() -> (state: Self)
        ensures
            state.wf(),
            state@ == AskProgress::Searching(SessionState::LookingUp),
    {
        AskState::Searching(SessionState::LookingUp)
    }

    /// Goes on with a question.
    pub fn step(self, event: &AskEvent) -> (next: Self)
        requires
            self.wf(),
        ensures
            next.wf(),
            next@ == next_ask(self@, *event),
    {
        match (self, event) {
            (AskState::Searching(session), AskEvent::Session(event)) => {
                let session = load_or_create_session(session, event);
                match session {
                    SessionState::Failed => AskState::Failed,
                    session => AskState::Searching(session),
                }
            },
            (AskState::Searching(SessionState::Ready), AskEvent::Started) => AskState::Answering(
                ResponseText::new(),
            ),
            (AskState::Searching(SessionState::Ready), AskEvent::NotStarted) => AskState::Failed,
            (AskState::Answering(response), AskEvent::Item(item)) => {
                let mut response = response;
                response.push_item(item);
                AskState::Answering(response)
            },
            (AskState::Answering(response), AskEvent::Ended) => AskState::Answered(response.text),
            (state, _) => state,
        }
    }
}

/// The step that `event` leads to. The model is asked once the session is there,
/// and the answer is what its stream says. An event that the question does not
/// wait for changes nothing.
pub open spec fn next_ask(progress: AskProgress, event: AskEvent) -> AskProgress {
    match (progress, event) {
        (AskProgress::Searching(session), AskEvent::Session(event)) => {
            let next = next_session_state(session, event);
            if next == SessionState::Failed {
                AskProgress::Failed
            } else {
                AskProgress::Searching(next)
            }
        },
        (AskProgress::Searching(SessionState::Ready), AskEvent::Started) => AskProgress::Answering(
            Seq::empty(),
        ),
        (AskProgress::Searching(SessionState::Ready), AskEvent::NotStarted) => AskProgress::Failed,
        (AskProgress::Answering(text), AskEvent::Item(item)) => AskProgress::Answering(
            text + item_text(item),
        ),
        (AskProgress::Answering(text), AskEvent::Ended) => AskProgress::Answered(text),
        (progress, _) => progress,
    }
}

/// How far a question is after `events`.
pub open spec fn ask_after(progress: AskProgress, events: Seq<AskEvent>) -> AskProgress
    decreases events.len(),
{
    if events.len() == 0 {
        progress
    } else {
        next_ask(ask_after(progress, events.drop_last()), events.last())
    }
}

/// The answer to a question is the text of the model's stream: all of it, in its
/// order, and nothing else.
pub proof fn law_answer_is_stream_text(items: Seq<StreamItem>)
    ensures
        next_ask(
            ask_after(
                AskProgress::Answering(Seq::empty()),
                items.map_values(|item: StreamItem| AskEvent::Item(item)),
            ),
            AskEvent::Ended,
        ) == AskProgress::Answered(stream_text(items)),
{
    lemma_items_so_far(items);
}

/// What has come of an answer after some items.
proof fn lemma_items_so_far(items: Seq<StreamItem>)
    ensures
        ask_after(
            AskProgress::Answering(Seq::empty()),
            items.map_values(|item: StreamItem| AskEvent::Item(item)),
        ) == AskProgress::Answering(stream_text(items)),
    decreases items.len(),
{
    let events = items.map_values(|item: StreamItem| AskEvent::Item(item));
    if items.len() > 0 {
        lemma_items_so_far(items.drop_last());
        assert(events.drop_last() =~= items.drop_last().map_values(
            |item: StreamItem| AskEvent::Item(item),
        ));
    }
}

/// The model begins to answer only once the session is there.
pub proof fn law_model_waits_for_session(progress: AskProgress, event: AskEvent)
    requires
        !(progress is Answering),
        next_ask(progress, event) is Answering,
    ensures
        progress == AskProgress::Searching(SessionState::Ready),
        event is Started,
{
}

/// The answer is the same however the stream is cut into pieces.
pub proof fn law_stream_text_adds_up(front: Seq<StreamItem>, back: Seq<StreamItem>)
    ensures
        stream_text(front + back) == stream_text(front) + stream_text(back),
    decreases back.len(),
{
    if back.len() == 0 {
        assert(front + back =~= front);
        assert(stream_text(front) + stream_text(back) =~= stream_text(front));
    } else {
        assert((front + back).drop_last() =~= front + back.drop_last());
        assert((front + back).last() == back.last());
        law_stream_text_adds_up(front, back.drop_last());
        assert(stream_text(front + back) =~= stream_text(front) + stream_text(back));
    }
}

/// A session that is there, or that there is none, is final: no event changes it.
pub proof fn law_session_search_settles(state: SessionState, event: SessionEvent)
    ensures
        state == SessionState::Ready || state == SessionState::Failed ==> next_session_state(
            state,
            event,
        ) == state,
{
}

/// The model is asked only in a session that was found, or created after it was
/// not found.
pub proof fn law_ready_session_exists(first: SessionEvent, second: SessionEvent)
    requires
        next_session_state(
            next_session_state(SessionState::LookingUp, first),
            second,
        ) == SessionState::Ready,
    ensures
        first is Found || second is Found || (second is Created && first is LookupFailed
            && text::contains(first->LookupFailed_0@, "session not found"@)),
{
}

/// What the caller sets goes before what stands in a file.
pub proof fn law_configured_text_wins<T, A>(
    config: AdkOpenAiAgentConfig<T, A>,
    given: String,
    file: TextFile,
)
    ensures
        configured_instruction(
            (AdkOpenAiAgentConfig { instruction: Some(given), ..config }),
            file,
        ) == given@,
        configured_introduction(
            (AdkOpenAiAgentConfig { introduction: Some(given), ..config }),
            file,
        ) == given@,
{
}

/// The rules for working together end every instruction.
pub proof fn law_instruction_ends_with_protocol(instruction: Seq<char>)
    ensures
        text::ends_with(full_instruction(instruction), COLLABORATION_PROTOCOL@),
{
    let full = full_instruction(instruction);
    let n = full.len() - COLLABORATION_PROTOCOL@.len();
    assert(full.subrange(n, full.len() as int) =~= COLLABORATION_PROTOCOL@);
}

/// A text that the model sends as the only part of an event is added as it is, and
/// a part that is no text adds nothing.
pub proof fn law_text_part_is_added_whole(text: String, parts: Vec<ResponsePart>)
    ensures
        parts_text(seq![ResponsePart::Text(text)]) == text@,
        parts_text(seq![ResponsePart::Other]) == Seq::<char>::empty(),
        parts_text(Seq::empty()) == Seq::<char>::empty(),
        parts@ == seq![ResponsePart::Text(text)] ==> stream_text(
            seq![StreamItem::Event(Some(parts))],
        ) == text@,
        stream_text(seq![StreamItem::Event(Some(parts))]) == parts_text(parts@),
        stream_text(seq![StreamItem::Event(None)]) == Seq::<char>::empty(),
        stream_text(seq![StreamItem::Failed]) == Seq::<char>::empty(),
        stream_text(Seq::empty()) == Seq::<char>::empty(),
{
    lemma_single_part(ResponsePart::Text(text));
    lemma_single_part(ResponsePart::Other);
    lemma_single_item(StreamItem::Event(Some(parts)));
    lemma_single_item(StreamItem::Event(None));
    lemma_single_item(StreamItem::Failed);
}

/// The text of one part.
proof fn lemma_single_part(part: ResponsePart)
    ensures
        parts_text(seq![part]) == part_text(part),
{
    let parts = seq![part];
    assert(parts.drop_last() =~= Seq::<ResponsePart>::empty());
    assert(parts_text(Seq::<ResponsePart>::empty()) == Seq::<char>::empty());
    assert(Seq::<char>::empty() + part_text(part) =~= part_text(part));
}

/// The text of one item.
proof fn lemma_single_item(item: StreamItem)
    ensures
        stream_text(seq![item]) == item_text(item),
{
    let items = seq![item];
    assert(items.drop_last() =~= Seq::<StreamItem>::empty());
    assert(stream_text(Seq::<StreamItem>::empty()) == Seq::<char>::empty());
    assert(Seq::<char>::empty() + item_text(item) =~= item_text(item));
}

/// The text of parts is that of the first ones followed by that of the others.
pub proof fn law_parts_text_adds_up(front: Seq<ResponsePart>, back: Seq<ResponsePart>)
    ensures
        parts_text(front + back) == parts_text(front) + parts_text(back),
    decreases back.len(),
{
    if back.len() == 0 {
        assert(front + back =~= front);
        assert(parts_text(front) + parts_text(back) =~= parts_text(front));
    } else {
        assert((front + back).drop_last() =~= front + back.drop_last());
        assert((front + back).last() == back.last());
        law_parts_text_adds_up(front, back.drop_last());
        assert(parts_text(front + back) =~= parts_text(front) + parts_text(back));
    }
}

/// Two texts that the model sends one behind the other are one text, with nothing
/// between them, whether they come in one event or in two.
pub proof fn law_streamed_texts_join(
    first: String,
    second: String,
    one: Vec<ResponsePart>,
    other: Vec<ResponsePart>,
    both: Vec<ResponsePart>,
)
    requires
        one@ == seq![ResponsePart::Text(first)],
        other@ == seq![ResponsePart::Text(second)],
        both@ == seq![ResponsePart::Text(first), ResponsePart::Text(second)],
    ensures
        stream_text(seq![StreamItem::Event(Some(both))]) == first@ + second@,
        stream_text(seq![StreamItem::Event(Some(one)), StreamItem::Event(Some(other))]) == first@
            + second@,
{
    law_text_part_is_added_whole(first, one);
    law_text_part_is_added_whole(second, other);
    law_text_part_is_added_whole(first, both);
    assert(both@ =~= one@ + other@);
    law_parts_text_adds_up(one@, other@);
    let items = seq![StreamItem::Event(Some(one)), StreamItem::Event(Some(other))];
    assert(items =~= seq![StreamItem::Event(Some(one))] + seq![StreamItem::Event(Some(other))]);
    law_stream_text_adds_up(
        seq![StreamItem::Event(Some(one))],
        seq![StreamItem::Event(Some(other))],
    );
}

/// A question goes on by what happens to it: its session is searched for, the
/// model begins to answer once the session is there, each item adds its text
/// behind what has come, and the end makes all that has come the answer. A failed
/// item adds nothing and ends nothing.
pub proof fn law_question_goes_on(
    session: SessionState,
    text: Seq<char>,
    event: SessionEvent,
    item: StreamItem,
)
    ensures
        next_ask(AskProgress::Searching(SessionState::Ready), AskEvent::Started)
            == AskProgress::Answering(Seq::empty()),
        next_ask(AskProgress::Searching(SessionState::Ready), AskEvent::NotStarted) is Failed,
        session != SessionState::Ready ==> next_ask(
            AskProgress::Searching(session),
            AskEvent::Started,
        ) == AskProgress::Searching(session),
        next_session_state(session, event) == SessionState::Failed ==> next_ask(
            AskProgress::Searching(session),
            AskEvent::Session(event),
        ) is Failed,
        next_session_state(session, event) != SessionState::Failed ==> next_ask(
            AskProgress::Searching(session),
            AskEvent::Session(event),
        ) == AskProgress::Searching(next_session_state(session, event)),
        next_ask(AskProgress::Answering(text), AskEvent::Item(item)) == AskProgress::Answering(
            text + stream_text(seq![item]),
        ),
        next_ask(AskProgress::Answering(text), AskEvent::Item(StreamItem::Failed))
            == AskProgress::Answering(text),
        next_ask(AskProgress::Answering(text), AskEvent::Ended) == AskProgress::Answered(text),
{
    lemma_single_item(item);
    assert(text + Seq::<char>::empty() =~= text);
}

/// A question that is settled stays as it is.
pub proof fn law_settled_question_stays(progress: AskProgress, event: AskEvent)
    requires
        progress is Answered || progress is Failed,
    ensures
        next_ask(progress, event) == progress,
{
}

/// A question is as far as its state says.
pub proof fn law_question_shows_its_state(session: SessionState, response: ResponseText, text: String)
    ensures
        AskState::Searching(session)@ == AskProgress::Searching(session),
        AskState::Answering(response)@ == AskProgress::Answering(response.text@),
        AskState::Answered(text)@ == AskProgress::Answered(text@),
        AskState::Failed@ == AskProgress::Failed,
{
}

/// A session that is found is used, one that is reported as not found is created,
/// and any other failure of the lookup, or a failure to create it, is final.
pub proof fn law_missing_session_is_created(reason: String)
    ensures
        next_session_state(SessionState::LookingUp, SessionEvent::Found) == SessionState::Ready,
        next_session_state(SessionState::LookingUp, SessionEvent::LookupFailed(reason)) == (
        if exists|a: Seq<char>, b: Seq<char>| reason@ == #[trigger] (a + "session not found"@
            + b) {
            SessionState::Creating
        } else {
            SessionState::Failed
        }),
        next_session_state(SessionState::Creating, SessionEvent::Created) == SessionState::Ready,
        next_session_state(SessionState::Creating, SessionEvent::CreationFailed)
            == SessionState::Failed,
{
    text::law_contained_text_splits(reason@, "session not found"@);
}

/// Where the caller set nothing, the text of the file is taken as it is, but for a
/// blank instruction. Without a readable text, the defaults hold.
pub proof fn law_file_text_is_taken<T, A>(config: AdkOpenAiAgentConfig<T, A>, given: String)
    requires
        config.instruction is None,
        config.introduction is None,
    ensures
        configured_introduction(config, TextFile::Text(given)) == given@,
        text::trim(given@).len() > 0 ==> configured_instruction(config, TextFile::Text(given))
            == given@,
        text::trim(given@).len() == 0 ==> configured_instruction(config, TextFile::Text(given))
            == "You are a helpful assistant."@,
        configured_instruction(config, TextFile::Missing) == "You are a helpful assistant."@,
        configured_instruction(config, TextFile::Unreadable) == "You are a helpful assistant."@,
        configured_introduction(config, TextFile::Missing)
            == "Hello! I am an AI assistant. How can I help you today?"@,
        configured_introduction(config, TextFile::Unreadable)
            == "Hello! I am an AI assistant. How can I help you today?"@,
{
}

/// The model works under the instruction as it is, an empty line, and the rules for
/// working together, and introduces itself with the introduction as it is.
pub proof fn law_setup_keeps_texts(given: Seq<char>)
    ensures
        full_instruction(given) == given + seq!['\n', '\n'] + COLLABORATION_PROTOCOL@,
        introduction_reply(given) == "[Introduction]"@ + seq![':', ' '] + given,
{
    reveal_strlit("\n\n");
    reveal_strlit("[Introduction]: ");
    reveal_strlit("[Introduction]");
    assert("\n\n"@ =~= seq!['\n', '\n']);
    assert("[Introduction]: "@ =~= "[Introduction]"@ + seq![':', ' ']);
}

/// What the environment gives is taken as it is, and what it does not give has a
/// fixed default. An instruction is taken without the white space around it, and
/// a blank one counts as not given.
pub proof fn law_environment_is_taken<T, A>(
    config: AdkOpenAiAgentConfig<T, A>,
    env: AdkEnvironment,
    instruction_file: Seq<char>,
)
    requires
        config.is_from(env, instruction_file),
    ensures
        env.openai_api_key is Some && config.openai_api_key@ == env.openai_api_key->Some_0@,
        config.open_responses_base_url@ == match env.open_responses_base_url {
            Some(url) => url@,
            None => "https://api.openai.com/v1"@,
        },
        config.open_responses_model@ == match env.open_responses_model {
            Some(model) => model@,
            None => "gpt-4.1-nano"@,
        },
        config.introductions_store_file@ == match env.introductions_store_file {
            Some(path) => path@,
            None => ".matrix-store/introductions.json"@,
        },
        config.introduction_file@ == match env.introduction_file {
            Some(path) => path@,
            None => "INTRODUCTION.md"@,
        },
        config.instruction_file@ == instruction_file,
        match env.instruction {
            Some(given) => if text::trim(given@).len() > 0 {
                config.instruction is Some && config.instruction->Some_0@ == text::trim(given@)
            } else {
                config.instruction is None
            },
            None => config.instruction is None,
        },
        config.introduction is None,
        config.tools@.len() == 0,
        config.agent is None,
{
}

/// Every room has one session of its own.
pub proof fn law_rooms_have_their_own_sessions(
    one: SessionKey,
    other: SessionKey,
    room: Seq<char>,
    other_room: Seq<char>,
)
    requires
        one.is_room_session(room),
        other.is_room_session(other_room),
    ensures
        one.app_name@ == "chatbot"@ && one.session_id@ == "room-context"@,
        one.app_name@ == other.app_name@ && one.session_id@ == other.session_id@,
        one.user_id@ == room,
        one.user_id@ == other.user_id@ <==> room == other_room,
{
}

} // verus!
