//! The assistant in its rooms.

use matrix_adk_agent::adk::{
    AdkEnvironment, AdkOpenAiAgent, AdkOpenAiAgentConfig, TextFile,
};
use matrix_adk_agent::introductions::{load_introductions, FileContents};
use matrix_adk_agent::markers::extract_introduction;
use matrix_adk_agent::matrix::{
    ConnectEvent, ConnectPhase, MatrixAgent, MatrixAgentConfig, MatrixEnvironment,
};
use matrix_adk_agent::matrix_agent::{
    is_mentioned, on_stripped_state_member, push_mention, JoinRetry, JoinStep, MatrixAdkAgent,
    MessageContent, MessageMentions, MessageOutcome, Reaction, RoomMessage,
};
use matrix_adk_agent::task::{parse_agent_response, TaskContext};

const OWN: &str = "@me:x.org";

fn agent_with(introductions: &[(&str, &str)], auto_join: bool) -> MatrixAdkAgent<()> {
    let env = MatrixEnvironment {
        homeserver_url: None,
        username: Some("bot".to_string()),
        password: Some("secret".to_string()),
        store_dir: None,
        session_file: None,
        device_display_name: None,
    };
    let matrix_agent = MatrixAgent::new(MatrixAgentConfig::default_from_env(env).unwrap(), ());
    let env = AdkEnvironment {
        openai_api_key: Some("key".to_string()),
        open_responses_base_url: None,
        open_responses_model: None,
        introductions_store_file: None,
        introduction_file: None,
        instruction: None,
    };
    let config = AdkOpenAiAgentConfig::<(), ()>::default_from_env(env).unwrap();
    let started = AdkOpenAiAgent::new(
        config,
        &TextFile::Missing,
        &TextFile::Missing,
        &FileContents::Missing,
    );
    let (mut adk_agent, _) = started.ok().unwrap();
    for (name, introduction) in introductions {
        let stored = adk_agent.remember_introduction(name.to_string(), introduction.to_string());
        assert!(stored.is_ok());
    }
    MatrixAdkAgent::new(matrix_agent, adk_agent, auto_join)
}

fn agent() -> MatrixAdkAgent<()> {
    agent_with(
        &[("@bob:x.org", "I build"), ("@Bobby:y.org", "I break"), ("bobsled", "no user id")],
        true,
    )
}

fn message(body: &str, mentioned: &[&str]) -> RoomMessage {
    RoomMessage {
        joined: true,
        room_id: "!room:x.org".to_string(),
        sender: "@asker:x.org".to_string(),
        content: MessageContent::Text(body.to_string()),
        mentions: Some(MessageMentions {
            room: false,
            user_ids: mentioned.iter().map(|id| id.to_string()).collect(),
        }),
    }
}

fn asked(outcome: MessageOutcome) -> (TaskContext, String) {
    match outcome.reaction {
        Reaction::Ask { context, prompt } => (context, prompt),
        _ => panic!("the model is not asked"),
    }
}

#[test]
fn tasks_are_numbered_from_one() {
    let mut agent = agent();
    assert_eq!(agent.next_task_id(), "task-1");
    assert_eq!(agent.next_task_id(), "task-2");
    assert_eq!(agent.task_counter, 3);
}

#[test]
fn task_numbers_go_round() {
    let mut agent = agent();
    agent.task_counter = u64::MAX;
    assert_eq!(agent.next_task_id(), "task-18446744073709551615");
    assert_eq!(agent.next_task_id(), "task-0");
}

#[test]
fn a_new_task_gets_a_name_and_the_sender_as_requester() {
    let mut agent = agent();
    let context = agent.build_task_context("@a:x.org", "!r:x.org".to_string(), " do it ");
    assert_eq!(context.task_id, "task-1");
    assert_eq!(context.requester, "@a:x.org");
    assert_eq!(context.sender, "@a:x.org");
    assert_eq!(context.room_id, "!r:x.org");
    assert_eq!(context.original_message, "do it");
    assert!(!context.has_existing_task_id);
    assert_eq!(agent.task_counter, 2);
}

#[test]
fn a_known_task_keeps_its_name_and_requester() {
    let mut agent = agent();
    let context = agent.build_task_context(
        "@a:x.org",
        "!r:x.org".to_string(),
        "[Task: t-9] go on [Requester: @b:x.org]",
    );
    assert_eq!(context.task_id, "t-9");
    assert_eq!(context.requester, "@b:x.org");
    assert_eq!(context.original_message, "go on");
    assert!(context.has_existing_task_id);
    assert_eq!(agent.task_counter, 1);
}

#[test]
fn helpers_are_mentioned_once_in_ascending_order() {
    let names = vec!["bob".to_string(), "BOBBY".to_string(), "nobody".to_string()];
    assert_eq!(agent().resolve_user_mentions(&names), ["@Bobby:y.org", "@bob:x.org"]);
    assert!(agent().resolve_user_mentions(&Vec::new()).is_empty());
}

#[test]
fn what_is_no_user_id_is_not_mentioned() {
    assert!(agent().resolve_user_mentions(&vec!["bobsled".to_string()]).is_empty());
    let mut ids = vec!["@b:x".to_string()];
    push_mention(&mut ids, None);
    assert_eq!(ids, ["@b:x"]);
    push_mention(&mut ids, Some("@a:x".to_string()));
    push_mention(&mut ids, Some("@b:x".to_string()));
    assert_eq!(ids, ["@a:x", "@b:x"]);
}

fn task(requester: &str) -> TaskContext {
    TaskContext {
        task_id: "task-7".to_string(),
        requester: requester.to_string(),
        sender: "@sender:x.org".to_string(),
        room_id: "!room:x.org".to_string(),
        original_message: "do it".to_string(),
        has_existing_task_id: false,
    }
}

#[test]
fn the_requester_is_told_of_the_end() {
    let done = parse_agent_response("done");
    assert_eq!(agent().resolve_mentions(&done, &task("@asker:x.org")), ["@asker:x.org"]);
    assert!(agent().resolve_mentions(&done, &task("asker")).is_empty());
    let named = parse_agent_response("done [Requester: @z:x.org]");
    assert_eq!(agent().resolve_mentions(&named, &task("@asker:x.org")), ["@z:x.org"]);
}

#[test]
fn the_requester_is_not_told_before_the_end() {
    let handed_on = parse_agent_response("@[bob] can you?");
    assert_eq!(
        agent().resolve_mentions(&handed_on, &task("@asker:x.org")),
        ["@Bobby:y.org", "@bob:x.org"]
    );
}

#[test]
fn an_end_with_helpers_mentions_all() {
    let response = parse_agent_response("[TaskComplete: t] thanks @[@bob:x.org]");
    assert_eq!(
        agent().resolve_mentions(&response, &task("@asker:x.org")),
        ["@asker:x.org", "@bob:x.org"]
    );
    assert_eq!(agent().resolve_mentions(&response, &task("@bob:x.org")), ["@bob:x.org"]);
}

#[test]
fn a_message_mentions_users_or_the_room() {
    assert!(is_mentioned(&message("hi", &["@b:x.org", OWN]), Some(OWN)));
    assert!(!is_mentioned(&message("hi", &["@b:x.org"]), Some(OWN)));
    assert!(!is_mentioned(&message("hi", &[]), None));
    let mut to_all = message("hi", &[]);
    to_all.mentions = Some(MessageMentions { room: true, user_ids: Vec::new() });
    assert!(is_mentioned(&to_all, None));
    to_all.mentions = None;
    assert!(!is_mentioned(&to_all, Some(OWN)));
}

#[test]
fn a_mention_is_put_to_the_model() {
    let mut agent = agent();
    let outcome = agent.on_room_message(&message("what is 2+2?", &[OWN]), Some(OWN));
    assert!(outcome.stored.is_none());
    let (context, prompt) = asked(outcome);
    assert_eq!(
        prompt,
        "[TaskContext]\ntask_id: task-1\nrequester: @asker:x.org\nsender: @asker:x.org\nroom_id: !room:x.org\noriginal_message:\nwhat is 2+2?"
    );
    assert_eq!(context.to_prompt(), prompt);
    assert_eq!(agent.task_counter, 2);
}

#[test]
fn a_message_for_others_is_left_alone() {
    let mut agent = agent();
    let outcome = agent.on_room_message(&message("hi", &["@b:x.org"]), Some(OWN));
    assert!(outcome.stored.is_none());
    assert!(matches!(outcome.reaction, Reaction::NotMentioned));
    assert_eq!(agent.task_counter, 1);
}

#[test]
fn only_text_in_joined_rooms_is_read() {
    let mut agent = agent();
    let mut left = message("[Introduction]: hi", &[OWN]);
    left.joined = false;
    let mut redacted = message("", &[OWN]);
    redacted.content = MessageContent::Redacted;
    let mut image = message("", &[OWN]);
    image.content = MessageContent::Other;
    for unread in [left, redacted, image] {
        let outcome = agent.on_room_message(&unread, None);
        assert!(outcome.stored.is_none());
        assert!(matches!(outcome.reaction, Reaction::Ignored));
    }
    assert!(!agent.adk_agent.is_known_helper_user_id("@asker:x.org"));
}

#[test]
fn an_introduction_is_stored_whether_or_not_it_mentions() {
    let mut agent = agent();
    let outcome = agent.on_room_message(&message("[Introduction]: I ask", &[]), None);
    assert!(matches!(outcome.reaction, Reaction::NotMentioned));
    let stored = outcome.stored.unwrap();
    assert_eq!(stored.sender, "@asker:x.org");
    assert_eq!(stored.introduction, "I ask");
    let loaded = load_introductions(&FileContents::Bytes(stored.document.unwrap())).unwrap();
    let asker = ("@asker:x.org".to_string(), "I ask".to_string());
    assert!(loaded.entries().contains(&asker));
    assert!(loaded.contains_name("@bob:x.org"));
    let outcome = agent.on_room_message(&message("[introduction] I ask", &[OWN]), Some(OWN));
    assert!(outcome.stored.is_some());
    assert!(matches!(outcome.reaction, Reaction::Ask { .. }));
}

#[test]
fn whoever_introduced_themselves_can_be_asked_for_help() {
    let mut agent = agent();
    let name = vec!["asker".to_string()];
    assert!(agent.resolve_user_mentions(&name).is_empty());
    agent.on_room_message(&message("[Introduction]: I ask", &[]), None);
    assert_eq!(agent.resolve_user_mentions(&name), ["@asker:x.org"]);
}

#[test]
fn a_reply_is_sent_with_its_mentions() {
    let reply = agent()
        .on_agent_reply(&task("@asker:x.org"), " [Task: task-7] @[Bobby] please ")
        .unwrap();
    assert_eq!(reply.text, "[Task: task-7] @Bobby please");
    assert_eq!(reply.mentioned_user_ids, ["@Bobby:y.org"]);
    let reply = agent().on_agent_reply(&task("@asker:x.org"), "4").unwrap();
    assert_eq!(reply.text, "4");
    assert_eq!(reply.mentioned_user_ids, ["@asker:x.org"]);
}

#[test]
fn a_blank_reply_is_not_sent() {
    assert!(agent().on_agent_reply(&task("@asker:x.org"), " \n ").is_none());
    assert!(agent().on_agent_reply(&task("@asker:x.org"), "").is_none());
}

#[test]
fn a_reply_of_markers_alone_is_sent() {
    let reply = agent().on_agent_reply(&task("@asker:x.org"), "[Task: t]").unwrap();
    assert_eq!(reply.text, "");
    assert!(reply.mentioned_user_ids.is_empty());
}

#[test]
fn an_introduction_of_the_model_is_read_as_one() {
    let reply = agent().on_agent_reply(&task("@asker:x.org"), "[Introduction]: I am A.\n").unwrap();
    assert_eq!(reply.text, "[Introduction]: I am A.");
    assert_eq!(extract_introduction(&reply.text), Some("I am A.".to_string()));
    let mut known_task = task("@asker:x.org");
    known_task.has_existing_task_id = true;
    let reply = agent().on_agent_reply(&known_task, "[Introduction]: I am A.").unwrap();
    assert_eq!(reply.text, "[Task: task-7] [Introduction]: I am A.");
    assert_eq!(extract_introduction(&reply.text), None);
}

#[test]
fn a_task_is_carried_on_by_the_next_assistant() {
    let reply = agent().on_agent_reply(&task("@asker:x.org"), "@[bob] please").unwrap();
    let mut next = agent();
    let context = next.build_task_context("@me:x.org", "!room:x.org".to_string(), &reply.text);
    assert_eq!(context.task_id, "task-7");
    assert_eq!(context.original_message, "@bob please");
    assert!(context.has_existing_task_id);
    assert_eq!(next.task_counter, 1);
}

fn last_step(agent: &MatrixAdkAgent<()>, written: bool) -> (ConnectPhase, bool) {
    let phase = ConnectPhase::Writing(Vec::new());
    agent.connect_matrix(phase, ConnectEvent::WriteTried(written))
}

#[test]
fn invitations_are_listened_to_once_connected() {
    let joining = agent_with(&[], true);
    assert!(matches!(last_step(&joining, true), (ConnectPhase::Connected, true)));
    assert!(matches!(last_step(&joining, false), (ConnectPhase::Failed(_), false)));
    assert!(matches!(
        joining.connect_matrix(ConnectPhase::Connected, ConnectEvent::LoginTried(true)),
        (ConnectPhase::Connected, false)
    ));
    let staying = agent_with(&[], false);
    assert!(matches!(last_step(&staying, true), (ConnectPhase::Connected, false)));
}

#[test]
fn only_own_invitations_are_taken_up() {
    assert_eq!(on_stripped_state_member(OWN, OWN).map(|join| join.delay), Some(2));
    assert!(on_stripped_state_member("@b:x.org", OWN).is_none());
}

#[test]
fn a_join_that_succeeds_is_over() {
    assert!(matches!(JoinRetry { delay: 2 }.after_try(true), JoinStep::Joined));
}

#[test]
fn joining_is_tried_eleven_times() {
    let mut join = on_stripped_state_member(OWN, OWN);
    let mut waited: Vec<u64> = Vec::new();
    while let Some(retry) = join {
        join = match retry.after_try(false) {
            JoinStep::Wait { seconds, next } => {
                waited.push(seconds);
                next
            }
            JoinStep::Joined => None,
        };
    }
    assert_eq!(waited, [2, 4, 8, 16, 32, 64, 128, 256, 512, 1024, 2048]);
}
