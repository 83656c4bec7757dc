//! Tasks, prompts, answers and what is sent back.

use matrix_adk_agent::task::{
    compose_outgoing_message, parse_agent_response, AgentResponse, TaskContext, TaskMetadata,
};

fn context(has_existing_task_id: bool) -> TaskContext {
    TaskContext {
        task_id: "task-7".to_string(),
        requester: "@asker:x.org".to_string(),
        sender: "@sender:x.org".to_string(),
        room_id: "!room:x.org".to_string(),
        original_message: "do it".to_string(),
        has_existing_task_id,
    }
}

#[test]
fn a_message_names_its_task_and_requester() {
    let metadata = TaskMetadata::parse(" [Task: t-1] please [Requester: @a:x] help ");
    assert_eq!(metadata.task_id, Some("t-1".to_string()));
    assert_eq!(metadata.requester, Some("@a:x".to_string()));
    assert_eq!(metadata.body, "please  help");
    assert!(metadata.had_task_id);
}

#[test]
fn a_plain_message_names_nothing() {
    let metadata = TaskMetadata::parse("  hello ");
    assert_eq!(metadata.task_id, None);
    assert_eq!(metadata.requester, None);
    assert_eq!(metadata.body, "hello");
    assert!(!metadata.had_task_id);
}

#[test]
fn a_completion_marker_stays_in_the_body() {
    let metadata = TaskMetadata::parse("[TaskComplete: t] done");
    assert_eq!(metadata.body, "[TaskComplete: t] done");
    assert!(!metadata.had_task_id);
}

#[test]
fn the_prompt_shows_the_whole_task() {
    assert_eq!(
        context(false).to_prompt(),
        "[TaskContext]\ntask_id: task-7\nrequester: @asker:x.org\nsender: @sender:x.org\nroom_id: !room:x.org\noriginal_message:\ndo it"
    );
}

#[test]
fn an_answer_is_taken_apart() {
    let response = parse_agent_response(
        " [Task: t-1] ask @[Bob] [TaskComplete: t-2] now [Requester: @a:x] ",
    );
    assert_eq!(response.text, "ask @Bob  now");
    assert_eq!(response.helper_names, ["Bob"]);
    assert_eq!(response.task_id, Some("t-1".to_string()));
    assert_eq!(response.completion_task_id, Some("t-2".to_string()));
    assert_eq!(response.requester, Some("@a:x".to_string()));
    assert!(response.is_completion());
}

fn answer(text: &str, helpers: &[&str], completion: Option<&str>) -> AgentResponse {
    AgentResponse {
        text: text.to_string(),
        helper_names: helpers.iter().map(|name| name.to_string()).collect(),
        task_id: None,
        completion_task_id: completion.map(|id| id.to_string()),
        requester: None,
    }
}

#[test]
fn an_answer_completes_unless_it_asks_for_help() {
    assert!(answer("done", &[], None).is_completion());
    assert!(answer("", &[], Some("t")).is_completion());
    assert!(answer("help @a", &["a"], Some("t")).is_completion());
    assert!(!answer("help @a", &["a"], None).is_completion());
    assert!(!answer("", &[], None).is_completion());
}

#[test]
fn a_new_task_that_is_done_at_once_is_not_named() {
    let response = parse_agent_response("The answer is 4.");
    assert_eq!(compose_outgoing_message(&response, &context(false)), "The answer is 4.");
}

#[test]
fn a_known_task_is_named() {
    let response = parse_agent_response("The answer is 4.");
    assert_eq!(
        compose_outgoing_message(&response, &context(true)),
        "[Task: task-7] The answer is 4."
    );
}

#[test]
fn a_task_that_is_handed_on_is_named() {
    let response = parse_agent_response("@[Bob] can you?");
    assert_eq!(
        compose_outgoing_message(&response, &context(false)),
        "[Task: task-7] @Bob can you?"
    );
}

#[test]
fn the_answer_chooses_the_task() {
    let named = parse_agent_response("[Task: t-1] [TaskComplete: t-2] ok");
    assert_eq!(compose_outgoing_message(&named, &context(false)), "[Task: t-1] ok");
    let completed = parse_agent_response("[TaskComplete: t-2] ok");
    assert_eq!(compose_outgoing_message(&completed, &context(false)), "[Task: t-2] ok");
    let unused = parse_agent_response("[Task: t-1] ok");
    assert_eq!(compose_outgoing_message(&unused, &context(false)), "ok");
}

#[test]
fn a_completion_is_never_empty() {
    let response = parse_agent_response("[TaskComplete: t-2]");
    assert_eq!(compose_outgoing_message(&response, &context(false)), "[Task: t-2]");
}

#[test]
fn a_blank_answer_stays_empty() {
    let response = parse_agent_response("[Requester: @a:x]");
    assert_eq!(compose_outgoing_message(&response, &context(false)), "");
    assert_eq!(compose_outgoing_message(&response, &context(true)), "[Task: task-7]");
}

#[test]
fn the_next_agent_reads_the_same_task_and_body() {
    let response = parse_agent_response("@[Bob] can you? [Task: t-9]");
    let sent = compose_outgoing_message(&response, &context(false));
    let read = TaskMetadata::parse(&sent);
    assert_eq!(read.task_id, Some("t-9".to_string()));
    assert_eq!(read.body, "@Bob can you?");
}
