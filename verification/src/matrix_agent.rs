//! The assistant in its rooms: what it makes of a message, whom it answers and
//! mentions, and how it joins.

use crate::adk;
use crate::adk::AdkOpenAiAgent;
use crate::introductions;
use crate::introductions::StoreError;
use crate::markers;
use crate::markers::extract_introduction;
use crate::matrix;
use crate::matrix::{ConnectEvent, ConnectPhase, MatrixAgent};
use crate::outside;
use crate::outside::parse_user_id;
use crate::task;
use crate::task::{
    compose_outgoing_message, parse_agent_response, AgentResponse, TaskContext, TaskMetadata,
};
use crate::text;
use crate::text::{decimal_text, insert_ascending, is_blank, same_text};
use vstd::prelude::*;

verus! {

/// The task id with the number `n`.
pub open spec fn task_id_text(n: u64) -> Seq<char> {
    "task-"@ + text::decimal(n as nat)
}

/// The number that follows `n`. The last one is followed by zero.
pub open spec fn next_task_number(n: u64) -> u64 {
    if n == u64::MAX {
        0
    } else {
        (n + 1) as u64
    }
}

/// What a message holds.
pub enum MessageContent {
    /// It was taken back.
    Redacted,
    /// Text.
    Text(String),
    /// Anything else.
    Other,
}

/// Whom a message mentions.
pub struct MessageMentions {
    /// Everybody in the room.
    pub room: bool,
    /// These users.
    pub user_ids: Vec<String>,
}

/// A message in a room.
pub struct RoomMessage {
    /// Whether the assistant has joined the room.
    pub joined: bool,
    /// The room.
    pub room_id: String,
    /// Who sent the message.
    pub sender: String,
    /// What it holds.
    pub content: MessageContent,
    /// Whom it mentions.
    pub mentions: Option<MessageMentions>,
}

impl RoomMessage {
    /// The text of a message that the assistant reads: one in a room that it has
    /// joined.
    pub open spec fn readable_text(self) -> Option<Seq<char>> {
        match self.content {
            MessageContent::Text(body) => if self.joined {
                Some(body@)
            } else {
                None
            },
            _ => None,
        }
    }

    /// The message mentions the user `own`, alone or with the whole room.
    pub open spec fn mentions_user(self, own: Option<Seq<char>>) -> bool {
        match self.mentions {
            Some(mentions) => mentions.room || (own matches Some(own) && text::texts(
                mentions.user_ids@,
            ).contains(own)),
            None => false,
        }
    }

    /// Whether the message mentions the assistant depends on who that is.
    pub open spec fn names_users(self) -> bool {
        self.mentions matches Some(mentions) && !mentions.room && mentions.user_ids@.len() > 0
    }
}

/// The contents of an optional string slice.
pub open spec fn optional_str(value: Option<&str>) -> Option<Seq<char>> {
    match value {
        Some(s) => Some(s@),
        None => None,
    }
}

/// Whether a message mentions the user `own`.
pub fn is_mentioned(message: &RoomMessage, own: Option<&str>) -> (yes: bool)
    requires
        message.names_users() ==> own is Some,
    ensures
        yes == message.mentions_user(optional_str(own)),
{
    let mentions = match &message.mentions {
        Some(mentions) => mentions,
        None => {
            return false;
        },
    };
    if mentions.room {
        return true;
    }
    let mut i: usize = 0;
    while i < mentions.user_ids.len()
        invariant
            message.mentions == Some(*mentions),
            !mentions.room,
            message.names_users() ==> own is Some,
            i <= mentions.user_ids@.len(),
            forall|j: int|
                0 <= j < i ==> Some(#[trigger] text::texts(mentions.user_ids@)[j]) != optional_str(
                    own,
                ),
        decreases mentions.user_ids@.len() - i,
    {
        let own = own.unwrap();
        assert(text::texts(mentions.user_ids@)[i as int] == mentions.user_ids@[i as int]@);
        if same_text(mentions.user_ids[i].as_str(), own) {
            return true;
        }
        i = i + 1;
    }
    false
}

/// An introduction that was remembered.
pub struct StoredIntroduction {
    /// Whose it is.
    pub sender: String,
    /// What was said.
    pub introduction: String,
    /// The document for the store file.
    pub document: Result<Vec<u8>, StoreError>,
}

/// What the assistant does about a message.
pub enum Reaction {
    /// Nothing: the message is not for reading.
    Ignored,
    /// Nothing: the message does not mention the assistant.
    NotMentioned,
    /// It puts the task to the model.
    Ask {
        /// The task.
        context: TaskContext,
        /// What the model is asked.
        prompt: String,
    },
}

/// What came of a message.
pub struct MessageOutcome {
    /// The introduction that the message was, if it was one.
    pub stored: Option<StoredIntroduction>,
    /// What the assistant does.
    pub reaction: Reaction,
}

/// A message to send to the room.
pub struct OutgoingMessage {
    /// What it says.
    pub text: String,
    /// Whom it mentions, in ascending order.
    pub mentioned_user_ids: Vec<String>,
}

/// The user ids that helpers answer to, of which the server accepts the form.
pub open spec fn helper_mentions(
    known: Map<Seq<char>, Seq<char>>,
    helper_names: Seq<Seq<char>>,
) -> Set<Seq<char>> {
    Set::new(
        |id: Seq<char>|
            outside::is_user_id(id) && exists|i: int|
                0 <= i < helper_names.len() && introductions::helper_ids(
                    known,
                    #[trigger] helper_names[i],
                ).contains(id),
    )
}

/// Whom an answer that ends a task goes to.
pub open spec fn requester_of(
    response: task::ResponseView,
    context: task::TaskContextView,
) -> Seq<char> {
    match response.requester {
        Some(requester) => requester,
        None => context.requester,
    }
}

/// Whom an answer mentions: the helpers that it asks for and, where it ends the
/// task, the one who asked. Nothing that is no user id is mentioned.
pub open spec fn response_mentions(
    known: Map<Seq<char>, Seq<char>>,
    response: task::ResponseView,
    context: task::TaskContextView,
) -> Set<Seq<char>> {
    let helpers = helper_mentions(known, response.helper_names);
    let requester = requester_of(response, context);
    if response.completes() && outside::is_user_id(requester) {
        helpers.insert(requester)
    } else {
        helpers
    }
}

/// The joining of a room, which is tried again when it fails.
pub struct JoinRetry {
    /// How many seconds to wait after the next failure.
    pub delay: u64,
}

/// What follows a try to join a room.
pub enum JoinStep {
    /// The assistant is in the room, and listens to its messages.
    Joined,
    /// It waits.
    Wait {
        /// How many seconds.
        seconds: u64,
        /// What follows the waiting: another try, or nothing.
        next: Option<JoinRetry>,
    },
}

/// The longest that is waited for another try, in seconds.
pub const LONGEST_JOIN_DELAY: u64 = 3600;

/// What follows the waiting after a failure: another try, before whose failure
/// the waiting doubles, unless that is too long.
pub open spec fn next_join(join: JoinRetry) -> Option<JoinRetry> {
    if 2 * join.delay > LONGEST_JOIN_DELAY {
        None
    } else {
        Some(JoinRetry { delay: (2 * join.delay) as u64 })
    }
}

/// The joining after `n` failures, if it is still tried.
pub open spec fn join_after(n: nat) -> Option<JoinRetry>
    decreases n,
{
    if n == 0 {
        Some(JoinRetry { delay: 2 })
    } else {
        match join_after((n - 1) as nat) {
            Some(join) => next_join(join),
            None => None,
        }
    }
}

/// An invitation came. It is taken up if it is for the assistant itself.
pub fn on_stripped_state_member(state_key: &str, own_user_id: &str) -> (join: Option<JoinRetry>)
    ensures
        join == if state_key@ == own_user_id@ {
            join_after(0)
        } else {
            None
        },
{
    if same_text(state_key, own_user_id) {
        Some(JoinRetry { delay: 2 })
    } else {
        None
    }
}

impl JoinRetry {
    /// The waiting is not too long.
    pub open spec fn wf(self) -> bool {
        self.delay <= LONGEST_JOIN_DELAY
    }

    /// Goes on after a try to join.
    pub fn after_try(&self, joined: bool) -> (step: JoinStep)
        requires
            self.wf(),
        ensures
            joined ==> step is Joined,
            !joined ==> step == (JoinStep::Wait { seconds: self.delay, next: next_join(*self) }),
            step matches JoinStep::Wait { next: Some(next), .. } ==> next.wf(),
    {
        if joined {
            return JoinStep::Joined;
        }
        let doubled: u64 = 2 * self.delay;
        let next = if doubled > LONGEST_JOIN_DELAY {
            None
        } else {
            Some(JoinRetry { delay: doubled })
        };
        JoinStep::Wait { seconds: self.delay, next }
    }
}

/// Adds a parsed user id to the mentions, at its place, unless it is there.
pub fn push_mention(ids: &mut Vec<String>, parsed: Option<String>)
    requires
        text::is_ascending(text::texts(old(ids)@)),
    ensures
        text::is_ascending(text::texts(final(ids)@)),
        text::texts(final(ids)@).to_set() == match parsed {
            Some(id) => text::texts(old(ids)@).to_set().insert(id@),
            None => text::texts(old(ids)@).to_set(),
        },
{
    if let Some(id) = parsed {
        insert_ascending(ids, id);
    }
}

/// The assistant, with a Matrix client `C`.
pub struct MatrixAdkAgent<C> {
    /// The side that faces the Matrix server.
    pub matrix_agent: MatrixAgent<C>,
    /// The side that faces the model.
    pub adk_agent: AdkOpenAiAgent,
    /// Whether the assistant joins the rooms that it is invited to.
    pub auto_join: bool,
    /// The number of the next task.
    pub task_counter: u64,
}

impl<C> MatrixAdkAgent<C> {
    /// The introductions are in order.
    pub open spec fn wf(self) -> bool {
        self.adk_agent.wf()
    }

    /// Everything but the introductions and the number of the next task is as in
    /// `other`.
    pub open spec fn same_setup(self, other: Self) -> bool {
        &&& self.matrix_agent == other.matrix_agent
        &&& self.auto_join == other.auto_join
        &&& self.adk_agent.introductions_store_file == other.adk_agent.introductions_store_file
        &&& self.adk_agent.open_responses_base_url == other.adk_agent.open_responses_base_url
    }

    /// Puts the two sides together. Tasks are numbered from one.
    pub fn new(matrix_agent: MatrixAgent<C>, adk_agent: AdkOpenAiAgent, auto_join: bool) -> (agent:
        Self)
        requires
            adk_agent.wf(),
        ensures
            agent.wf(),
            agent.matrix_agent == matrix_agent,
            agent.adk_agent == adk_agent,
            agent.auto_join == auto_join,
            agent.task_counter == 1,
    {
        MatrixAdkAgent { matrix_agent, adk_agent, auto_join, task_counter: 1 }
    }

    /// Goes on with the connecting. Says too whether invitations are listened to
    /// from now on.
    pub fn connect_matrix(&self, phase: ConnectPhase, event: ConnectEvent) -> (next: (
        ConnectPhase,
        bool,
    ))
        ensures
            matrix::leads_to(phase, event, next.0),
            next.1 == (self.auto_join && !(phase is Connected) && next.0 is Connected),
    {
        let was_connected = matches!(phase, ConnectPhase::Connected);
        let next_phase = MatrixAgent::<C>::connect_matrix(phase, event);
        let is_connected = matches!(next_phase, ConnectPhase::Connected);
        (next_phase, self.auto_join && !was_connected && is_connected)
    }

    /// Names a new task.
    pub fn next_task_id(&mut self) -> (id: String)
        ensures
            id@ == task_id_text(old(self).task_counter),
            *final(self) == (MatrixAdkAgent {
                task_counter: next_task_number(old(self).task_counter),
                ..*old(self)
            }),
    {
        let number: u64 = self.task_counter;
        self.task_counter = number.wrapping_add(1);
        "task-".to_owned().concat(decimal_text(number).as_str())
    }

    /// Finds out which task a message belongs to.
    pub fn build_task_context(&mut self, sender: &str, room_id: String, message: &str) -> (context:
        TaskContext)
        ensures
            context@ == task::context_of(
                sender@,
                room_id@,
                message@,
                task_id_text(old(self).task_counter),
            ),
            context@.wf(),
            *final(self) == (MatrixAdkAgent {
                task_counter: if context.has_existing_task_id {
                    old(self).task_counter
                } else {
                    next_task_number(old(self).task_counter)
                },
                ..*old(self)
            }),
    {
        proof {
            law_task_id_is_marker_text(self.task_counter);
            markers::law_marker_value_is_marker_text(message@, "[Task:"@);
        }
        let parsed = TaskMetadata::parse(message);
        let task_id = match parsed.task_id {
            Some(task_id) => task_id,
            None => self.next_task_id(),
        };
        let requester = match parsed.requester {
            Some(requester) => requester,
            None => sender.to_owned(),
        };
        TaskContext {
            task_id,
            requester,
            sender: sender.to_owned(),
            room_id,
            original_message: parsed.body,
            has_existing_task_id: parsed.had_task_id,
        }
    }

    /// The user ids of the helpers with these names, in ascending order.
    pub fn resolve_user_mentions(&self, helper_names: &Vec<String>) -> (ids: Vec<String>)
        requires
            self.wf(),
        ensures
            text::is_ascending(text::texts(ids@)),
            text::texts(ids@).to_set() == helper_mentions(
                self.adk_agent.introductions@,
                text::texts(helper_names@),
            ),
    {
        let ghost known = self.adk_agent.introductions@;
        let ghost names = text::texts(helper_names@);
        let mut ids: Vec<String> = Vec::new();
        let mut i: usize = 0;
        assert(text::texts(ids@).to_set() =~= helper_mentions(known, names.take(0)));
        while i < helper_names.len()
            invariant
                self.wf(),
                known == self.adk_agent.introductions@,
                names == text::texts(helper_names@),
                i <= helper_names@.len(),
                text::is_ascending(text::texts(ids@)),
                text::texts(ids@).to_set() == helper_mentions(known, names.take(i as int)),
            decreases helper_names@.len() - i,
        {
            let found = self.adk_agent.find_helper_user_ids_by_name(helper_names[i].as_str());
            let ghost candidates = text::texts(found@);
            let ghost before = text::texts(ids@).to_set();
            assert(names[i as int] == helper_names@[i as int]@);
            let mut j: usize = 0;
            while j < found.len()
                invariant
                    candidates == text::texts(found@),
                    j <= found@.len(),
                    text::is_ascending(text::texts(ids@)),
                    forall|id: Seq<char>| #[trigger]
                        text::texts(ids@).to_set().contains(id) <==> before.contains(id) || (
                        outside::is_user_id(id) && candidates.take(j as int).contains(id)),
                decreases found@.len() - j,
            {
                let parsed = parse_user_id(found[j].as_str());
                let ghost so_far = text::texts(ids@).to_set();
                let ghost candidate = candidates[j as int];
                push_mention(&mut ids, parsed);
                proof {
                    assert(candidate == found@[j as int]@);
                    assert(candidates.take(j + 1) =~= candidates.take(j as int).push(candidate));
                    assert forall|id: Seq<char>| #[trigger]
                        text::texts(ids@).to_set().contains(id) <==> before.contains(id) || (
                        outside::is_user_id(id) && candidates.take(j + 1).contains(id)) by {
                        lemma_push_contains(candidates.take(j as int), candidate, id);
                        assert(so_far.contains(id) <==> before.contains(id) || (
                        outside::is_user_id(id) && candidates.take(j as int).contains(id)));
                    }
                }
                j = j + 1;
            }
            proof {
                assert(candidates.take(j as int) =~= candidates);
                assert forall|id: Seq<char>| #[trigger]
                    text::texts(ids@).to_set().contains(id) <==> helper_mentions(
                        known,
                        names.take(i + 1),
                    ).contains(id) by {
                    lemma_helper_mentions_push(known, names, i as int, id);
                    assert(before.contains(id) <==> helper_mentions(
                        known,
                        names.take(i as int),
                    ).contains(id));
                    assert(candidates.to_set().contains(id) <==> introductions::helper_ids(
                        known,
                        names[i as int],
                    ).contains(id));
                }
                assert(text::texts(ids@).to_set() =~= helper_mentions(known, names.take(i + 1)));
            }
            i = i + 1;
        }
        assert(names.take(i as int) =~= names);
        ids
    }

    /// Whom an answer mentions, in ascending order.
    pub fn resolve_mentions(&self, response: &AgentResponse, context: &TaskContext) -> (ids: Vec<
        String,
    >)
        requires
            self.wf(),
        ensures
            text::is_ascending(text::texts(ids@)),
            text::texts(ids@).to_set() == response_mentions(
                self.adk_agent.introductions@,
                response@,
                context@,
            ),
    {
        let mut ids = self.resolve_user_mentions(&response.helper_names);
        if response.is_completion() {
            let requester = match &response.requester {
                Some(requester) => requester.as_str(),
                None => context.requester.as_str(),
            };
            push_mention(&mut ids, parse_user_id(requester));
        }
        ids
    }

    /// Makes up its mind about a message. `own_user_id` is the id that the
    /// assistant is logged in under.
    pub fn on_room_message(&mut self, message: &RoomMessage, own_user_id: Option<&str>) -> (outcome:
        MessageOutcome)
        requires
            old(self).wf(),
            message.readable_text() is Some && message.names_users() ==> own_user_id is Some,
        ensures
            final(self).wf(),
            final(self).same_setup(*old(self)),
            match message.readable_text() {
                None => {
                    &&& *final(self) == *old(self)
                    &&& outcome.stored is None
                    &&& outcome.reaction is Ignored
                },
                Some(body) => {
                    &&& match markers::introduction(body) {
                        Some(introduction) => {
                            &&& final(self).adk_agent.introductions@ == old(
                                self,
                            ).adk_agent.introductions@.insert(message.sender@, introduction)
                            &&& outcome.stored matches Some(stored) && stored.sender@
                                == message.sender@ && stored.introduction@ == introduction
                                && stored.document is Ok && outside::document_entries(
                                stored.document->Ok_0@,
                            ) == Some(final(self).adk_agent.introductions@)
                        },
                        None => {
                            &&& final(self).adk_agent == old(self).adk_agent
                            &&& outcome.stored is None
                        },
                    }
                    &&& if message.mentions_user(optional_str(own_user_id)) {
                        &&& outcome.reaction matches Reaction::Ask { context, prompt }
                            && context@.wf() && prompt@ == context@.prompt() && context@
                            == task::context_of(
                            message.sender@,
                            message.room_id@,
                            body,
                            task_id_text(old(self).task_counter),
                        ) && final(self).task_counter == (if context.has_existing_task_id {
                            old(self).task_counter
                        } else {
                            next_task_number(old(self).task_counter)
                        })
                    } else {
                        &&& outcome.reaction is NotMentioned
                        &&& final(self).task_counter == old(self).task_counter
                    }
                },
            },
    {
        if !message.joined {
            return MessageOutcome { stored: None, reaction: Reaction::Ignored };
        }
        let body = match &message.content {
            MessageContent::Text(body) => body.as_str(),
            MessageContent::Redacted => {
                return MessageOutcome { stored: None, reaction: Reaction::Ignored };
            },
            MessageContent::Other => {
                return MessageOutcome { stored: None, reaction: Reaction::Ignored };
            },
        };
        let stored = match extract_introduction(body) {
            Some(introduction) => {
                let sender = message.sender.clone();
                let document = self.adk_agent.remember_introduction(
                    sender.clone(),
                    introduction.clone(),
                );
                Some(StoredIntroduction { sender, introduction, document })
            },
            None => None,
        };
        if !is_mentioned(message, own_user_id) {
            return MessageOutcome { stored, reaction: Reaction::NotMentioned };
        }
        let context = self.build_task_context(
            message.sender.as_str(),
            message.room_id.clone(),
            body,
        );
        let prompt = context.to_prompt();
        MessageOutcome { stored, reaction: Reaction::Ask { context, prompt } }
    }

    /// Makes a message of the model's answer. A blank answer is not sent.
    pub fn on_agent_reply(&self, context: &TaskContext, reply: &str) -> (outgoing: Option<
        OutgoingMessage,
    >)
        requires
            self.wf(),
        ensures
            match outgoing {
                Some(outgoing) => {
                    &&& text::trim(reply@).len() > 0
                    &&& outgoing.text@ == task::outgoing_text(task::response_of(reply@), context@)
                    &&& text::is_ascending(text::texts(outgoing.mentioned_user_ids@))
                    &&& text::texts(outgoing.mentioned_user_ids@).to_set() == response_mentions(
                        self.adk_agent.introductions@,
                        task::response_of(reply@),
                        context@,
                    )
                },
                None => text::trim(reply@).len() == 0,
            },
    {
        if is_blank(reply) {
            return None;
        }
        let response = parse_agent_response(reply);
        let mentioned_user_ids = self.resolve_mentions(&response, context);
        let text = compose_outgoing_message(&response, context);
        Some(OutgoingMessage { text, mentioned_user_ids })
    }
}

/// What a longer list holds.
proof fn lemma_push_contains(list: Seq<Seq<char>>, item: Seq<char>, id: Seq<char>)
    ensures
        list.push(item).contains(id) <==> list.contains(id) || id == item,
{
    if list.contains(id) {
        let k = choose|k: int| 0 <= k < list.len() && list[k] == id;
        assert(list.push(item)[k] == id);
    }
    if id == item {
        assert(list.push(item)[list.len() as int] == id);
    }
    if list.push(item).contains(id) && id != item {
        let k = choose|k: int| 0 <= k < list.push(item).len() && list.push(item)[k] == id;
        assert(list[k] == id);
    }
}

/// Whom one more helper name adds.
proof fn lemma_helper_mentions_push(
    known: Map<Seq<char>, Seq<char>>,
    names: Seq<Seq<char>>,
    i: int,
    id: Seq<char>,
)
    requires
        0 <= i < names.len(),
    ensures
        helper_mentions(known, names.take(i + 1)).contains(id) <==> helper_mentions(
            known,
            names.take(i),
        ).contains(id) || (outside::is_user_id(id) && introductions::helper_ids(
            known,
            names[i],
        ).contains(id)),
{
    let a = names.take(i);
    let b = names.take(i + 1);
    if helper_mentions(known, b).contains(id) {
        let k = choose|k: int|
            0 <= k < b.len() && introductions::helper_ids(known, #[trigger] b[k]).contains(id);
        if k < i {
            assert(a[k] == b[k]);
        }
    }
    if helper_mentions(known, a).contains(id) {
        let k = choose|k: int|
            0 <= k < a.len() && introductions::helper_ids(known, #[trigger] a[k]).contains(id);
        assert(b[k] == a[k]);
    }
    assert(b[i] == names[i]);
}

/// The name of a new task can stand in a marker.
pub proof fn law_task_id_is_marker_text(n: u64)
    ensures
        markers::is_marker_text(task_id_text(n)),
{
    reveal_strlit("task-");
    text::lemma_decimal_digits(n as nat);
    let id = task_id_text(n);
    let digits = text::decimal(n as nat);
    assert forall|i: int| 0 <= i < id.len() implies #[trigger] id[i] != ']'
        && !text::is_white_space(id[i]) by {
        if i >= 5 {
            assert(id[i] == digits[i - 5]);
        }
    }
}

/// No two numbers give the same name to a task.
pub proof fn law_task_ids_are_distinct(m: u64, n: u64)
    ensures
        task_id_text(m) == task_id_text(n) ==> m == n,
{
    if task_id_text(m) == task_id_text(n) {
        assert(task_id_text(m).skip("task-"@.len() as int) =~= text::decimal(m as nat));
        assert(task_id_text(n).skip("task-"@.len() as int) =~= text::decimal(n as nat));
        text::lemma_decimal_injective(m as nat, n as nat);
    }
}

/// The number of the task that follows `n` by `k`.
pub open spec fn task_number_after(n: u64, k: nat) -> u64
    decreases k,
{
    if k == 0 {
        n
    } else {
        next_task_number(task_number_after(n, (k - 1) as nat))
    }
}

/// Task numbers go round.
proof fn lemma_task_number_after(n: u64, k: nat)
    ensures
        k <= u64::MAX - n ==> task_number_after(n, k) == n + k,
        u64::MAX - n < k <= u64::MAX ==> task_number_after(n, k) == n + k - u64::MAX - 1,
    decreases k,
{
    if k > 0 {
        lemma_task_number_after(n, (k - 1) as nat);
    }
}

/// Of all task ids that are given out, no two are the same before all numbers
/// have been used.
pub proof fn law_task_ids_do_not_repeat(n: u64, k: nat)
    requires
        0 < k <= u64::MAX,
    ensures
        task_id_text(task_number_after(n, k)) != task_id_text(n),
{
    lemma_task_number_after(n, k);
    law_task_ids_are_distinct(task_number_after(n, k), n);
}

/// A self-introduction that the model gives reaches the room as one: where it
/// goes out without a task's name, and nothing of it is taken for a marker or a
/// tag, its readers find the text that was introduced, unless that is blank.
pub proof fn law_introduction_reaches_room(
    introduction: Seq<char>,
    context: task::TaskContextView,
)
    requires
        !task::names_task(task::response_of(adk::introduction_reply(introduction)), context),
        markers::without_helper_tags(
            task::without_task_markers(adk::introduction_reply(introduction)),
        ) == adk::introduction_reply(introduction),
    ensures
        markers::introduction(
            task::outgoing_text(
                task::response_of(adk::introduction_reply(introduction)),
                context,
            ),
        ) == (if text::trim(introduction).len() == 0 {
            None
        } else {
            Some(text::trim(introduction))
        }),
{
    reveal_strlit("[Introduction]: ");
    reveal_strlit("[Introduction]");
    let reply = adk::introduction_reply(introduction);
    let opening = "[Introduction]"@ + seq![':'];
    let spaced = seq![' '] + introduction;
    let rest = text::trim_end(spaced);
    assert(reply =~= opening + spaced);
    assert(text::trim_start(reply) == reply);
    text::lemma_trim_end_append(opening, spaced);
    let sent = opening + rest;
    assert(task::outgoing_text(task::response_of(reply), context) == sent);
    assert(text::trim_start(sent) == sent);
    assert(sent.subrange(0, 14) =~= "[Introduction]"@);
    let opened = sent.skip(14);
    assert(opened[0] == ':');
    assert(opened.skip(1) =~= rest);
    text::lemma_trim_end_shape(spaced);
    assert(rest.len() > 0 ==> rest[0] == ' ');
    assert(markers::skip_colons(rest) == rest);
    assert(markers::skip_colons(opened) == rest);
    text::lemma_trim_of_trim_end(spaced);
    text::lemma_trim_after_space(introduction);
}

/// Everyone who is mentioned has a user id, and is known by an introduction or is
/// the one who asked.
pub proof fn law_mentioned_users_are_known(
    known: Map<Seq<char>, Seq<char>>,
    response: task::ResponseView,
    context: task::TaskContextView,
    id: Seq<char>,
)
    requires
        response_mentions(known, response, context).contains(id),
    ensures
        outside::is_user_id(id),
        known.contains_key(id) || id == requester_of(response, context),
{
}

/// A helper that an answer asks for by name is mentioned.
pub proof fn law_named_helper_is_mentioned(
    known: Map<Seq<char>, Seq<char>>,
    response: task::ResponseView,
    context: task::TaskContextView,
    id: Seq<char>,
    name: Seq<char>,
)
    requires
        response.helper_names.contains(name),
        introductions::helper_ids(known, name).contains(id),
        outside::is_user_id(id),
    ensures
        response_mentions(known, response, context).contains(id),
{
    let i = choose|i: int|
        0 <= i < response.helper_names.len() && response.helper_names[i] == name;
    assert(introductions::helper_ids(known, response.helper_names[i]).contains(id));
}

/// Whoever asks is told the end: an answer that ends a task mentions the sender
/// of the message, unless the message or the answer names another requester.
pub proof fn law_sender_is_told(
    known: Map<Seq<char>, Seq<char>>,
    response: task::ResponseView,
    sender: Seq<char>,
    room_id: Seq<char>,
    message: Seq<char>,
    new_id: Seq<char>,
)
    requires
        outside::is_user_id(sender),
        markers::marker_value(message, "[Requester:"@, ']') is None,
        response.requester is None,
        response.completes(),
    ensures
        response_mentions(
            known,
            response,
            task::context_of(sender, room_id, message, new_id),
        ).contains(sender),
{
}

/// An answer that hands a task on without ending it does not mention the one who
/// asked, unless they are asked for help themselves.
pub proof fn law_requester_is_not_told_early(
    known: Map<Seq<char>, Seq<char>>,
    response: task::ResponseView,
    context: task::TaskContextView,
)
    requires
        !response.completes(),
    ensures
        response_mentions(known, response, context) == helper_mentions(
            known,
            response.helper_names,
        ),
{
}

/// One more introduction takes no mention away, whatever it says and whosever it
/// is.
pub proof fn law_mentions_grow(
    known: Map<Seq<char>, Seq<char>>,
    name: Seq<char>,
    introduction: Seq<char>,
    response: task::ResponseView,
    context: task::TaskContextView,
)
    ensures
        response_mentions(known, response, context).subset_of(
            response_mentions(known.insert(name, introduction), response, context),
        ),
{
    let more = known.insert(name, introduction);
    assert forall|id: Seq<char>|
        helper_mentions(known, response.helper_names).contains(id) implies helper_mentions(
        more,
        response.helper_names,
    ).contains(id) by {
        let i = choose|i: int|
            0 <= i < response.helper_names.len() && introductions::helper_ids(
                known,
                #[trigger] response.helper_names[i],
            ).contains(id);
        introductions::law_helpers_stay_found(
            known,
            name,
            introduction,
            response.helper_names[i],
        );
        assert(introductions::helper_ids(more, response.helper_names[i]).contains(id));
    }
}

/// Joining is tried eleven times. The waiting begins with two seconds and
/// doubles with every failure.
pub proof fn law_join_delay_doubles(n: nat)
    ensures
        match join_after(n) {
            Some(join) => n <= 10 && join.delay == vstd::arithmetic::power2::pow2(n + 1)
                && join.wf(),
            None => n > 10,
        },
    decreases n,
{
    vstd::arithmetic::power2::lemma2_to64();
    if n > 0 {
        law_join_delay_doubles((n - 1) as nat);
        if n <= 11 {
            vstd::arithmetic::power2::lemma_pow2_unfold(n + 1);
        }
    }
}

/// The one who asked is told the end: an answer that ends a task mentions whom it
/// names as the requester, or else the requester of the task, wherever that is a
/// user id. It ends the task where it says so, or says something and asks for no
/// helper.
pub proof fn law_requester_is_told(
    known: Map<Seq<char>, Seq<char>>,
    response: task::ResponseView,
    context: task::TaskContextView,
)
    requires
        response.completion_task_id is Some || (response.helper_names.len() == 0
            && response.text.len() > 0),
    ensures
        response.requester is None && outside::is_user_id(context.requester) ==> response_mentions(
            known,
            response,
            context,
        ).contains(context.requester),
        response.requester is Some && outside::is_user_id(response.requester->Some_0)
            ==> response_mentions(known, response, context).contains(response.requester->Some_0),
{
}

/// Exactly these are mentioned: the user ids that a helper's name in the answer is
/// a part of, without regard to case, among those who have introduced themselves,
/// and, where the answer ends the task, the requester that it names or else the
/// task's own. Nobody else is, not even the sender.
pub proof fn law_mentions_are_helpers_and_requester(
    known: Map<Seq<char>, Seq<char>>,
    response: task::ResponseView,
    context: task::TaskContextView,
    id: Seq<char>,
)
    ensures
        response_mentions(known, response, context).contains(id) <==> outside::is_user_id(id) && (
        (known.contains_key(id) && exists|i: int, a: Seq<char>, b: Seq<char>|
            0 <= i < response.helper_names.len() && outside::lowercase(
                text::trim(response.helper_names[i]),
            ).len() > 0 && outside::lowercase(id) == #[trigger] (a + outside::lowercase(
                text::trim(response.helper_names[i]),
            ) + b)) || ((response.completion_task_id is Some || (response.helper_names.len() == 0
            && response.text.len() > 0)) && id == (if response.requester is Some {
            response.requester->Some_0
        } else {
            context.requester
        }))),
{
    let names = response.helper_names;
    if helper_mentions(known, names).contains(id) {
        let i = choose|i: int|
            0 <= i < names.len() && introductions::helper_ids(
                known,
                #[trigger] names[i],
            ).contains(id);
        introductions::law_helpers_answer_to_parts(known, names[i], id);
        let (a, b) = choose|a: Seq<char>, b: Seq<char>|
            outside::lowercase(id) == #[trigger] (a + outside::lowercase(text::trim(names[i]))
                + b);
        assert(outside::lowercase(id) == a + outside::lowercase(text::trim(names[i])) + b);
    }
    if outside::is_user_id(id) && known.contains_key(id) && exists|
        i: int,
        a: Seq<char>,
        b: Seq<char>,
    |
        0 <= i < names.len() && outside::lowercase(text::trim(names[i])).len() > 0
            && outside::lowercase(id) == #[trigger] (a + outside::lowercase(text::trim(names[i]))
            + b) {
        let (i, a, b) = choose|i: int, a: Seq<char>, b: Seq<char>|
            0 <= i < names.len() && outside::lowercase(text::trim(names[i])).len() > 0
                && outside::lowercase(id) == #[trigger] (a + outside::lowercase(
                text::trim(names[i]),
            ) + b);
        introductions::law_helpers_answer_to_parts(known, names[i], id);
        assert(introductions::helper_ids(known, names[i]).contains(id));
    }
}

/// A task that was handed on goes back to the one who asked, and not to the one who
/// handed it on: where a message names its requester and the answer ends the task
/// without naming another, that requester is mentioned if it is a user id, and the
/// sender only if it is the requester or a helper that the answer asks for.
pub proof fn law_named_requester_is_told(
    known: Map<Seq<char>, Seq<char>>,
    response: task::ResponseView,
    sender: Seq<char>,
    room_id: Seq<char>,
    front: Seq<char>,
    requester: Seq<char>,
    back: Seq<char>,
    new_id: Seq<char>,
)
    requires
        !text::contains(front, "[Requester:"@),
        !requester.contains(']'),
        text::trim(requester).len() > 0,
        response.requester is None,
        response.completion_task_id is Some || (response.helper_names.len() == 0
            && response.text.len() > 0),
    ensures
        ({
            let message = front + "[Requester:"@ + (requester + seq![']'] + back);
            let context = task::context_of(sender, room_id, message, new_id);
            let mentioned = response_mentions(known, response, context);
            &&& outside::is_user_id(text::trim(requester)) ==> mentioned.contains(
                text::trim(requester),
            )
            &&& mentioned.contains(sender) ==> sender == text::trim(requester) || exists|i: int|
                0 <= i < response.helper_names.len() && introductions::helper_ids(
                    known,
                    #[trigger] response.helper_names[i],
                ).contains(sender)
        }),
{
    task::law_requester_marker_is_read(sender, room_id, front, requester, back, new_id);
}

/// A message mentions a user exactly where it mentions the whole room or lists the
/// user's id.
pub proof fn law_mention_is_of_room_or_user(message: RoomMessage, own: Seq<char>)
    ensures
        message.mentions is None ==> !message.mentions_user(Some(own)),
        message.mentions is Some && message.mentions->Some_0.room ==> message.mentions_user(
            Some(own),
        ) && message.mentions_user(None),
        message.mentions is Some && !message.mentions->Some_0.room ==> {
            &&& message.mentions_user(Some(own)) <==> exists|i: int|
                0 <= i < message.mentions->Some_0.user_ids@.len() && (
                #[trigger] message.mentions->Some_0.user_ids@[i])@ == own
            &&& !message.mentions_user(None)
        },
{
    if let Some(mentions) = message.mentions {
        let ids = mentions.user_ids@;
        if text::texts(ids).contains(own) {
            let i = choose|i: int| 0 <= i < ids.len() && text::texts(ids)[i] == own;
            assert(ids[i]@ == own);
        }
        if exists|i: int| 0 <= i < ids.len() && (#[trigger] ids[i])@ == own {
            let i = choose|i: int| 0 <= i < ids.len() && (#[trigger] ids[i])@ == own;
            assert(text::texts(ids)[i] == own);
        }
    }
}

/// The assistant reads the whole text of every text message in a room that it has
/// joined, and nothing else.
pub proof fn law_joined_text_is_read(message: RoomMessage)
    ensures
        message.joined && message.content is Text ==> message.readable_text() == Some(
            message.content->Text_0@,
        ),
        !message.joined || !(message.content is Text) ==> message.readable_text() is None,
{
}

/// A task id is `task-` and its number in decimal notation, and the numbers follow
/// one another until the last.
pub proof fn law_task_id_shows_its_number(n: u64)
    ensures
        text::starts_with(task_id_text(n), "task-"@),
        text::digits_value(task_id_text(n).skip(5)) == n,
        n > 0 ==> task_id_text(n)[5] != '0',
        n < u64::MAX ==> next_task_number(n) == n + 1,
        next_task_number(u64::MAX) == 0,
{
    reveal_strlit("task-");
    text::law_decimal_stands_for_number(n as nat);
    text::law_beginnings_and_ends("task-"@, text::decimal(n as nat), task_id_text(n));
    assert(task_id_text(n).skip(5) =~= text::decimal(n as nat));
    assert(task_id_text(n)[5] == text::decimal(n as nat)[0]);
}

/// The waiting before another try to join doubles, and a try is given up where it
/// would be longer than an hour.
pub proof fn law_join_waiting_doubles(join: JoinRetry)
    ensures
        2 * join.delay <= 3600 ==> next_join(join) is Some && next_join(join)->Some_0.delay == 2
            * join.delay,
        2 * join.delay > 3600 ==> next_join(join) is None,
{
}

} // verus!
