//! Tasks: what a message says about its task, what the model is asked, and what
//! is sent back to the room.

use crate::markers;
use crate::markers::{extract_helper_tags, extract_marker_value, strip_marker};
use crate::text;
use crate::text::trimmed;
use vstd::prelude::*;

verus! {

/// `[Task: id]`.
pub open spec fn task_marker(id: Seq<char>) -> Seq<char> {
    "[Task: "@ + id + "]"@
}

/// A message without the markers that say whose task it is.
pub open spec fn message_body(message: Seq<char>) -> Seq<char> {
    text::trim(
        markers::without_markers(markers::without_markers(message, "[Requester:"@), "[Task:"@),
    )
}

/// What an incoming message says about its task.
pub struct TaskMetadata {
    /// The task that the message belongs to.
    pub task_id: Option<String>,
    /// Who asked for the task.
    pub requester: Option<String>,
    /// The message without these markers.
    pub body: String,
    /// Whether the message names its task.
    pub had_task_id: bool,
}

impl TaskMetadata {
    /// Reads the task markers of a message.
    pub fn parse(message: &str) -> (metadata: Self)
        ensures
            text::optional_text(metadata.task_id) == markers::marker_value(
                message@,
                "[Task:"@,
                ']',
            ),
            text::optional_text(metadata.requester) == markers::marker_value(
                message@,
                "[Requester:"@,
                ']',
            ),
            metadata.body@ == message_body(message@),
            metadata.had_task_id == (metadata.task_id is Some),
    {
        let task_id = extract_marker_value(message, "[Task:", ']');
        let requester = extract_marker_value(message, "[Requester:", ']');
        let without_requester = strip_marker(message, "[Requester:");
        let without_task = strip_marker(without_requester.as_str(), "[Task:");
        TaskMetadata {
            had_task_id: task_id.is_some(),
            task_id,
            requester,
            body: trimmed(without_task.as_str()),
        }
    }
}

/// A task as the assistant works on it.
pub struct TaskContext {
    /// The task.
    pub task_id: String,
    /// Who asked for it.
    pub requester: String,
    /// Who sent the message at hand.
    pub sender: String,
    /// The room that the message stands in.
    pub room_id: String,
    /// The message without its task markers.
    pub original_message: String,
    /// Whether the message named the task itself.
    pub has_existing_task_id: bool,
}

/// A task as a value.
#[verifier::ext_equal]
pub struct TaskContextView {
    /// The task.
    pub task_id: Seq<char>,
    /// Who asked for it.
    pub requester: Seq<char>,
    /// Who sent the message at hand.
    pub sender: Seq<char>,
    /// The room that the message stands in.
    pub room_id: Seq<char>,
    /// The message without its task markers.
    pub original_message: Seq<char>,
    /// Whether the message named the task itself.
    pub has_existing_task_id: bool,
}

impl View for TaskContext {
    type V = TaskContextView;

    open spec fn view(&self) -> TaskContextView {
        TaskContextView {
            task_id: self.task_id@,
            requester: self.requester@,
            sender: self.sender@,
            room_id: self.room_id@,
            original_message: self.original_message@,
            has_existing_task_id: self.has_existing_task_id,
        }
    }
}

/// The task that `message` belongs to: the one that it names, or a new one under
/// `new_id`, asked for by whom it names, or by its sender.
pub open spec fn context_of(
    sender: Seq<char>,
    room_id: Seq<char>,
    message: Seq<char>,
    new_id: Seq<char>,
) -> TaskContextView {
    TaskContextView {
        task_id: match markers::marker_value(message, "[Task:"@, ']') {
            Some(id) => id,
            None => new_id,
        },
        requester: match markers::marker_value(message, "[Requester:"@, ']') {
            Some(requester) => requester,
            None => sender,
        },
        sender,
        room_id,
        original_message: message_body(message),
        has_existing_task_id: markers::marker_value(message, "[Task:"@, ']') is Some,
    }
}

impl TaskContextView {
    /// The task's name can stand in a marker.
    pub open spec fn wf(self) -> bool {
        markers::is_marker_text(self.task_id)
    }

    /// The question put to the model.
    pub open spec fn prompt(self) -> Seq<char> {
        "[TaskContext]\ntask_id: "@ + self.task_id + "\nrequester: "@ + self.requester
            + "\nsender: "@ + self.sender + "\nroom_id: "@ + self.room_id
            + "\noriginal_message:\n"@ + self.original_message
    }
}

impl TaskContext {
    /// Writes the question put to the model.
    pub fn to_prompt(&self) -> (prompt: String)
        ensures
            prompt@ == self@.prompt(),
    {
        let mut prompt = "[TaskContext]\ntask_id: ".to_owned();
        prompt.append(self.task_id.as_str());
        prompt.append("\nrequester: ");
        prompt.append(self.requester.as_str());
        prompt.append("\nsender: ");
        prompt.append(self.sender.as_str());
        prompt.append("\nroom_id: ");
        prompt.append(self.room_id.as_str());
        prompt.append("\noriginal_message:\n");
        prompt.append(self.original_message.as_str());
        prompt
    }
}

/// An answer of the model, taken apart.
pub struct AgentResponse {
    /// The text for the room.
    pub text: String,
    /// The helpers that the answer asks for.
    pub helper_names: Vec<String>,
    /// The task that the answer names.
    pub task_id: Option<String>,
    /// The task that the answer completes.
    pub completion_task_id: Option<String>,
    /// Whom the answer names as the one who asked.
    pub requester: Option<String>,
}

/// An answer of the model as a value.
#[verifier::ext_equal]
pub struct ResponseView {
    /// The text for the room.
    pub text: Seq<char>,
    /// The helpers that the answer asks for.
    pub helper_names: Seq<Seq<char>>,
    /// The task that the answer names.
    pub task_id: Option<Seq<char>>,
    /// The task that the answer completes.
    pub completion_task_id: Option<Seq<char>>,
    /// Whom the answer names as the one who asked.
    pub requester: Option<Seq<char>>,
}

impl View for AgentResponse {
    type V = ResponseView;

    open spec fn view(&self) -> ResponseView {
        ResponseView {
            text: self.text@,
            helper_names: text::texts(self.helper_names@),
            task_id: text::optional_text(self.task_id),
            completion_task_id: text::optional_text(self.completion_task_id),
            requester: text::optional_text(self.requester),
        }
    }
}

impl ResponseView {
    /// The answer says that it completes a task, or says something and asks for
    /// no helper.
    pub open spec fn completes(self) -> bool {
        self.completion_task_id is Some || (self.helper_names.len() == 0 && self.text.len() > 0)
    }
}

impl AgentResponse {
    /// Whether the answer ends the task.
    pub fn is_completion(&self) -> (yes: bool)
        ensures
            yes == self@.completes(),
    {
        self.completion_task_id.is_some() || (self.helper_names.len() == 0
            && !self.text.as_str().is_empty())
    }
}

/// An answer without the markers of its task.
pub open spec fn without_task_markers(message: Seq<char>) -> Seq<char> {
    markers::without_markers(
        markers::without_markers(
            markers::without_markers(message, "[TaskComplete:"@),
            "[Requester:"@,
        ),
        "[Task:"@,
    )
}

/// What the answer `message` says.
pub open spec fn response_of(message: Seq<char>) -> ResponseView {
    let plain = without_task_markers(message);
    ResponseView {
        text: text::trim(markers::without_helper_tags(plain)),
        helper_names: markers::helper_names(plain),
        task_id: markers::marker_value(message, "[Task:"@, ']'),
        completion_task_id: markers::marker_value(message, "[TaskComplete:"@, ']'),
        requester: markers::marker_value(message, "[Requester:"@, ']'),
    }
}

/// Takes an answer of the model apart.
pub fn parse_agent_response(message: &str) -> (response: AgentResponse)
    ensures
        response@ == response_of(message@),
{
    let completion_task_id = extract_marker_value(message, "[TaskComplete:", ']');
    let requester = extract_marker_value(message, "[Requester:", ']');
    let task_id = extract_marker_value(message, "[Task:", ']');
    let without_completion = strip_marker(message, "[TaskComplete:");
    let without_requester = strip_marker(without_completion.as_str(), "[Requester:");
    let without_task = strip_marker(without_requester.as_str(), "[Task:");
    let (cleaned, helper_names) = extract_helper_tags(without_task.as_str());
    AgentResponse {
        text: trimmed(cleaned.as_str()),
        helper_names,
        task_id,
        completion_task_id,
        requester,
    }
}

/// The task that an answer belongs to.
pub open spec fn effective_task_id(response: ResponseView, context: TaskContextView) -> Seq<char> {
    match response.task_id {
        Some(id) => id,
        None => match response.completion_task_id {
            Some(id) => id,
            None => context.task_id,
        },
    }
}

/// The answer goes out with its task's name in front.
pub open spec fn names_task(response: ResponseView, context: TaskContextView) -> bool {
    ||| response.helper_names.len() > 0
    ||| response.completion_task_id is Some
    ||| context.has_existing_task_id
}

/// The text that goes out to the room.
pub open spec fn outgoing_text(response: ResponseView, context: TaskContextView) -> Seq<char> {
    if names_task(response, context) {
        text::trim(task_marker(effective_task_id(response, context)) + " "@ + response.text)
    } else {
        response.text
    }
}

/// Writes `[Task: id]`.
fn write_task_marker(id: &str) -> (marker: String)
    ensures
        marker@ == task_marker(id@),
{
    let mut marker = "[Task: ".to_owned();
    marker.append(id);
    marker.append("]");
    marker
}

/// Writes the text that goes out to the room. An answer that ends its task
/// never goes out empty.
pub fn compose_outgoing_message(response: &AgentResponse, context: &TaskContext) -> (outgoing:
    String)
    ensures
        outgoing@ == outgoing_text(response@, context@),
        response@.completes() ==> outgoing@.len() > 0,
{
    proof {
        lemma_prefixed_text(effective_task_id(response@, context@), response.text@);
    }
    let id = match &response.task_id {
        Some(id) => id.as_str(),
        None => match &response.completion_task_id {
            Some(id) => id.as_str(),
            None => context.task_id.as_str(),
        },
    };
    if response.helper_names.len() > 0 || response.completion_task_id.is_some()
        || context.has_existing_task_id {
        let mut outgoing = write_task_marker(id);
        outgoing.append(" ");
        outgoing.append(response.text.as_str());
        trimmed(outgoing.as_str())
    } else {
        response.text.clone()
    }
}

/// A text behind a task marker loses only its trailing white space.
proof fn lemma_prefixed_text(id: Seq<char>, body: Seq<char>)
    ensures
        text::trim(task_marker(id) + " "@ + body) == task_marker(id) + text::trim_end(" "@ + body),
        task_marker(id).len() == id.len() + 8,
{
    reveal_strlit("[Task: ");
    reveal_strlit("]");
    let marker = task_marker(id);
    let whole = marker + " "@ + body;
    assert(whole[0] == '[');
    assert(marker.last() == ']');
    assert(text::trim_start(whole) == whole);
    assert(whole =~= marker + (" "@ + body));
    text::lemma_trim_end_append(marker, " "@ + body);
}

/// A task keeps its name from message to message: whoever reads an answer that
/// goes out with a task's name reads that name.
pub proof fn law_task_id_survives(response: ResponseView, context: TaskContextView)
    requires
        names_task(response, context),
        markers::is_marker_text(effective_task_id(response, context)),
    ensures
        markers::marker_value(outgoing_text(response, context), "[Task:"@, ']') == Some(
            effective_task_id(response, context),
        ),
{
    let id = effective_task_id(response, context);
    let back = text::trim_end(" "@ + response.text);
    lemma_prefixed_text(id, response.text);
    lemma_task_marker_shape(id, back);
    text::lemma_trim_after_space(id);
    text::lemma_trim_of_trimmed(id);
    markers::law_marker_is_read_back("[Task:"@, seq![' '] + id, back);
}

/// The ids that an answer or a message carries can be carried on, so that
/// `law_task_id_survives` speaks of every answer that the assistant sends.
pub proof fn law_effective_task_id_is_marker_text(
    message: Seq<char>,
    context: TaskContextView,
)
    requires
        context.wf(),
    ensures
        markers::is_marker_text(effective_task_id(response_of(message), context)),
{
    markers::law_marker_value_is_marker_text(message, "[Task:"@);
    markers::law_marker_value_is_marker_text(message, "[TaskComplete:"@);
}

/// A task goes on under its name: where the answer to a message goes out with a
/// task's name, whoever it is that reads it works on that task, and on the task
/// of the message itself unless the answer named another.
pub proof fn law_task_is_carried_on(
    reply: Seq<char>,
    context: TaskContextView,
    sender: Seq<char>,
    room_id: Seq<char>,
    new_id: Seq<char>,
)
    requires
        context.wf(),
        names_task(response_of(reply), context),
    ensures
        ({
            let response = response_of(reply);
            let next = context_of(sender, room_id, outgoing_text(response, context), new_id);
            &&& next.wf()
            &&& next.has_existing_task_id
            &&& next.task_id == effective_task_id(response, context)
            &&& response.task_id is None && response.completion_task_id is None ==> next.task_id
                == context.task_id
        }),
{
    law_effective_task_id_is_marker_text(reply, context);
    law_task_id_survives(response_of(reply), context);
}

/// What an answer says reaches its readers: the reader of an answer that names
/// its task finds what the text itself holds, and the requester whom the text
/// itself names, if any. Only a task whose name opens a requester marker does not
/// let the text through.
pub proof fn law_body_survives(response: ResponseView, context: TaskContextView)
    requires
        names_task(response, context),
        markers::is_marker_text(effective_task_id(response, context)),
        !text::contains(effective_task_id(response, context), "[Requester:"@),
        text::is_trimmed(response.text),
    ensures
        message_body(outgoing_text(response, context)) == message_body(response.text),
        markers::marker_value(outgoing_text(response, context), "[Requester:"@, ']')
            == markers::marker_value(response.text, "[Requester:"@, ']'),
{
    let id = effective_task_id(response, context);
    let body = response.text;
    let back = text::trim_end(" "@ + body);
    let marker = task_marker(id);
    let whole = outgoing_text(response, context);
    let requester = "[Requester:"@;
    reveal_strlit("[Requester:");
    reveal_strlit("[Task:");
    lemma_prefixed_text(id, body);
    lemma_spaced_text(body);
    assert(whole == marker + back);
    // The requester markers go first.
    assert forall|i: int| 0 <= i < marker.len() implies !#[trigger] text::occurs_at(
        marker + back,
        requester,
        i,
    ) by {
        lemma_no_requester_opens(id, back, i);
    }
    markers::law_front_is_kept(marker, back, requester);
    lemma_space_is_kept(body, requester);
    // Behind the task marker, the task markers of the text go.
    let rest = markers::without_markers(back, requester);
    lemma_task_marker_shape(id, rest);
    assert(!(seq![' '] + id).contains(']')) by {
        if (seq![' '] + id).contains(']') {
            let k = choose|k: int|
                0 <= k < (seq![' '] + id).len() && (seq![' '] + id)[k] == ']';
            assert(id[k - 1] == ']');
        }
    }
    markers::law_marker_is_removed("[Task:"@, seq![' '] + id, rest);
    lemma_space_is_kept(markers::without_markers(body, requester), "[Task:"@);
    if body.len() > 0 {
        assert(back == seq![' '] + body);
        text::lemma_trim_after_space(
            markers::without_markers(markers::without_markers(body, requester), "[Task:"@),
        );
    } else {
        assert(back == body);
    }
}

/// A space in front of a text changes nothing about its markers.
proof fn lemma_space_is_kept(body: Seq<char>, opening: Seq<char>)
    requires
        opening.len() > 0,
        opening[0] == '[',
    ensures
        markers::without_markers(seq![' '] + body, opening) == seq![' ']
            + markers::without_markers(body, opening),
        markers::marker_value(seq![' '] + body, opening, ']') == markers::marker_value(
            body,
            opening,
            ']',
        ),
{
    let spaced = seq![' '] + body;
    assert(!text::occurs_at(spaced, opening, 0)) by {
        if text::occurs_at(spaced, opening, 0) {
            assert(spaced.subrange(0, opening.len() as int)[0] == opening[0]);
        }
    }
    markers::law_front_is_kept(seq![' '], body, opening);
}

/// Where the parts of a prefixed message stand.
proof fn lemma_task_marker_shape(id: Seq<char>, back: Seq<char>)
    ensures
        task_marker(id) + back == "[Task:"@ + (seq![' '] + id) + seq![']'] + back,
        task_marker(id).len() == id.len() + 8,
        task_marker(id)[0] == '[',
        task_marker(id).last() == ']',
        forall|k: int| 7 <= k < 7 + id.len() ==> #[trigger] task_marker(id)[k] == id[k - 7],
{
    reveal_strlit("[Task: ");
    reveal_strlit("[Task:");
    reveal_strlit("]");
    assert("[Task: "@ =~= "[Task:"@ + seq![' ']);
    assert("]"@ =~= seq![']']);
    assert(task_marker(id) + back =~= "[Task:"@ + (seq![' '] + id) + seq![']'] + back);
}

/// A trimmed text with one space in front, trimmed at the end.
proof fn lemma_spaced_text(body: Seq<char>)
    requires
        text::is_trimmed(body),
    ensures
        text::trim(text::trim_end(" "@ + body)) == body,
        body.len() > 0 ==> text::trim_end(" "@ + body) == seq![' '] + body,
        body.len() == 0 ==> text::trim_end(" "@ + body) == Seq::<char>::empty(),
{
    reveal_strlit(" ");
    assert(" "@ =~= seq![' ']);
    let spaced = " "@ + body;
    if body.len() > 0 {
        assert(spaced.last() == body.last());
        text::lemma_trim_after_space(body);
        text::lemma_trim_of_trimmed(body);
    } else {
        assert(spaced =~= seq![' ']);
        assert(spaced.drop_last() =~= Seq::<char>::empty());
        assert(text::trim_end(spaced) == text::trim_end(Seq::<char>::empty()));
        text::lemma_trim_of_trimmed(Seq::<char>::empty());
        assert(body =~= Seq::<char>::empty());
    }
}

/// No requester marker opens in a task marker whose name opens none.
proof fn lemma_no_requester_opens(id: Seq<char>, back: Seq<char>, i: int)
    requires
        !text::contains(id, "[Requester:"@),
        0 <= i < task_marker(id).len(),
    ensures
        !text::occurs_at(task_marker(id) + back, "[Requester:"@, i),
{
    let opening = "[Requester:"@;
    let marker = task_marker(id);
    let whole = marker + back;
    reveal_strlit("[Requester:");
    reveal_strlit("[Task: ");
    reveal_strlit("]");
    lemma_task_marker_shape(id, back);
    if text::occurs_at(whole, opening, i) {
        let part = whole.subrange(i, i + opening.len());
        assert(part[0] == whole[i] && part[1] == whole[i + 1]);
        let end = 7 + id.len();
        assert(whole[end as int] == ']');
        if 7 <= i < end {
            if i + opening.len() > end {
                assert(part[end - i] == ']');
                assert(opening[end - i] != ']');
            } else {
                assert(id.subrange(i - 7, i - 7 + opening.len()) =~= part) by {
                    assert forall|k: int| 0 <= k < opening.len() implies #[trigger] part[k]
                        == id[i - 7 + k] by {
                        assert(part[k] == marker[i + k]);
                    }
                }
                assert(text::occurs_at(id, opening, i - 7));
            }
        }
    }
}

/// A task and an answer hold what their fields hold.
pub proof fn law_views_show_fields(context: TaskContext, response: AgentResponse)
    ensures
        context@.task_id == context.task_id@,
        context@.requester == context.requester@,
        context@.sender == context.sender@,
        context@.room_id == context.room_id@,
        context@.original_message == context.original_message@,
        context@.has_existing_task_id == context.has_existing_task_id,
        response@.text == response.text@,
        response@.helper_names == text::texts(response.helper_names@),
        response@.task_id == text::optional_text(response.task_id),
        response@.completion_task_id == text::optional_text(response.completion_task_id),
        response@.requester == text::optional_text(response.requester),
{
}

/// A message without task and requester markers begins a new task of its sender,
/// and is put to the model whole but for the white space around it.
pub proof fn law_plain_message_is_put_whole(
    sender: Seq<char>,
    room_id: Seq<char>,
    message: Seq<char>,
    new_id: Seq<char>,
)
    requires
        !text::contains(message, "[Task:"@),
        !text::contains(message, "[Requester:"@),
    ensures
        context_of(sender, room_id, message, new_id) == (TaskContextView {
            task_id: new_id,
            requester: sender,
            sender,
            room_id,
            original_message: text::trim(message),
            has_existing_task_id: false,
        }),
{
    markers::law_unmarked_text_is_kept(message, "[Requester:"@);
    markers::law_unmarked_text_is_kept(message, "[Task:"@);
}

/// The text of a message reaches the model character by character: all of it that
/// stands between the white space around it.
pub proof fn law_plain_text_reaches_the_model(
    sender: Seq<char>,
    room_id: Seq<char>,
    a: Seq<char>,
    said: Seq<char>,
    b: Seq<char>,
    new_id: Seq<char>,
)
    requires
        forall|i: int| 0 <= i < a.len() ==> text::is_white_space(#[trigger] a[i]),
        forall|i: int| 0 <= i < b.len() ==> text::is_white_space(#[trigger] b[i]),
        said.len() > 0 ==> !text::is_white_space(said[0]) && !text::is_white_space(
            said[said.len() - 1],
        ),
        !text::contains(a + said + b, "[Task:"@),
        !text::contains(a + said + b, "[Requester:"@),
    ensures
        context_of(sender, room_id, a + said + b, new_id).original_message == said,
        text::ends_with(
            context_of(sender, room_id, a + said + b, new_id).prompt(),
            "original_message:\n"@ + said,
        ),
{
    let context = context_of(sender, room_id, a + said + b, new_id);
    law_plain_message_is_put_whole(sender, room_id, a + said + b, new_id);
    text::law_trim_keeps_the_middle(a, said, b);
    reveal_strlit("\noriginal_message:\n");
    reveal_strlit("original_message:\n");
    let prompt = context.prompt();
    let end = "original_message:\n"@ + said;
    assert("\noriginal_message:\n"@ =~= seq!['\n'] + "original_message:\n"@);
    let front = prompt.take(prompt.len() - end.len());
    assert(prompt =~= front + end);
    text::law_beginnings_and_ends(front, end, prompt);
}

/// The first task marker of a message says which task the message belongs to. It
/// is not put to the model, and what stands around it is, with the white space
/// around that and the later task markers gone.
pub proof fn law_task_marker_is_read(
    sender: Seq<char>,
    room_id: Seq<char>,
    front: Seq<char>,
    id: Seq<char>,
    back: Seq<char>,
    new_id: Seq<char>,
)
    requires
        !text::contains(front, "[Task:"@),
        !id.contains(']'),
        !text::contains(front + "[Task:"@ + (id + seq![']'] + back), "[Requester:"@),
    ensures
        ({
            let message = front + "[Task:"@ + (id + seq![']'] + back);
            let context = context_of(sender, room_id, message, new_id);
            &&& context.has_existing_task_id == (text::trim(id).len() > 0)
            &&& context.task_id == (if text::trim(id).len() > 0 {
                text::trim(id)
            } else {
                new_id
            })
            &&& context.original_message == text::trim(
                front + markers::without_markers(back, "[Task:"@),
            )
            &&& !text::contains(back, "[Task:"@) ==> context.original_message == text::trim(
                front + back,
            )
            &&& context.requester == sender
            &&& context.sender == sender
            &&& context.room_id == room_id
        }),
{
    let opening = "[Task:"@;
    let rest = id + seq![']'] + back;
    let message = front + opening + rest;
    reveal_strlit("[Task:");
    markers::lemma_opening_begins_behind(front, opening, rest, opening);
    markers::law_first_marker_is_read(front, opening, id, ']', back);
    markers::law_first_marker_is_taken_out(front, opening, id, back);
    markers::law_unmarked_text_is_kept(message, "[Requester:"@);
    if !text::contains(back, opening) {
        markers::law_unmarked_text_is_kept(back, opening);
    }
}

/// The first requester marker of a message says who asked, and is not put to the
/// model. What stands around it is read on for task markers.
pub proof fn law_requester_marker_is_read(
    sender: Seq<char>,
    room_id: Seq<char>,
    front: Seq<char>,
    requester: Seq<char>,
    back: Seq<char>,
    new_id: Seq<char>,
)
    requires
        !text::contains(front, "[Requester:"@),
        !requester.contains(']'),
    ensures
        ({
            let message = front + "[Requester:"@ + (requester + seq![']'] + back);
            let context = context_of(sender, room_id, message, new_id);
            &&& context.requester == (if text::trim(requester).len() > 0 {
                text::trim(requester)
            } else {
                sender
            })
            &&& context.original_message == text::trim(
                markers::without_markers(
                    front + markers::without_markers(back, "[Requester:"@),
                    "[Task:"@,
                ),
            )
            &&& !text::contains(back, "[Requester:"@) && !text::contains(front + back, "[Task:"@)
                ==> context.original_message == text::trim(front + back)
            &&& context.sender == sender
            &&& context.room_id == room_id
        }),
{
    let opening = "[Requester:"@;
    let rest = requester + seq![']'] + back;
    let message = front + opening + rest;
    reveal_strlit("[Requester:");
    markers::lemma_opening_begins_behind(front, opening, rest, opening);
    markers::law_first_marker_is_read(front, opening, requester, ']', back);
    markers::law_first_marker_is_taken_out(front, opening, requester, back);
    if !text::contains(back, opening) {
        markers::law_unmarked_text_is_kept(back, opening);
    }
    if !text::contains(front + back, "[Task:"@) {
        markers::law_unmarked_text_is_kept(front + back, "[Task:"@);
    }
}

/// Whatever markers a message holds, its task and requester are those of its
/// first markers, and what is put to the model is the message without its
/// requester and task markers.
pub proof fn law_message_is_read_by_its_markers(
    sender: Seq<char>,
    room_id: Seq<char>,
    message: Seq<char>,
    new_id: Seq<char>,
)
    ensures
        ({
            let context = context_of(sender, room_id, message, new_id);
            &&& markers::marker_value(message, "[Task:"@, ']') matches Some(id)
                ==> context.task_id == id && context.has_existing_task_id
            &&& markers::marker_value(message, "[Task:"@, ']') is None ==> context.task_id
                == new_id && !context.has_existing_task_id
            &&& markers::marker_value(message, "[Requester:"@, ']') matches Some(r)
                ==> context.requester == r
            &&& markers::marker_value(message, "[Requester:"@, ']') is None
                ==> context.requester == sender
            &&& context.original_message == text::trim(
                markers::without_markers(
                    markers::without_markers(message, "[Requester:"@),
                    "[Task:"@,
                ),
            )
            &&& context.sender == sender
            &&& context.room_id == room_id
        }),
{
}

/// The prompt shows the task line by line, and ends with the message as it is.
pub proof fn law_prompt_shows_task(context: TaskContextView)
    ensures
        context.prompt() == "[TaskContext]"@ + "\n"@ + "task_id: "@ + context.task_id + "\n"@
            + "requester: "@ + context.requester + "\n"@ + "sender: "@ + context.sender + "\n"@
            + "room_id: "@ + context.room_id + "\n"@ + "original_message:"@ + "\n"@
            + context.original_message,
{
    reveal_strlit("[TaskContext]\ntask_id: ");
    reveal_strlit("\nrequester: ");
    reveal_strlit("\nsender: ");
    reveal_strlit("\nroom_id: ");
    reveal_strlit("\noriginal_message:\n");
    reveal_strlit("[TaskContext]");
    reveal_strlit("task_id: ");
    reveal_strlit("requester: ");
    reveal_strlit("sender: ");
    reveal_strlit("room_id: ");
    reveal_strlit("original_message:");
    reveal_strlit("\n");
    assert("[TaskContext]\ntask_id: "@ =~= "[TaskContext]"@ + "\n"@ + "task_id: "@);
    assert("\nrequester: "@ =~= "\n"@ + "requester: "@);
    assert("\nsender: "@ =~= "\n"@ + "sender: "@);
    assert("\nroom_id: "@ =~= "\n"@ + "room_id: "@);
    assert("\noriginal_message:\n"@ =~= "\n"@ + "original_message:"@ + "\n"@);
    assert(context.prompt() =~= "[TaskContext]"@ + "\n"@ + "task_id: "@ + context.task_id + "\n"@
        + "requester: "@ + context.requester + "\n"@ + "sender: "@ + context.sender + "\n"@
        + "room_id: "@ + context.room_id + "\n"@ + "original_message:"@ + "\n"@
        + context.original_message);
}

/// An answer without markers says what it says: its helpers are those of its tags,
/// and its text is all of it, with the tags written as mentions. Without tags, the
/// text is the answer but for the white space around it.
pub proof fn law_plain_reply_is_sent_whole(reply: Seq<char>)
    requires
        !text::contains(reply, "[TaskComplete:"@),
        !text::contains(reply, "[Requester:"@),
        !text::contains(reply, "[Task:"@),
    ensures
        ({
            let response = response_of(reply);
            &&& response.text == text::trim(markers::without_helper_tags(reply))
            &&& response.helper_names == markers::helper_names(reply)
            &&& response.task_id is None
            &&& response.completion_task_id is None
            &&& response.requester is None
            &&& !text::contains(reply, seq!['@', '[']) ==> response.text == text::trim(reply)
                && response.helper_names == Seq::<Seq<char>>::empty()
        }),
{
    markers::law_unmarked_text_is_kept(reply, "[TaskComplete:"@);
    markers::law_unmarked_text_is_kept(reply, "[Requester:"@);
    markers::law_unmarked_text_is_kept(reply, "[Task:"@);
    if !text::contains(reply, seq!['@', '[']) {
        markers::law_untagged_text_is_kept(reply);
    }
}

/// Whatever markers an answer holds, each of its ids is that of the first marker
/// of its kind, its helpers and its text are those of the answer without its
/// markers, and no white space stands around the text.
pub proof fn law_reply_is_read_by_its_markers(reply: Seq<char>)
    ensures
        ({
            let response = response_of(reply);
            let plain = markers::without_markers(
                markers::without_markers(
                    markers::without_markers(reply, "[TaskComplete:"@),
                    "[Requester:"@,
                ),
                "[Task:"@,
            );
            &&& response.task_id == markers::marker_value(reply, "[Task:"@, ']')
            &&& response.completion_task_id == markers::marker_value(
                reply,
                "[TaskComplete:"@,
                ']',
            )
            &&& response.requester == markers::marker_value(reply, "[Requester:"@, ']')
            &&& response.helper_names == markers::helper_names(plain)
            &&& response.text == text::trim(markers::without_helper_tags(plain))
            &&& text::is_trimmed(response.text)
        }),
{
    let plain = without_task_markers(reply);
    text::lemma_trim_is_trimmed(markers::without_helper_tags(plain));
}

/// An answer ends its task exactly where it says so, or says something without
/// asking for help.
pub proof fn law_answer_ends_task(response: ResponseView)
    ensures
        response.completion_task_id is Some ==> response.completes(),
        response.completion_task_id is None && response.helper_names.len() > 0
            ==> !response.completes(),
        response.completion_task_id is None && response.helper_names.len() == 0 ==> (
        response.completes() <==> response.text.len() > 0),
{
}

/// What goes out is the text of the answer. Where the message at hand named its
/// task, or the answer asks for a helper or says that a task is complete, the
/// task's name stands in front: the answer's, or else the one that it completes,
/// or else the one of the message.
pub proof fn law_task_is_named_in_front(response: ResponseView, context: TaskContextView)
    requires
        text::is_trimmed(response.text),
    ensures
        ({
            let id = if response.task_id is Some {
                response.task_id->Some_0
            } else if response.completion_task_id is Some {
                response.completion_task_id->Some_0
            } else {
                context.task_id
            };
            let marker = "[Task: "@ + id + "]"@;
            let outgoing = outgoing_text(response, context);
            if context.has_existing_task_id || response.helper_names.len() > 0
                || response.completion_task_id is Some {
                &&& response.text.len() == 0 ==> outgoing == marker
                &&& response.text.len() > 0 ==> outgoing == marker + seq![' '] + response.text
            } else {
                outgoing == response.text
            }
        }),
{
    if context.has_existing_task_id || response.helper_names.len() > 0
        || response.completion_task_id is Some {
        let id = effective_task_id(response, context);
        let marker = task_marker(id);
        lemma_prefixed_text(id, response.text);
        lemma_spaced_text(response.text);
        if response.text.len() == 0 {
            assert(marker + Seq::<char>::empty() =~= marker);
        } else {
            assert(marker + (seq![' '] + response.text) =~= marker + seq![' '] + response.text);
        }
    }
}

/// A task goes on under its name: where the message at hand named its task, or the
/// answer asks for a helper or says that a task is complete, the name that is read
/// from what goes out is the one in the answer's task marker, or else the one in
/// its completion marker, or else the one of the message.
pub proof fn law_outgoing_message_names_task(reply: Seq<char>, context: TaskContextView)
    requires
        context.wf(),
        context.has_existing_task_id || response_of(reply).helper_names.len() > 0
            || markers::marker_value(reply, "[TaskComplete:"@, ']') is Some,
    ensures
        markers::marker_value(outgoing_text(response_of(reply), context), "[Task:"@, ']') == Some(
            match markers::marker_value(reply, "[Task:"@, ']') {
                Some(id) => id,
                None => match markers::marker_value(reply, "[TaskComplete:"@, ']') {
                    Some(id) => id,
                    None => context.task_id,
                },
            },
        ),
{
    law_effective_task_id_is_marker_text(reply, context);
    law_task_id_survives(response_of(reply), context);
}

/// The message that answers a task of a message that named it carries the whole
/// text of the answer: nothing but the task's name is put in front, and only
/// markers and white space around it are gone.
pub proof fn law_plain_answer_goes_out_whole(reply: Seq<char>, context: TaskContextView)
    requires
        !text::contains(reply, "[TaskComplete:"@),
        !text::contains(reply, "[Requester:"@),
        !text::contains(reply, "[Task:"@),
        !text::contains(reply, seq!['@', '[']),
        text::trim(reply).len() > 0,
    ensures
        !context.has_existing_task_id ==> outgoing_text(response_of(reply), context)
            == text::trim(reply),
        context.has_existing_task_id ==> outgoing_text(response_of(reply), context) == "[Task: "@
            + context.task_id + "]"@ + seq![' '] + text::trim(reply),
        response_of(reply).completes(),
{
    law_plain_reply_is_sent_whole(reply);
    text::lemma_trim_is_trimmed(reply);
    law_task_is_named_in_front(response_of(reply), context);
}

} // verus!
