//! The markers that participants put into their messages.
//!
//! `[Task: id]`, `[TaskComplete: id]` and `[Requester: user]` carry values,
//! `@[name]` asks for a helper, and `[Introduction]` opens a self-introduction.

use crate::text;
use crate::text::{chars_of, find_from, matches_at, trim_bounds, white_space};
use vstd::prelude::*;

verus! {

/// A value that a marker can carry unchanged: not empty, trimmed, and without
/// the bracket that closes a marker.
pub open spec fn is_marker_text(s: Seq<char>) -> bool {
    &&& s.len() > 0
    &&& text::is_trimmed(s)
    &&& !s.contains(']')
}

/// The value of the first marker that opens with `prefix`: what stands between
/// the opening and the next `suffix`, trimmed, where anything is left of it.
pub open spec fn marker_value(message: Seq<char>, prefix: Seq<char>, suffix: char) -> Option<
    Seq<char>,
> {
    match text::find(message, prefix) {
        None => None,
        Some(start) => {
            let after = message.skip(start + prefix.len());
            match text::find(after, seq![suffix]) {
                None => None,
                Some(end) => {
                    let value = text::trim(after.take(end));
                    if value.len() == 0 {
                        None
                    } else {
                        Some(value)
                    }
                },
            }
        },
    }
}

/// `message` without the markers that open with `prefix`, each of which reaches
/// to the next `]`. One that is never closed stays, with all that follows it.
pub open spec fn without_markers(message: Seq<char>, prefix: Seq<char>) -> Seq<char>
    decreases message.len(),
{
    match text::find(message, prefix) {
        None => message,
        Some(start) => {
            let after = message.skip(start + prefix.len());
            match text::find(after, seq![']']) {
                None => message,
                Some(end) => {
                    proof {
                        text::lemma_find_is_first(message, prefix);
                        text::lemma_find_is_first(after, seq![']']);
                    }
                    message.take(start) + without_markers(after.skip(end + 1), prefix)
                },
            }
        },
    }
}

/// `message` with each `@[name]` written as `@name`, or dropped where the name
/// is blank. One that is never closed stays, with all that follows it.
pub open spec fn without_helper_tags(message: Seq<char>) -> Seq<char>
    decreases message.len(),
{
    match text::find(message, seq!['@', '[']) {
        None => message,
        Some(start) => {
            let after = message.skip(start + 2);
            match text::find(after, seq![']']) {
                None => message,
                Some(end) => {
                    proof {
                        text::lemma_find_is_first(message, seq!['@', '[']);
                        text::lemma_find_is_first(after, seq![']']);
                    }
                    let name = text::trim(after.take(end));
                    let tag = if name.len() == 0 {
                        Seq::<char>::empty()
                    } else {
                        seq!['@'] + name
                    };
                    message.take(start) + tag + without_helper_tags(after.skip(end + 1))
                },
            }
        },
    }
}

/// The names in the tags `@[name]` of `message`, from left to right.
pub open spec fn helper_names(message: Seq<char>) -> Seq<Seq<char>>
    decreases message.len(),
{
    match text::find(message, seq!['@', '[']) {
        None => seq![],
        Some(start) => {
            let after = message.skip(start + 2);
            match text::find(after, seq![']']) {
                None => seq![],
                Some(end) => {
                    proof {
                        text::lemma_find_is_first(message, seq!['@', '[']);
                        text::lemma_find_is_first(after, seq![']']);
                    }
                    let name = text::trim(after.take(end));
                    let rest = helper_names(after.skip(end + 1));
                    if name.len() == 0 {
                        rest
                    } else {
                        seq![name] + rest
                    }
                },
            }
        },
    }
}

/// `s` without its leading colons.
pub open spec fn skip_colons(s: Seq<char>) -> Seq<char>
    decreases s.len(),
{
    if s.len() > 0 && s[0] == ':' {
        skip_colons(s.skip(1))
    } else {
        s
    }
}

/// The text of a self-introduction after its opening.
pub open spec fn introduction_text(opened: Seq<char>) -> Option<Seq<char>> {
    let text = text::trim(skip_colons(opened));
    if text.len() == 0 {
        None
    } else {
        Some(text)
    }
}

/// The self-introduction that `message` is, if it is one: it opens with
/// `[Introduction]` or `[introduction]`, perhaps with colons behind, and says
/// something.
pub open spec fn introduction(message: Seq<char>) -> Option<Seq<char>> {
    let s = text::trim_start(message);
    if text::starts_with(s, "[Introduction]"@) {
        introduction_text(s.skip("[Introduction]"@.len() as int))
    } else if text::starts_with(s, "[introduction]"@) {
        introduction_text(s.skip("[introduction]"@.len() as int))
    } else {
        None
    }
}

/// Reads the value of the first marker that opens with `prefix`.
pub fn extract_marker_value(message: &str, prefix: &str, suffix: char) -> (value: Option<String>)
    ensures
        text::optional_text(value) == marker_value(message@, prefix@, suffix),
{
    let chars = chars_of(message);
    let opening = chars_of(prefix);
    let n: usize = chars.len();
    assert(chars@.skip(0) =~= message@);
    let start: usize = match find_from(&chars, &opening, 0) {
        Some(start) => start,
        None => {
            return None;
        },
    };
    let from: usize = start + opening.len();
    assert(from <= n);
    let closing: Vec<char> = vec![suffix];
    assert(closing@ =~= seq![suffix]);
    let end: usize = match find_from(&chars, &closing, from) {
        Some(end) => end,
        None => {
            return None;
        },
    };
    assert(chars@.subrange(from as int, end as int) =~= message@.skip(from as int).take(end - from));
    let (a, b) = trim_bounds(&chars, from, end);
    if a == b {
        None
    } else {
        Some(message.substring_char(a, b).to_owned())
    }
}

/// Removes the markers that open with `prefix`.
pub fn strip_marker(message: &str, prefix: &str) -> (stripped: String)
    ensures
        stripped@ == without_markers(message@, prefix@),
{
    let chars = chars_of(message);
    let opening = chars_of(prefix);
    let closing: Vec<char> = vec![']'];
    assert(closing@ =~= seq![']']);
    let n: usize = chars.len();
    let mut stripped = String::new();
    let mut pos: usize = 0;
    assert(chars@.skip(0) =~= message@);
    loop
        invariant
            chars@ == message@,
            opening@ == prefix@,
            closing@ == seq![']'],
            n == chars@.len(),
            pos <= n,
            without_markers(message@, prefix@) == stripped@ + without_markers(
                message@.skip(pos as int),
                prefix@,
            ),
        decreases n - pos,
    {
        let ghost rest = message@.skip(pos as int);
        let start: usize = match find_from(&chars, &opening, pos) {
            Some(start) => start,
            None => {
                stripped.append(message.substring_char(pos, n));
                assert(message@.subrange(pos as int, n as int) =~= rest);
                return stripped;
            },
        };
        let from: usize = start + opening.len();
        assert(rest.skip(from - pos) =~= message@.skip(from as int));
        let end: usize = match find_from(&chars, &closing, from) {
            Some(end) => end,
            None => {
                stripped.append(message.substring_char(pos, n));
                assert(message@.subrange(pos as int, n as int) =~= rest);
                return stripped;
            },
        };
        stripped.append(message.substring_char(pos, start));
        proof {
            assert(message@.subrange(pos as int, start as int) =~= rest.take(start - pos));
            assert(message@.skip(from as int).skip(end - from + 1) =~= message@.skip(end + 1));
            assert(without_markers(message@, prefix@) =~= stripped@ + without_markers(
                message@.skip(end + 1),
                prefix@,
            ));
        }
        pos = end + 1;
    }
}

/// Reads the helper tags of a message, and writes them as plain mentions.
pub fn extract_helper_tags(message: &str) -> (result: (String, Vec<String>))
    ensures
        result.0@ == without_helper_tags(message@),
        text::texts(result.1@) == helper_names(message@),
{
    let chars = chars_of(message);
    let opening: Vec<char> = vec!['@', '['];
    let closing: Vec<char> = vec![']'];
    proof {
        assert(opening@ =~= seq!['@', '[']);
        assert(closing@ =~= seq![']']);
        reveal_strlit("@");
        assert("@"@ =~= seq!['@']);
    }
    let n: usize = chars.len();
    let mut cleaned = String::new();
    let mut names: Vec<String> = Vec::new();
    let mut pos: usize = 0;
    assert(chars@.skip(0) =~= message@);
    assert(text::texts(names@) =~= seq![]);
    loop
        invariant
            chars@ == message@,
            opening@ == seq!['@', '['],
            closing@ == seq![']'],
            "@"@ == seq!['@'],
            n == chars@.len(),
            pos <= n,
            without_helper_tags(message@) == cleaned@ + without_helper_tags(
                message@.skip(pos as int),
            ),
            helper_names(message@) == text::texts(names@) + helper_names(message@.skip(pos as int)),
        decreases n - pos,
    {
        let ghost rest = message@.skip(pos as int);
        let start: usize = match find_from(&chars, &opening, pos) {
            Some(start) => start,
            None => {
                cleaned.append(message.substring_char(pos, n));
                assert(message@.subrange(pos as int, n as int) =~= rest);
                assert(text::texts(names@) + helper_names(rest) =~= text::texts(names@));
                return (cleaned, names);
            },
        };
        let from: usize = start + 2;
        assert(rest.skip(from - pos) =~= message@.skip(from as int));
        let end: usize = match find_from(&chars, &closing, from) {
            Some(end) => end,
            None => {
                cleaned.append(message.substring_char(pos, n));
                assert(message@.subrange(pos as int, n as int) =~= rest);
                assert(text::texts(names@) + helper_names(rest) =~= text::texts(names@));
                return (cleaned, names);
            },
        };
        cleaned.append(message.substring_char(pos, start));
        proof {
            assert(message@.subrange(pos as int, start as int) =~= rest.take(start - pos));
            assert(message@.skip(from as int).skip(end - from + 1) =~= message@.skip(end + 1));
            assert(chars@.subrange(from as int, end as int) =~= message@.skip(from as int).take(
                end - from,
            ));
        }
        let (a, b) = trim_bounds(&chars, from, end);
        let ghost old_names = names@;
        if a < b {
            let name = message.substring_char(a, b);
            cleaned.append("@");
            cleaned.append(name);
            names.push(name.to_owned());
            assert(text::texts(names@) =~= text::texts(old_names) + seq![name@]);
        }
        proof {
            let later = message@.skip(end + 1);
            assert(without_helper_tags(message@) =~= cleaned@ + without_helper_tags(later));
            assert(helper_names(message@) =~= text::texts(names@) + helper_names(later));
        }
        pos = end + 1;
    }
}

/// Reads a self-introduction.
pub fn extract_introduction(message: &str) -> (text: Option<String>)
    ensures
        text::optional_text(text) == introduction(message@),
{
    let chars = chars_of(message);
    let n: usize = chars.len();
    let mut from: usize = 0;
    assert(chars@.skip(0) =~= message@);
    while from < n && white_space(chars[from])
        invariant
            chars@ == message@,
            n == chars@.len(),
            from <= n,
            text::trim_start(message@) == text::trim_start(message@.skip(from as int)),
        decreases n - from,
    {
        assert(message@.skip(from as int).skip(1) =~= message@.skip(from + 1));
        from = from + 1;
    }
    let ghost s = message@.skip(from as int);
    assert(s == text::trim_start(message@));
    let upper = chars_of("[Introduction]");
    let lower = chars_of("[introduction]");
    proof {
        assert(forall|p: Seq<char>| from + p.len() <= n ==> #[trigger] s.subrange(
            0,
            p.len() as int,
        ) =~= message@.subrange(from as int, from + p.len()));
    }
    let mut pos: usize = if matches_at(&chars, &upper, from) {
        from + upper.len()
    } else if matches_at(&chars, &lower, from) {
        from + lower.len()
    } else {
        return None;
    };
    let ghost opened = message@.skip(pos as int);
    assert(s.skip(pos - from) =~= opened);
    while pos < n && chars[pos] == ':'
        invariant
            chars@ == message@,
            n == chars@.len(),
            pos <= n,
            skip_colons(opened) == skip_colons(message@.skip(pos as int)),
        decreases n - pos,
    {
        assert(message@.skip(pos as int).skip(1) =~= message@.skip(pos + 1));
        pos = pos + 1;
    }
    let (a, b) = trim_bounds(&chars, pos, n);
    assert(chars@.subrange(pos as int, n as int) =~= message@.skip(pos as int));
    if a == b {
        None
    } else {
        Some(message.substring_char(a, b).to_owned())
    }
}

/// What a marker carries can be carried by another one.
pub proof fn law_marker_value_is_marker_text(message: Seq<char>, prefix: Seq<char>)
    ensures
        marker_value(message, prefix, ']') matches Some(value) ==> is_marker_text(value),
{
    if let Some(start) = text::find(message, prefix) {
        let after = message.skip(start + prefix.len());
        text::lemma_before_found_char(after, ']');
        if let Some(end) = text::find(after, seq![']']) {
            text::lemma_trim_is_trimmed(after.take(end));
        }
    }
}

/// The helpers that a message asks for have names, trimmed ones.
pub proof fn law_helper_names_are_marker_text(message: Seq<char>)
    ensures
        forall|i: int|
            0 <= i < helper_names(message).len() ==> is_marker_text(
                #[trigger] helper_names(message)[i],
            ),
    decreases message.len(),
{
    if let Some(start) = text::find(message, seq!['@', '[']) {
        text::lemma_find_is_first(message, seq!['@', '[']);
        let after = message.skip(start + 2);
        text::lemma_before_found_char(after, ']');
        if let Some(end) = text::find(after, seq![']']) {
            let name = text::trim(after.take(end));
            text::lemma_trim_is_trimmed(after.take(end));
            let rest = helper_names(after.skip(end + 1));
            law_helper_names_are_marker_text(after.skip(end + 1));
            assert forall|i: int| 0 <= i < helper_names(message).len() implies is_marker_text(
                #[trigger] helper_names(message)[i],
            ) by {
                if name.len() == 0 {
                    assert(helper_names(message)[i] == rest[i]);
                } else if i > 0 {
                    assert(helper_names(message)[i] == rest[i - 1]);
                }
            }
        }
    }
}

/// A text without the opening of a marker carries no value and stays as it is.
pub proof fn law_unmarked_text_is_kept(message: Seq<char>, prefix: Seq<char>)
    requires
        !text::contains(message, prefix),
    ensures
        without_markers(message, prefix) == message,
        forall|suffix: char| #[trigger] marker_value(message, prefix, suffix) is None,
{
}

/// A text without helper tags asks for no helper and stays as it is.
pub proof fn law_untagged_text_is_kept(message: Seq<char>)
    requires
        !text::contains(message, seq!['@', '[']),
    ensures
        without_helper_tags(message) == message,
        helper_names(message) == Seq::<Seq<char>>::empty(),
{
}

/// A value written between an opening and `]` is read back, trimmed.
pub proof fn law_marker_is_read_back(prefix: Seq<char>, value: Seq<char>, back: Seq<char>)
    requires
        !value.contains(']'),
        text::trim(value).len() > 0,
    ensures
        marker_value(prefix + value + seq![']'] + back, prefix, ']') == Some(text::trim(value)),
{
    lemma_marker_in_front(prefix, value, back);
    let message = prefix + value + seq![']'] + back;
    assert(message.skip(prefix.len() as int).take(value.len() as int) =~= value);
}

/// A marker in front of a text is removed as a whole, and what follows it is
/// treated as if it stood alone.
pub proof fn law_marker_is_removed(prefix: Seq<char>, value: Seq<char>, back: Seq<char>)
    requires
        !value.contains(']'),
    ensures
        without_markers(prefix + value + seq![']'] + back, prefix) == without_markers(
            back,
            prefix,
        ),
{
    lemma_marker_in_front(prefix, value, back);
    let message = prefix + value + seq![']'] + back;
    let after = message.skip(prefix.len() as int);
    assert(after.skip((value.len() + 1) as int) =~= back);
    assert(message.take(0) + without_markers(back, prefix) =~= without_markers(back, prefix));
}

/// Where a marker at the front of a message opens and closes.
proof fn lemma_marker_in_front(prefix: Seq<char>, value: Seq<char>, back: Seq<char>)
    requires
        !value.contains(']'),
    ensures
        text::find(prefix + value + seq![']'] + back, prefix) == Some(0int),
        text::find(
            (prefix + value + seq![']'] + back).skip(prefix.len() as int),
            seq![']'],
        ) == Some(value.len() as int),
{
    let message = prefix + value + seq![']'] + back;
    assert(message.subrange(0, prefix.len() as int) =~= prefix);
    assert(text::first_at(message, prefix, 0));
    text::lemma_first_is_find(message, prefix, 0);
    let after = message.skip(prefix.len() as int);
    assert forall|j: int| 0 <= j < value.len() implies #[trigger] after[j] != ']' by {
        assert(after[j] == value[j]);
        assert(value.contains(value[j]));
    }
    assert(after[value.len() as int] == ']');
    text::lemma_find_char(after, ']', value.len() as int);
}

/// A text in front of another, in which no marker opens, changes nothing about
/// the markers and stays in front.
pub proof fn law_front_is_kept(front: Seq<char>, back: Seq<char>, prefix: Seq<char>)
    requires
        forall|i: int| 0 <= i < front.len() ==> !#[trigger] text::occurs_at(front + back, prefix, i),
    ensures
        without_markers(front + back, prefix) == front + without_markers(back, prefix),
        forall|suffix: char| #[trigger]
            marker_value(front + back, prefix, suffix) == marker_value(back, prefix, suffix),
{
    text::lemma_find_behind(front, back, prefix);
    let whole = front + back;
    let n = front.len() as int;
    match text::find(back, prefix) {
        Some(start) => {
            text::lemma_find_is_first(back, prefix);
            let after = back.skip(start + prefix.len());
            assert(whole.skip(start + n + prefix.len()) =~= after);
            assert(whole.take(start + n) =~= front + back.take(start));
            if let Some(end) = text::find(after, seq![']']) {
                let rest = without_markers(after.skip(end + 1), prefix);
                assert(front + (back.take(start) + rest) =~= (front + back.take(start)) + rest);
            }
        },
        None => {},
    }
}

/// Removing markers never makes a text longer.
pub proof fn law_removal_shortens(message: Seq<char>, prefix: Seq<char>)
    ensures
        without_markers(message, prefix).len() <= message.len(),
    decreases message.len(),
{
    text::lemma_find_is_first(message, prefix);
    if let Some(start) = text::find(message, prefix) {
        let after = message.skip(start + prefix.len());
        text::lemma_find_is_first(after, seq![']']);
        if let Some(end) = text::find(after, seq![']']) {
            law_removal_shortens(after.skip(end + 1), prefix);
        }
    }
}

/// A self-introduction in the assistant's own form is recognised: its readers
/// find the text that was introduced, trimmed, unless it is blank.
pub proof fn law_introduction_is_read_back(text: Seq<char>)
    ensures
        introduction("[Introduction]: "@ + text) == (if text::trim(text).len() == 0 {
            None
        } else {
            Some(text::trim(text))
        }),
{
    reveal_strlit("[Introduction]: ");
    reveal_strlit("[Introduction]");
    let message = "[Introduction]: "@ + text;
    assert(text::trim_start(message) == message);
    assert(message.subrange(0, 14) =~= "[Introduction]"@);
    let opened = message.skip(14);
    assert(opened[0] == ':');
    assert(opened.skip(1) =~= seq![' '] + text);
    assert(skip_colons(opened) == skip_colons(opened.skip(1)));
    assert(skip_colons(opened.skip(1)) == opened.skip(1));
    text::lemma_trim_after_space(text);
}

/// An opening whose first character is nowhere else in it does not begin in a text
/// that does not contain it, whatever opening and text stand behind.
pub proof fn lemma_opening_begins_behind(
    front: Seq<char>,
    other: Seq<char>,
    rest: Seq<char>,
    opening: Seq<char>,
)
    requires
        opening.len() > 0,
        other.len() > 0,
        forall|k: int| 0 < k < opening.len() ==> #[trigger] opening[k] != other[0],
        !text::contains(front, opening),
    ensures
        forall|i: int|
            0 <= i < front.len() ==> !#[trigger] text::occurs_at(front + other + rest, opening, i),
{
    let whole = front + other + rest;
    assert forall|i: int| 0 <= i < front.len() implies !#[trigger] text::occurs_at(
        whole,
        opening,
        i,
    ) by {
        if text::occurs_at(whole, opening, i) {
            let part = whole.subrange(i, i + opening.len());
            if i + opening.len() > front.len() {
                let k = front.len() - i;
                assert(part[k] == whole[front.len() as int]);
                assert(opening[k] == other[0]);
            } else {
                assert(front.subrange(i, i + opening.len()) =~= part);
                assert(text::occurs_at(front, opening, i));
            }
        }
    }
}

/// The first marker in a message gives its value, which ends at the next `suffix`,
/// without the white space around it. A blank one gives none.
pub proof fn law_first_marker_is_read(
    front: Seq<char>,
    prefix: Seq<char>,
    value: Seq<char>,
    suffix: char,
    back: Seq<char>,
)
    requires
        forall|i: int|
            0 <= i < front.len() ==> !#[trigger] text::occurs_at(
                front + prefix + (value + seq![suffix] + back),
                prefix,
                i,
            ),
        !value.contains(suffix),
    ensures
        marker_value(front + prefix + (value + seq![suffix] + back), prefix, suffix) == (
        if text::trim(value).len() == 0 {
            None
        } else {
            Some(text::trim(value))
        }),
{
    let after = value + seq![suffix] + back;
    let whole = front + prefix + after;
    text::law_first_occurrence_is_found(front, prefix, after);
    assert(whole.skip((front.len() + prefix.len()) as int) =~= after);
    assert forall|j: int| 0 <= j < value.len() implies #[trigger] after[j] != suffix by {
        assert(after[j] == value[j]);
        assert(value.contains(value[j]));
    }
    assert(after[value.len() as int] == suffix);
    text::lemma_find_char(after, suffix, value.len() as int);
    assert(after.take(value.len() as int) =~= value);
}

/// The first marker in a message is taken out, from its opening to the next `]`:
/// what precedes it stays, and what follows is treated as if it stood alone.
pub proof fn law_first_marker_is_taken_out(
    front: Seq<char>,
    prefix: Seq<char>,
    value: Seq<char>,
    back: Seq<char>,
)
    requires
        forall|i: int|
            0 <= i < front.len() ==> !#[trigger] text::occurs_at(
                front + prefix + (value + seq![']'] + back),
                prefix,
                i,
            ),
        !value.contains(']'),
    ensures
        without_markers(front + prefix + (value + seq![']'] + back), prefix) == front
            + without_markers(back, prefix),
{
    let marked = prefix + value + seq![']'] + back;
    let whole = front + prefix + (value + seq![']'] + back);
    assert(whole =~= front + marked);
    law_front_is_kept(front, marked, prefix);
    law_marker_is_removed(prefix, value, back);
}

/// A marker that is never closed gives no value, and nothing of the message from
/// there on is taken out.
pub proof fn law_open_marker_stays(front: Seq<char>, prefix: Seq<char>, rest: Seq<char>)
    requires
        forall|i: int|
            0 <= i < front.len() ==> !#[trigger] text::occurs_at(front + prefix + rest, prefix, i),
        !rest.contains(']'),
    ensures
        marker_value(front + prefix + rest, prefix, ']') is None,
        without_markers(front + prefix + rest, prefix) == front + prefix + rest,
{
    let whole = front + prefix + rest;
    text::law_first_occurrence_is_found(front, prefix, rest);
    assert(whole.skip((front.len() + prefix.len()) as int) =~= rest);
    text::lemma_before_found_char(rest, ']');
}

/// The first helper tag of a message is written as a plain mention, and its name
/// is the first of the helpers. A blank tag leaves nothing behind. What precedes
/// it stays, and what follows is treated as if it stood alone.
pub proof fn law_first_tag_is_read(front: Seq<char>, name: Seq<char>, back: Seq<char>)
    requires
        !text::contains(front, seq!['@', '[']),
        !name.contains(']'),
    ensures
        ({
            let whole = front + seq!['@', '['] + (name + seq![']'] + back);
            let helper = text::trim(name);
            if helper.len() == 0 {
                &&& without_helper_tags(whole) == front + without_helper_tags(back)
                &&& helper_names(whole) == helper_names(back)
            } else {
                &&& without_helper_tags(whole) == front + seq!['@'] + helper
                    + without_helper_tags(back)
                &&& helper_names(whole) == seq![helper] + helper_names(back)
            }
        }),
{
    let opening = seq!['@', '['];
    let after = name + seq![']'] + back;
    let whole = front + opening + after;
    lemma_opening_begins_behind(front, opening, after, opening);
    text::law_first_occurrence_is_found(front, opening, after);
    assert(whole.skip(front.len() as int + 2) =~= after);
    assert forall|j: int| 0 <= j < name.len() implies #[trigger] after[j] != ']' by {
        assert(after[j] == name[j]);
        assert(name.contains(name[j]));
    }
    assert(after[name.len() as int] == ']');
    text::lemma_find_char(after, ']', name.len() as int);
    assert(after.take(name.len() as int) =~= name);
    assert(after.skip(name.len() as int + 1) =~= back);
    assert(whole.take(front.len() as int) =~= front);
    let helper = text::trim(name);
    let rest = without_helper_tags(back);
    if helper.len() == 0 {
        assert(front + Seq::<char>::empty() + rest =~= front + rest);
    } else {
        assert(front + (seq!['@'] + helper) + rest =~= front + seq!['@'] + helper + rest);
    }
}

/// A helper tag that is never closed stays, and asks for nobody.
pub proof fn law_open_tag_stays(front: Seq<char>, rest: Seq<char>)
    requires
        !text::contains(front, seq!['@', '[']),
        !rest.contains(']'),
    ensures
        without_helper_tags(front + seq!['@', '['] + rest) == front + seq!['@', '['] + rest,
        helper_names(front + seq!['@', '['] + rest) == Seq::<Seq<char>>::empty(),
{
    let opening = seq!['@', '['];
    let whole = front + opening + rest;
    lemma_opening_begins_behind(front, opening, rest, opening);
    text::law_first_occurrence_is_found(front, opening, rest);
    assert(whole.skip(front.len() as int + 2) =~= rest);
    text::lemma_before_found_char(rest, ']');
}

/// An introduction is recognised behind any white space, with either opening and
/// any number of colons, and its text is what follows without the white space
/// around it. A blank one is none.
pub proof fn law_introduction_is_recognised(
    space: Seq<char>,
    colons: Seq<char>,
    body: Seq<char>,
)
    requires
        forall|i: int| 0 <= i < space.len() ==> text::is_white_space(#[trigger] space[i]),
        forall|i: int| 0 <= i < colons.len() ==> #[trigger] colons[i] == ':',
        body.len() > 0 ==> body[0] != ':',
    ensures
        introduction(space + "[Introduction]"@ + colons + body) == (if text::trim(body).len()
            == 0 {
            None
        } else {
            Some(text::trim(body))
        }),
        introduction(space + "[introduction]"@ + colons + body) == (if text::trim(body).len()
            == 0 {
            None
        } else {
            Some(text::trim(body))
        }),
{
    reveal_strlit("[Introduction]");
    reveal_strlit("[introduction]");
    lemma_colons_are_skipped(colons, body);
    lemma_opened_introduction(space, "[Introduction]"@, colons + body);
    lemma_opened_introduction(space, "[introduction]"@, colons + body);
    let lower = "[introduction]"@ + (colons + body);
    assert(!text::starts_with(lower, "[Introduction]"@)) by {
        if text::starts_with(lower, "[Introduction]"@) {
            assert(lower.subrange(0, 14)[1] == 'i');
        }
    }
}

/// Colons in front are skipped.
proof fn lemma_colons_are_skipped(colons: Seq<char>, body: Seq<char>)
    requires
        forall|i: int| 0 <= i < colons.len() ==> #[trigger] colons[i] == ':',
        body.len() > 0 ==> body[0] != ':',
    ensures
        skip_colons(colons + body) == body,
    decreases colons.len(),
{
    if colons.len() == 0 {
        assert(colons + body =~= body);
    } else {
        assert((colons + body)[0] == colons[0]);
        assert((colons + body).skip(1) =~= colons.skip(1) + body);
        lemma_colons_are_skipped(colons.skip(1), body);
    }
}

/// Where an opening stands behind white space.
proof fn lemma_opened_introduction(space: Seq<char>, opening: Seq<char>, opened: Seq<char>)
    requires
        forall|i: int| 0 <= i < space.len() ==> text::is_white_space(#[trigger] space[i]),
        opening.len() == 14,
        opening[0] == '[',
    ensures
        forall|a: Seq<char>, b: Seq<char>|
            a + b == opened ==> text::trim_start(#[trigger] (space + opening + a + b)) == opening
                + opened,
        text::starts_with(opening + opened, opening),
        (opening + opened).skip(14) == opened,
{
    let s = opening + opened;
    assert forall|a: Seq<char>, b: Seq<char>| a + b == opened implies text::trim_start(
        #[trigger] (space + opening + a + b),
    ) == s by {
        assert(space + opening + a + b =~= space + s);
        text::lemma_trim_start_behind(space, s);
        assert(s[0] == '[');
    }
    assert(s.subrange(0, 14) =~= opening);
    assert(s.skip(14) =~= opened);
}

/// Only a message that opens with an introduction's opening, behind white space at
/// most, is an introduction.
pub proof fn law_only_opened_messages_introduce(message: Seq<char>)
    requires
        introduction(message) is Some,
    ensures
        exists|space: Seq<char>, rest: Seq<char>|
            (message == #[trigger] (space + "[Introduction]"@ + rest) || message == (space
                + "[introduction]"@ + rest)) && forall|i: int|
                0 <= i < space.len() ==> text::is_white_space(#[trigger] space[i]),
{
    let s = text::trim_start(message);
    text::lemma_trim_start_shape(message);
    text::lemma_skipped_is_white_space(message);
    let space = message.take(message.len() - s.len());
    assert(message =~= space + s);
    assert forall|i: int| 0 <= i < space.len() implies text::is_white_space(
        #[trigger] space[i],
    ) by {
        assert(space[i] == message[i]);
    }
    let opening = if text::starts_with(s, "[Introduction]"@) {
        "[Introduction]"@
    } else {
        "[introduction]"@
    };
    text::law_beginnings_and_ends(opening, Seq::<char>::empty(), s);
    let rest = s.skip(opening.len() as int);
    assert(message =~= space + opening + rest);
    assert(space + "[Introduction]"@ + rest == space + "[Introduction]"@ + rest);
}

} // verus!
