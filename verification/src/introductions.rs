//! What the assistant knows about the other participants: their
//! self-introductions, by user id.

use crate::outside;
use crate::outside::{
    json_list, json_object, json_optional_text, json_with, parse_entries, render_entries,
    string_member, to_lowercase, Json,
};
use crate::text;
use crate::text::{contains_text, meaningful_text, same_text, text_order, trimmed, TextOrder};
use vstd::prelude::*;

verus! {

/// The entry at `i` stands under `name`.
pub open spec fn is_entry_of(entries: Seq<(String, String)>, name: Seq<char>, i: int) -> bool {
    0 <= i < entries.len() && entries[i].0@ == name
}

/// The names that entries stand under.
pub open spec fn entry_names(entries: Seq<(String, String)>) -> Seq<Seq<char>> {
    entries.map_values(|e: (String, String)| e.0@)
}

/// No two entries stand under the same name.
pub open spec fn names_are_distinct(entries: Seq<(String, String)>) -> bool {
    forall|i: int, j: int|
        0 <= i < entries.len() && 0 <= j < entries.len() && i != j ==> #[trigger] entries[i].0@
            != #[trigger] entries[j].0@
}

/// What the entries say, by name.
pub open spec fn entry_map(entries: Seq<(String, String)>) -> Map<Seq<char>, Seq<char>> {
    Map::new(
        |name: Seq<char>| exists|i: int| #[trigger] is_entry_of(entries, name, i),
        |name: Seq<char>| entries[choose|i: int| #[trigger] is_entry_of(entries, name, i)].1@,
    )
}

/// `entries` list what `known` holds, in the order of the names.
pub open spec fn is_listing_of(
    entries: Seq<(String, String)>,
    known: Map<Seq<char>, Seq<char>>,
) -> bool {
    &&& text::is_ascending(entry_names(entries))
    &&& entry_map(entries) == known
}

/// The introductions of the participants, by user id. A later introduction of a
/// participant takes the place of the earlier one.
pub struct Introductions {
    entries: Vec<(String, String)>,
}

impl View for Introductions {
    type V = Map<Seq<char>, Seq<char>>;

    closed spec fn view(&self) -> Map<Seq<char>, Seq<char>> {
        entry_map(self.entries@)
    }
}

impl Introductions {
    /// The entries stand in the order of the names.
    pub closed spec fn wf(self) -> bool {
        text::is_ascending(entry_names(self.entries@))
    }

    /// Knows nobody.
    pub fn new() -> (known: Self)
        ensures
            known.wf(),
            known@ == Map::<Seq<char>, Seq<char>>::empty(),
    {
        let known = Introductions { entries: Vec::new() };
        assert(known@ =~= Map::<Seq<char>, Seq<char>>::empty());
        known
    }

    /// Remembers what `name` said.
    pub fn insert(&mut self, name: String, introduction: String)
        requires
            old(self).wf(),
        ensures
            final(self).wf(),
            final(self)@ == old(self)@.insert(name@, introduction@),
    {
        let ghost before = self.entries@;
        let mut i: usize = 0;
        while i < self.entries.len()
            invariant
                before == old(self).entries@,
                before == self.entries@,
                i <= self.entries@.len(),
                text::is_ascending(entry_names(before)),
                forall|j: int| 0 <= j < i ==> #[trigger] text::precedes(before[j].0@, name@),
            decreases self.entries@.len() - i,
        {
            match text_order(self.entries[i].0.as_str(), name.as_str()) {
                TextOrder::Before => {
                    assert(text::precedes(before[i as int].0@, name@));
                    i = i + 1;
                },
                TextOrder::Same => {
                    self.entries.set(i, (name, introduction));
                    proof {
                        lemma_replace(before, i as int, (name, introduction));
                    }
                    return;
                },
                TextOrder::After => {
                    self.entries.insert(i, (name, introduction));
                    proof {
                        lemma_insert(before, i as int, (name, introduction));
                    }
                    return;
                },
            }
        }
        self.entries.push((name, introduction));
        proof {
            assert(self.entries@ =~= before.insert(i as int, (name, introduction)));
            lemma_insert(before, i as int, (name, introduction));
        }
    }

    /// Whether `name` has introduced itself.
    pub fn contains_name(&self, name: &str) -> (yes: bool)
        requires
            self.wf(),
        ensures
            yes == self@.contains_key(name@),
    {
        let mut i: usize = 0;
        while i < self.entries.len()
            invariant
                i <= self.entries@.len(),
                forall|j: int| 0 <= j < i ==> #[trigger] self.entries@[j].0@ != name@,
            decreases self.entries@.len() - i,
        {
            if same_text(self.entries[i].0.as_str(), name) {
                assert(is_entry_of(self.entries@, name@, i as int));
                return true;
            }
            i = i + 1;
        }
        false
    }

    /// All introductions, in the order of the names.
    pub fn entries(&self) -> (entries: Vec<(String, String)>)
        requires
            self.wf(),
        ensures
            is_listing_of(entries@, self@),
    {
        let mut entries: Vec<(String, String)> = Vec::new();
        let mut i: usize = 0;
        while i < self.entries.len()
            invariant
                i <= self.entries@.len(),
                entries@ == self.entries@.take(i as int),
            decreases self.entries@.len() - i,
        {
            entries.push((self.entries[i].0.clone(), self.entries[i].1.clone()));
            assert(entries@ =~= self.entries@.take(i + 1));
            i = i + 1;
        }
        assert(entries@ =~= self.entries@);
        entries
    }

    /// Takes over introductions in any order.
    pub fn from_entries(entries: Vec<(String, String)>) -> (known: Self)
        requires
            names_are_distinct(entries@),
        ensures
            known.wf(),
            known@ == entry_map(entries@),
    {
        let mut known = Introductions::new();
        let mut i: usize = 0;
        assert(entry_map(entries@.take(0)) =~= Map::<Seq<char>, Seq<char>>::empty());
        while i < entries.len()
            invariant
                names_are_distinct(entries@),
                i <= entries@.len(),
                known.wf(),
                known@ == entry_map(entries@.take(i as int)),
            decreases entries@.len() - i,
        {
            known.insert(entries[i].0.clone(), entries[i].1.clone());
            proof {
                lemma_entry_map_push(entries@, i as int);
            }
            i = i + 1;
        }
        assert(entries@.take(i as int) =~= entries@);
        known
    }

    /// The introductions of those whose names, in lower case, hold `requested`,
    /// in the order of the names.
    pub fn matching(&self, requested: &str) -> (entries: Vec<(String, String)>)
        requires
            self.wf(),
        ensures
            is_listing_of(entries@, matching_entries(self@, requested@)),
            forall|name: Seq<char>| #[trigger]
                entry_names(entries@).contains(name) <==> self@.contains_key(name) && exists|
                    a: Seq<char>,
                    b: Seq<char>,
                | outside::lowercase(name) == #[trigger] (a + requested@ + b),
    {
        let ghost all = self.entries@;
        let ghost wanted = matching_entries(self@, requested@);
        proof {
            lemma_ascending_is_distinct(all);
        }
        let mut entries: Vec<(String, String)> = Vec::new();
        let mut i: usize = 0;
        while i < self.entries.len()
            invariant
                all == self.entries@,
                names_are_distinct(all),
                text::is_ascending(entry_names(all)),
                wanted == matching_entries(entry_map(all), requested@),
                i <= all.len(),
                text::is_ascending(entry_names(entries@)),
                forall|j: int, k: int|
                    0 <= j < entries@.len() && i <= k < all.len() ==> text::precedes(
                        #[trigger] entries@[j].0@,
                        #[trigger] all[k].0@,
                    ),
                forall|j: int|
                    0 <= j < entries@.len() ==> wanted.contains_key(#[trigger] entries@[j].0@)
                        && wanted[entries@[j].0@] == entries@[j].1@,
                forall|k: int|
                    0 <= k < i && wanted.contains_key(#[trigger] all[k].0@) ==> exists|j: int|
                        #[trigger] is_entry_of(entries@, all[k].0@, j),
            decreases all.len() - i,
        {
            let known = to_lowercase(self.entries[i].0.as_str());
            let ghost before = entries@;
            let ghost name = all[i as int].0@;
            proof {
                lemma_entry_map(all, i as int);
                assert forall|k: int| i < k < all.len() implies text::precedes(
                    name,
                    #[trigger] all[k].0@,
                ) by {
                    assert(text::precedes(entry_names(all)[i as int], entry_names(all)[k]));
                }
            }
            if name_matches(known.as_str(), requested) {
                entries.push((self.entries[i].0.clone(), self.entries[i].1.clone()));
                proof {
                    assert(entry_names(entries@) =~= entry_names(before).insert(
                        before.len() as int,
                        name,
                    ));
                    assert forall|j: int| 0 <= j < before.len() implies #[trigger] text::precedes(
                        entry_names(before)[j],
                        name,
                    ) by {
                        assert(text::precedes(before[j].0@, all[i as int].0@));
                    }
                    text::lemma_insert_ascending(entry_names(before), name, before.len() as int);
                    assert forall|k: int|
                        0 <= k < i + 1 && wanted.contains_key(#[trigger] all[k].0@) implies exists|
                        j: int,
                    | #[trigger] is_entry_of(entries@, all[k].0@, j) by {
                        if k < i {
                            let j = choose|j: int| #[trigger] is_entry_of(before, all[k].0@, j);
                            assert(is_entry_of(entries@, all[k].0@, j));
                        } else {
                            assert(is_entry_of(entries@, all[k].0@, before.len() as int));
                        }
                    }
                }
            }
            i = i + 1;
        }
        proof {
            lemma_ascending_is_distinct(entries@);
            assert forall|name: Seq<char>| #[trigger] wanted.contains_key(name) implies exists|
                j: int,
            | #[trigger] is_entry_of(entries@, name, j) by {
                let k = choose|k: int| #[trigger] is_entry_of(all, name, k);
                assert(wanted.contains_key(all[k].0@));
            }
            lemma_entry_map_is(entries@, wanted);
            assert forall|name: Seq<char>| #[trigger]
                entry_names(entries@).contains(name) <==> self@.contains_key(name) && exists|
                    a: Seq<char>,
                    b: Seq<char>,
                | outside::lowercase(name) == #[trigger] (a + requested@ + b) by {
                law_lookup_is_partial(self@, requested@, name);
                lemma_listed_name(entries@, name);
            }
        }
        entries
    }
}

/// The entries of `known` whose names, in lower case, hold `requested`.
pub open spec fn matching_entries(
    known: Map<Seq<char>, Seq<char>>,
    requested: Seq<char>,
) -> Map<Seq<char>, Seq<char>> {
    Map::new(
        |name: Seq<char>|
            known.contains_key(name) && text::contains(outside::lowercase(name), requested),
        |name: Seq<char>| known[name],
    )
}

/// Whether the name `known` answers to `requested`, both in lower case.
pub fn name_matches(known: &str, requested: &str) -> (yes: bool)
    ensures
        yes == text::contains(known@, requested@),
{
    contains_text(known, requested)
}

/// In a list with distinct names an entry is what the list says of its name.
pub proof fn lemma_entry_map(entries: Seq<(String, String)>, i: int)
    requires
        names_are_distinct(entries),
        0 <= i < entries.len(),
    ensures
        entry_map(entries).contains_key(entries[i].0@),
        entry_map(entries)[entries[i].0@] == entries[i].1@,
{
    let name = entries[i].0@;
    assert(is_entry_of(entries, name, i));
    let j = choose|j: int| #[trigger] is_entry_of(entries, name, j);
    assert(is_entry_of(entries, name, j));
    assert(i == j);
}

/// Ascending names are distinct.
pub proof fn lemma_ascending_is_distinct(entries: Seq<(String, String)>)
    requires
        text::is_ascending(entry_names(entries)),
    ensures
        names_are_distinct(entries),
{
    let names = entry_names(entries);
    assert forall|i: int, j: int|
        0 <= i < entries.len() && 0 <= j < entries.len() && i != j implies #[trigger] entries[i].0@
        != #[trigger] entries[j].0@ by {
        if i < j {
            assert(text::precedes(names[i], names[j]));
            text::lemma_precedes_strict(names[i], names[j]);
        } else {
            assert(text::precedes(names[j], names[i]));
            text::lemma_precedes_strict(names[j], names[i]);
        }
    }
}

/// A map is what a list with distinct names says if the list has exactly the
/// map's entries.
proof fn lemma_entry_map_is(entries: Seq<(String, String)>, known: Map<Seq<char>, Seq<char>>)
    requires
        names_are_distinct(entries),
        forall|i: int|
            0 <= i < entries.len() ==> known.contains_key(#[trigger] entries[i].0@)
                && known[entries[i].0@] == entries[i].1@,
        forall|name: Seq<char>| #[trigger]
            known.contains_key(name) ==> exists|i: int| #[trigger] is_entry_of(entries, name, i),
    ensures
        entry_map(entries) == known,
{
    let m = entry_map(entries);
    assert forall|name: Seq<char>| #[trigger] m.contains_key(name) implies known.contains_key(name)
        && m[name] == known[name] by {
        let i = choose|i: int| #[trigger] is_entry_of(entries, name, i);
        lemma_entry_map(entries, i);
    }
    assert(m =~= known);
}

/// The next of the entries adds what it says.
proof fn lemma_entry_map_push(entries: Seq<(String, String)>, i: int)
    requires
        names_are_distinct(entries),
        0 <= i < entries.len(),
    ensures
        entry_map(entries.take(i + 1)) == entry_map(entries.take(i)).insert(
            entries[i].0@,
            entries[i].1@,
        ),
{
    let before = entries.take(i);
    let after = entries.take(i + 1);
    let known = entry_map(before).insert(entries[i].0@, entries[i].1@);
    assert forall|j: int| 0 <= j < after.len() implies known.contains_key(#[trigger] after[j].0@)
        && known[after[j].0@] == after[j].1@ by {
        if j < i {
            assert(after[j] == entries[j]);
            assert(before[j] == entries[j]);
            lemma_entry_map(before, j);
        }
    }
    assert forall|name: Seq<char>| #[trigger] known.contains_key(name) implies exists|j: int|
        #[trigger] is_entry_of(after, name, j) by {
        if name == entries[i].0@ {
            assert(is_entry_of(after, name, i));
        } else {
            let j = choose|j: int| #[trigger] is_entry_of(before, name, j);
            assert(is_entry_of(after, name, j));
        }
    }
    lemma_entry_map_is(after, known);
}

/// Replacing an entry replaces what its name stands for.
proof fn lemma_replace(entries: Seq<(String, String)>, i: int, entry: (String, String))
    requires
        text::is_ascending(entry_names(entries)),
        0 <= i < entries.len(),
        entries[i].0@ == entry.0@,
    ensures
        text::is_ascending(entry_names(entries.update(i, entry))),
        entry_map(entries.update(i, entry)) == entry_map(entries).insert(entry.0@, entry.1@),
{
    let after = entries.update(i, entry);
    assert(entry_names(after) =~= entry_names(entries));
    lemma_ascending_is_distinct(entries);
    lemma_ascending_is_distinct(after);
    let known = entry_map(entries).insert(entry.0@, entry.1@);
    assert forall|j: int| 0 <= j < after.len() implies known.contains_key(#[trigger] after[j].0@)
        && known[after[j].0@] == after[j].1@ by {
        if j != i {
            assert(after[j] == entries[j]);
            assert(entries[j].0@ != entries[i].0@);
            lemma_entry_map(entries, j);
        }
    }
    assert forall|name: Seq<char>| #[trigger] known.contains_key(name) implies exists|j: int|
        #[trigger] is_entry_of(after, name, j) by {
        if name == entry.0@ {
            assert(is_entry_of(after, name, i));
        } else {
            let j = choose|j: int| #[trigger] is_entry_of(entries, name, j);
            assert(is_entry_of(after, name, j));
        }
    }
    lemma_entry_map_is(after, known);
}

/// A new entry between the smaller and the larger names adds what it says.
proof fn lemma_insert(entries: Seq<(String, String)>, i: int, entry: (String, String))
    requires
        text::is_ascending(entry_names(entries)),
        0 <= i <= entries.len(),
        forall|j: int| 0 <= j < i ==> #[trigger] text::precedes(entries[j].0@, entry.0@),
        i < entries.len() ==> text::precedes(entry.0@, entries[i].0@),
    ensures
        text::is_ascending(entry_names(entries.insert(i, entry))),
        entry_map(entries.insert(i, entry)) == entry_map(entries).insert(entry.0@, entry.1@),
{
    let after = entries.insert(i, entry);
    let names = entry_names(entries);
    assert forall|j: int| 0 <= j < i implies #[trigger] text::precedes(names[j], entry.0@) by {
        assert(names[j] == entries[j].0@);
    }
    text::lemma_insert_ascending(names, entry.0@, i);
    assert(entry_names(after) =~= names.insert(i, entry.0@));
    lemma_ascending_is_distinct(entries);
    lemma_ascending_is_distinct(after);
    let known = entry_map(entries).insert(entry.0@, entry.1@);
    assert forall|j: int| 0 <= j < after.len() implies known.contains_key(#[trigger] after[j].0@)
        && known[after[j].0@] == after[j].1@ by {
        if j != i {
            let k = if j < i { j } else { j - 1 };
            assert(after[j] == entries[k]);
            assert(after[j].0@ != after[i].0@);
            lemma_entry_map(entries, k);
        }
    }
    assert forall|name: Seq<char>| #[trigger] known.contains_key(name) implies exists|j: int|
        #[trigger] is_entry_of(after, name, j) by {
        if name == entry.0@ {
            assert(is_entry_of(after, name, i));
        } else {
            let j = choose|j: int| #[trigger] is_entry_of(entries, name, j);
            if j < i {
                assert(is_entry_of(after, name, j));
            } else {
                assert(is_entry_of(after, name, j + 1));
            }
        }
    }
    lemma_entry_map_is(after, known);
}

/// What reading a file gave.
pub enum FileContents {
    /// There is no such file.
    Missing,
    /// The file is there, or may be, but could not be read.
    Unreadable,
    /// The file's bytes.
    Bytes(Vec<u8>),
}

/// Why the introductions could not be loaded or saved.
#[derive(Debug)]
pub enum StoreError {
    /// The file could not be read.
    Unreadable,
    /// The file does not hold introductions.
    Malformed(serde_json::Error),
    /// The introductions could not be written as a document.
    NotSerializable(serde_json::Error),
}

impl StoreError {
    /// What the error says of the file at `path`.
    pub open spec fn describes(self, path: Seq<char>) -> Seq<char> {
        match self {
            StoreError::Unreadable => "failed to read introductions file "@ + path,
            StoreError::Malformed(_) => "failed to parse introductions file "@ + path,
            StoreError::NotSerializable(_) => "failed to serialize known introductions"@,
        }
    }

    /// Describes the error for the file at `path`.
    pub fn message(&self, path: &str) -> (message: String)
        ensures
            message@ == self.describes(path@),
    {
        match self {
            StoreError::Unreadable => "failed to read introductions file ".to_owned().concat(path),
            StoreError::Malformed(_) => "failed to parse introductions file ".to_owned().concat(
                path,
            ),
            StoreError::NotSerializable(_) => "failed to serialize known introductions".to_owned(),
        }
    }
}

/// What the store file says: nothing where it is missing, and otherwise what
/// its document holds, if it can be read and holds anything.
pub open spec fn stored_introductions(file: FileContents) -> Option<Map<Seq<char>, Seq<char>>> {
    match file {
        FileContents::Missing => Some(Map::empty()),
        FileContents::Unreadable => None,
        FileContents::Bytes(document) => outside::document_entries(document@),
    }
}

/// Loads the introductions from the store file.
pub fn load_introductions(file: &FileContents) -> (known: Result<Introductions, StoreError>)
    ensures
        match known {
            Ok(known) => known.wf() && stored_introductions(*file) == Some(known@),
            Err(StoreError::Unreadable) => *file is Unreadable,
            Err(StoreError::Malformed(_)) => *file is Bytes && stored_introductions(
                *file,
            ) is None,
            Err(StoreError::NotSerializable(_)) => false,
        },
{
    match file {
        FileContents::Missing => Ok(Introductions::new()),
        FileContents::Unreadable => Err(StoreError::Unreadable),
        FileContents::Bytes(document) => match parse_entries(document.as_slice()) {
            Ok(entries) => Ok(Introductions::from_entries(entries)),
            Err(error) => Err(StoreError::Malformed(error)),
        },
    }
}

/// Writes the introductions as a document for the store file.
pub fn persist_introductions(known: &Introductions) -> (document: Result<Vec<u8>, StoreError>)
    requires
        known.wf(),
    ensures
        document is Ok,
        outside::document_entries(document->Ok_0@) == Some(known@),
{
    let entries = known.entries();
    proof {
        lemma_ascending_is_distinct(entries@);
    }
    match render_entries(&entries) {
        Ok(document) => Ok(document),
        Err(error) => Err(StoreError::NotSerializable(error)),
    }
}

/// The ids of those who answer to `name`: all whose ids, in lower case, hold the
/// trimmed name in lower case. A blank name is nobody's.
pub open spec fn helper_ids(known: Map<Seq<char>, Seq<char>>, name: Seq<char>) -> Set<Seq<char>> {
    let requested = outside::lowercase(text::trim(name));
    if requested.len() == 0 {
        Set::empty()
    } else {
        matching_entries(known, requested).dom()
    }
}

/// The ids of those who answer to `name`, in ascending order.
pub fn find_user_ids(known: &Introductions, name: &str) -> (ids: Vec<String>)
    requires
        known.wf(),
    ensures
        text::is_ascending(text::texts(ids@)),
        text::texts(ids@).to_set() == helper_ids(known@, name@),
        text::trim(name@).len() == 0 ==> ids@.len() == 0,
        text::trim(name@).len() > 0 ==> text::texts(ids@).to_set() == matching_entries(
            known@,
            outside::lowercase(text::trim(name@)),
        ).dom(),
        text::trim(name@).len() > 0 ==> forall|id: Seq<char>| #[trigger]
            text::texts(ids@).contains(id) <==> known@.contains_key(id) && exists|
                a: Seq<char>,
                b: Seq<char>,
            | outside::lowercase(id) == #[trigger] (a + outside::lowercase(text::trim(name@)) + b),
{
    let requested = to_lowercase(trimmed(name).as_str());
    let mut ids: Vec<String> = Vec::new();
    if requested.as_str().is_empty() {
        assert(text::texts(ids@).to_set() =~= Set::empty());
        return ids;
    }
    let entries = known.matching(requested.as_str());
    let mut i: usize = 0;
    while i < entries.len()
        invariant
            i <= entries@.len(),
            text::texts(ids@) == entry_names(entries@).take(i as int),
        decreases entries@.len() - i,
    {
        let ghost before = ids@;
        ids.push(entries[i].0.clone());
        proof {
            assert(text::texts(ids@) =~= text::texts(before).push(entries@[i as int].0@));
            assert(entry_names(entries@).take(i + 1) =~= entry_names(entries@).take(i as int).push(
                entries@[i as int].0@,
            ));
        }
        i = i + 1;
    }
    proof {
        assert(text::texts(ids@) =~= entry_names(entries@));
        let wanted = helper_ids(known@, name@);
        assert forall|id: Seq<char>| #[trigger] text::texts(ids@).to_set().contains(id)
            <==> wanted.contains(id) by {
            if wanted.contains(id) {
                let k = choose|k: int| #[trigger] is_entry_of(entries@, id, k);
                assert(entry_names(entries@)[k] == id);
            }
            if text::texts(ids@).contains(id) {
                let k = choose|k: int| 0 <= k < ids@.len() && text::texts(ids@)[k] == id;
                assert(is_entry_of(entries@, id, k));
            }
        }
        assert(text::texts(ids@).to_set() =~= wanted);
    }
    ids
}

/// The answer to a question for the known introductions.
pub enum KnownIntroductions {
    /// The introductions cannot be looked at.
    Unavailable {
        /// Whom the question was for, if for anyone.
        requested: Option<String>,
    },
    /// The introductions that a name matches, and all of them.
    Matching {
        /// Whom the question was for.
        requested_name: String,
        /// The introductions of those whom the name matches.
        matches: Vec<(String, String)>,
        /// All introductions.
        all: Vec<(String, String)>,
    },
    /// All introductions.
    All {
        /// All introductions.
        all: Vec<(String, String)>,
    },
}

/// `answer` is the right one to a question for `requested`, of those who are
/// `known`.
pub open spec fn is_answer(
    answer: KnownIntroductions,
    known: Option<Map<Seq<char>, Seq<char>>>,
    requested: Option<Seq<char>>,
) -> bool {
    match (known, requested) {
        (None, _) => answer is Unavailable && text::optional_text(
            answer->requested,
        ) == requested,
        (Some(known), None) => answer is All && is_listing_of(answer->All_all@, known),
        (Some(known), Some(requested)) => {
            &&& answer is Matching
            &&& answer->requested_name@ == requested
            &&& is_listing_of(
                answer->matches@,
                matching_entries(known, outside::lowercase(requested)),
            )
            &&& is_listing_of(answer->Matching_all@, known)
        },
    }
}

/// What `known` holds, where it can be looked at.
pub open spec fn known_map(known: Option<&Introductions>) -> Option<Map<Seq<char>, Seq<char>>> {
    match known {
        Some(known) => Some(known@),
        None => None,
    }
}

/// Answers a question for the known introductions, in general or for one name.
/// `known` is `None` where the introductions cannot be looked at.
pub fn answer_known_introductions(
    known: Option<&Introductions>,
    requested_name: Option<String>,
) -> (answer: KnownIntroductions)
    requires
        known matches Some(known) ==> known.wf(),
    ensures
        is_answer(answer, known_map(known), text::optional_text(requested_name)),
{
    let known = match known {
        Some(known) => known,
        None => {
            return KnownIntroductions::Unavailable { requested: requested_name };
        },
    };
    let all = known.entries();
    match requested_name {
        Some(requested_name) => {
            let lower = to_lowercase(requested_name.as_str());
            let matches = known.matching(lower.as_str());
            KnownIntroductions::Matching { requested_name, matches, all }
        },
        None => KnownIntroductions::All { all },
    }
}

/// An introduction as it is shown to the model.
pub open spec fn entry_json(name: Seq<char>, introduction: Seq<char>) -> Json {
    Json::Object(
        map![
            "name"@ => Json::Text(name),
            "introduction"@ => Json::Text(introduction),
        ],
    )
}

/// Introductions as they are shown to the model.
pub open spec fn entries_json(entries: Seq<(String, String)>) -> Json {
    Json::List(entries.map_values(|entry: (String, String)| entry_json(entry.0@, entry.1@)))
}

/// Among all introductions that an answer shows to the model is what `name` said.
pub open spec fn shows(json: Json, name: Seq<char>, introduction: Seq<char>) -> bool {
    match json {
        Json::Object(members) => members.contains_key("all"@) && match members["all"@] {
            Json::List(items) => items.contains(entry_json(name, introduction)),
            _ => false,
        },
        _ => false,
    }
}

impl KnownIntroductions {
    /// All introductions that the answer lists.
    pub open spec fn listed(self) -> Seq<(String, String)> {
        match self {
            KnownIntroductions::Unavailable { .. } => Seq::empty(),
            KnownIntroductions::Matching { all, .. } => all@,
            KnownIntroductions::All { all } => all@,
        }
    }

    /// The answer as it is shown to the model.
    pub open spec fn json(self) -> Json {
        match self {
            KnownIntroductions::Unavailable { requested } => Json::Object(
                map![
                    "requested_name"@ => match requested {
                        Some(name) => Json::Text(name@),
                        None => Json::Null,
                    },
                    "matches"@ => Json::List(Seq::empty()),
                    "all"@ => Json::List(Seq::empty()),
                    "error"@ => Json::Text("failed to read introductions registry"@),
                ],
            ),
            KnownIntroductions::Matching { requested_name, matches, all } => Json::Object(
                map![
                    "requested_name"@ => Json::Text(requested_name@),
                    "matches"@ => entries_json(matches@),
                    "all"@ => entries_json(all@),
                ],
            ),
            KnownIntroductions::All { all } => Json::Object(map!["all"@ => entries_json(all@)]),
        }
    }

    /// Writes the answer for the model.
    pub fn to_json(&self) -> (value: serde_json::Value)
        ensures
            outside::json_contents(value) == self.json(),
    {
        match self {
            KnownIntroductions::Unavailable { requested } => {
                let nobody: Vec<(String, String)> = Vec::new();
                assert(entries_json(nobody@)->List_0 =~= Seq::<Json>::empty());
                let object = json_with(
                    json_object(),
                    "requested_name",
                    json_optional_text(requested.clone()),
                );
                let object = json_with(object, "matches", write_entries(&nobody));
                let object = json_with(object, "all", write_entries(&nobody));
                json_with(object, "error", json_text("failed to read introductions registry"))
            },
            KnownIntroductions::Matching { requested_name, matches, all } => {
                let object = json_with(
                    json_object(),
                    "requested_name",
                    json_text(requested_name.as_str()),
                );
                let object = json_with(object, "matches", write_entries(matches));
                json_with(object, "all", write_entries(all))
            },
            KnownIntroductions::All { all } => json_with(
                json_object(),
                "all",
                write_entries(all),
            ),
        }
    }
}

/// Writes a text for the model.
pub fn json_text(s: &str) -> (value: serde_json::Value)
    ensures
        outside::json_contents(value) == Json::Text(s@),
{
    json_optional_text(Some(s.to_owned()))
}

/// Writes introductions for the model.
pub fn write_entries(entries: &Vec<(String, String)>) -> (value: serde_json::Value)
    ensures
        outside::json_contents(value) == entries_json(entries@),
{
    let mut items: Vec<serde_json::Value> = Vec::new();
    let mut i: usize = 0;
    while i < entries.len()
        invariant
            i <= entries@.len(),
            items@.len() == i,
            forall|j: int|
                0 <= j < i ==> outside::json_contents(#[trigger] items@[j]) == entry_json(
                    entries@[j].0@,
                    entries@[j].1@,
                ),
        decreases entries@.len() - i,
    {
        let item = json_with(json_object(), "name", json_text(entries[i].0.as_str()));
        let item = json_with(item, "introduction", json_text(entries[i].1.as_str()));
        items.push(item);
        i = i + 1;
    }
    let ghost shown = items@.map_values(|item: serde_json::Value| outside::json_contents(item));
    assert(shown =~= entries_json(entries@)->List_0);
    json_list(items)
}

/// The name in the arguments of a question.
pub open spec fn name_argument(arguments: serde_json::Value) -> Option<Seq<char>> {
    outside::member_text(outside::json_contents(arguments), "name"@)
}

/// Answers a question for the known introductions, put with `arguments`. A blank
/// name counts as none.
pub fn get_known_introductions(
    known: Option<&Introductions>,
    arguments: &serde_json::Value,
) -> (answer: KnownIntroductions)
    requires
        known matches Some(known) ==> known.wf(),
    ensures
        is_answer(answer, known_map(known), text::meaningful(name_argument(*arguments))),
{
    let name = string_member(arguments, "name");
    answer_known_introductions(known, meaningful_text(name))
}

/// What is saved is what is loaded: a document of the known introductions loads
/// as these introductions.
pub proof fn law_saved_introductions_load(
    document: Vec<u8>,
    known: Map<Seq<char>, Seq<char>>,
)
    requires
        outside::document_entries(document@) == Some(known),
    ensures
        stored_introductions(FileContents::Bytes(document)) == Some(known),
{
}

/// Every introduction that is known is in the answer, whoever the question was
/// for, and the model is shown it.
pub proof fn law_all_known_are_listed(
    answer: KnownIntroductions,
    known: Map<Seq<char>, Seq<char>>,
    requested: Option<Seq<char>>,
    name: Seq<char>,
)
    requires
        is_answer(answer, Some(known), requested),
        known.contains_key(name),
    ensures
        exists|i: int| #[trigger]
            is_entry_of(answer.listed(), name, i) && answer.listed()[i].1@ == known[name],
        shows(answer.json(), name, known[name]),
{
    let entries = answer.listed();
    let i = choose|i: int| #[trigger] is_entry_of(entries, name, i);
    assert(is_listing_of(entries, known));
    assert(entry_map(entries).contains_key(name));
    lemma_ascending_is_distinct(entries);
    lemma_entry_map(entries, i);
    let items = entries_json(entries)->List_0;
    assert(items[i] == entry_json(name, known[name]));
}

/// What is learned is listed: the answer over the introductions that are known
/// once `name` has introduced itself shows the model what `name` said.
pub proof fn law_learned_introduction_is_listed(
    answer: KnownIntroductions,
    known: Map<Seq<char>, Seq<char>>,
    name: Seq<char>,
    introduction: Seq<char>,
    requested: Option<Seq<char>>,
)
    requires
        is_answer(answer, Some(known.insert(name, introduction)), requested),
    ensures
        exists|i: int| #[trigger]
            is_entry_of(answer.listed(), name, i) && answer.listed()[i].1@ == introduction,
        shows(answer.json(), name, introduction),
{
    law_all_known_are_listed(answer, known.insert(name, introduction), requested, name);
}

/// Only those who have introduced themselves are found as helpers.
pub proof fn law_found_helpers_are_known(known: Map<Seq<char>, Seq<char>>, name: Seq<char>)
    ensures
        helper_ids(known, name).subset_of(known.dom()),
{
}

/// Whoever is found as a helper is still found when others introduce themselves.
pub proof fn law_helpers_stay_found(
    known: Map<Seq<char>, Seq<char>>,
    other: Seq<char>,
    introduction: Seq<char>,
    name: Seq<char>,
)
    ensures
        helper_ids(known, name).subset_of(helper_ids(known.insert(other, introduction), name)),
{
}

/// A name is looked up without regard to case and to white space around it.
pub proof fn law_lookup_ignores_case(
    known: Map<Seq<char>, Seq<char>>,
    name: Seq<char>,
    other: Seq<char>,
)
    requires
        outside::lowercase(text::trim(name)) == outside::lowercase(text::trim(other)),
    ensures
        helper_ids(known, name) == helper_ids(known, other),
{
}

/// An ascending listing is determined by what it lists: two listings of the same
/// introductions show the same names and texts in the same order.
pub proof fn law_listing_is_unique(
    a: Seq<(String, String)>,
    b: Seq<(String, String)>,
    known: Map<Seq<char>, Seq<char>>,
)
    requires
        is_listing_of(a, known),
        is_listing_of(b, known),
    ensures
        entry_names(a) == entry_names(b),
        forall|i: int| 0 <= i < a.len() ==> #[trigger] a[i].1@ == b[i].1@,
{
    assert forall|name: Seq<char>| #[trigger] entry_names(a).contains(name) <==> entry_names(
        b,
    ).contains(name) by {
        lemma_listed_names(a, name);
        lemma_listed_names(b, name);
    }
    assert(entry_names(a).to_set() =~= entry_names(b).to_set());
    text::lemma_ascending_is_unique(entry_names(a), entry_names(b));
    lemma_ascending_is_distinct(a);
    lemma_ascending_is_distinct(b);
    assert(a.len() == entry_names(a).len());
    assert(b.len() == entry_names(b).len());
    assert forall|i: int| 0 <= i < a.len() implies #[trigger] a[i].1@ == b[i].1@ by {
        assert(entry_names(a)[i] == entry_names(b)[i]);
        lemma_entry_map(a, i);
        lemma_entry_map(b, i);
    }
}

/// The names of a list are those that it says something of.
proof fn lemma_listed_names(entries: Seq<(String, String)>, name: Seq<char>)
    ensures
        entry_names(entries).contains(name) <==> entry_map(entries).contains_key(name),
{
    if entry_names(entries).contains(name) {
        let i = choose|i: int| 0 <= i < entries.len() && entry_names(entries)[i] == name;
        assert(is_entry_of(entries, name, i));
    }
    if entry_map(entries).contains_key(name) {
        let i = choose|i: int| #[trigger] is_entry_of(entries, name, i);
        assert(entry_names(entries)[i] == name);
    }
}

/// A name stands in a list exactly where an entry stands under it.
proof fn lemma_listed_name(entries: Seq<(String, String)>, name: Seq<char>)
    ensures
        entry_names(entries).contains(name) <==> entry_map(entries).contains_key(name),
{
    if entry_names(entries).contains(name) {
        let k = choose|k: int| 0 <= k < entries.len() && entry_names(entries)[k] == name;
        assert(is_entry_of(entries, name, k));
    }
    if entry_map(entries).contains_key(name) {
        let k = choose|k: int| #[trigger] is_entry_of(entries, name, k);
        assert(entry_names(entries)[k] == name);
    }
}

/// A lookup finds a part of a name anywhere in it, without regard to case: a
/// participant is found exactly where the name in lower case is some text, the
/// requested text, and some text. What it finds is what the participant said.
pub proof fn law_lookup_is_partial(
    known: Map<Seq<char>, Seq<char>>,
    requested: Seq<char>,
    name: Seq<char>,
)
    ensures
        matching_entries(known, requested).contains_key(name) <==> known.contains_key(name)
            && exists|a: Seq<char>, b: Seq<char>| outside::lowercase(name) == #[trigger] (a
            + requested + b),
        matching_entries(known, requested).contains_key(name) ==> matching_entries(
            known,
            requested,
        )[name] == known[name],
{
    text::law_contained_text_splits(outside::lowercase(name), requested);
}

/// A helper answers to every part of its id, in any case and with any white space
/// around it, and to nothing else. A blank name is nobody's.
pub proof fn law_helpers_answer_to_parts(
    known: Map<Seq<char>, Seq<char>>,
    name: Seq<char>,
    id: Seq<char>,
)
    ensures
        ({
            let requested = outside::lowercase(text::trim(name));
            helper_ids(known, name).contains(id) <==> requested.len() > 0 && known.contains_key(id)
                && exists|a: Seq<char>, b: Seq<char>| outside::lowercase(id) == #[trigger] (a
                + requested + b)
        }),
{
    law_lookup_is_partial(known, outside::lowercase(text::trim(name)), id);
}

/// Entries under different names say of each name what its entry says, and of no
/// other name anything.
pub proof fn law_entries_speak_for_their_names(entries: Seq<(String, String)>, name: Seq<char>)
    requires
        forall|i: int, j: int|
            0 <= i < entries.len() && 0 <= j < entries.len() && i != j ==> #[trigger] entries[i].0@
                != #[trigger] entries[j].0@,
    ensures
        forall|i: int|
            0 <= i < entries.len() ==> entry_map(entries).contains_key(#[trigger] entries[i].0@)
                && entry_map(entries)[entries[i].0@] == entries[i].1@,
        entry_map(entries).contains_key(name) ==> exists|i: int|
            0 <= i < entries.len() && #[trigger] entries[i].0@ == name,
        entry_names(entries).len() == entries.len(),
        forall|i: int| 0 <= i < entries.len() ==> #[trigger] entry_names(entries)[i]
            == entries[i].0@,
{
    assert forall|i: int| 0 <= i < entries.len() implies entry_map(entries).contains_key(
        #[trigger] entries[i].0@,
    ) && entry_map(entries)[entries[i].0@] == entries[i].1@ by {
        lemma_entry_map(entries, i);
    }
    if entry_map(entries).contains_key(name) {
        let i = choose|i: int| #[trigger] is_entry_of(entries, name, i);
        assert(entries[i].0@ == name);
    }
}

/// A listing holds exactly what is known: every name once, in ascending order, and
/// beside it what was said.
pub proof fn law_listing_shows_what_is_known(
    entries: Seq<(String, String)>,
    known: Map<Seq<char>, Seq<char>>,
    name: Seq<char>,
)
    requires
        is_listing_of(entries, known),
    ensures
        forall|i: int, j: int|
            0 <= i < j < entries.len() ==> text::precedes(
                (#[trigger] entries[i]).0@,
                (#[trigger] entries[j]).0@,
            ),
        forall|i: int|
            0 <= i < entries.len() ==> known.contains_key((#[trigger] entries[i]).0@)
                && known[entries[i].0@] == entries[i].1@,
        known.contains_key(name) ==> exists|i: int|
            0 <= i < entries.len() && (#[trigger] entries[i]).0@ == name,
{
    lemma_ascending_is_distinct(entries);
    assert forall|i: int, j: int| 0 <= i < j < entries.len() implies text::precedes(
        (#[trigger] entries[i]).0@,
        (#[trigger] entries[j]).0@,
    ) by {
        assert(text::precedes(entry_names(entries)[i], entry_names(entries)[j]));
    }
    assert forall|i: int| 0 <= i < entries.len() implies known.contains_key(
        (#[trigger] entries[i]).0@,
    ) && known[entries[i].0@] == entries[i].1@ by {
        lemma_entry_map(entries, i);
    }
    if known.contains_key(name) {
        let i = choose|i: int| #[trigger] is_entry_of(entries, name, i);
        assert(entries[i].0@ == name);
    }
}

/// The answer to a question lists all that is known, and to a question for a name
/// also exactly those whom the name is a part of, each with what was said.
pub proof fn law_answer_lists_matches(
    answer: KnownIntroductions,
    known: Map<Seq<char>, Seq<char>>,
    requested: Option<Seq<char>>,
    name: Seq<char>,
)
    requires
        is_answer(answer, Some(known), requested),
    ensures
        entry_names(answer.listed()).contains(name) <==> known.contains_key(name),
        requested is None ==> answer is All,
        requested is Some ==> {
            &&& answer is Matching
            &&& answer->requested_name@ == requested->Some_0
            &&& entry_names(answer->matches@).contains(name) <==> known.contains_key(name)
                && exists|a: Seq<char>, b: Seq<char>| outside::lowercase(name) == #[trigger] (a
                + outside::lowercase(requested->Some_0) + b)
            &&& forall|i: int|
                0 <= i < answer->matches@.len() ==> known.contains_key(
                    (#[trigger] answer->matches@[i]).0@,
                ) && known[answer->matches@[i].0@] == answer->matches@[i].1@
        },
{
    lemma_listed_name(answer.listed(), name);
    if let Some(requested) = requested {
        let found = matching_entries(known, outside::lowercase(requested));
        lemma_listed_name(answer->matches@, name);
        law_lookup_is_partial(known, outside::lowercase(requested), name);
        law_listing_shows_what_is_known(answer->matches@, found, name);
    }
}

/// An introduction is shown to the model with its name and its text, and a list of
/// them in its order.
pub proof fn law_entries_are_shown(entries: Seq<(String, String)>)
    ensures
        entries_json(entries) matches Json::List(items) ==> {
            &&& items.len() == entries.len()
            &&& forall|i: int| #![trigger items[i]]
                0 <= i < items.len() ==> {
                    &&& items[i] is Object
                    &&& items[i]->Object_0.dom() == set!["name"@, "introduction"@]
                    &&& items[i]->Object_0["name"@] == Json::Text(entries[i].0@)
                    &&& items[i]->Object_0["introduction"@] == Json::Text(entries[i].1@)
                }
        },
        entries_json(entries) is List,
{
    reveal_strlit("name");
    reveal_strlit("introduction");
    assert("name"@.len() != "introduction"@.len());
    let items = entries_json(entries)->List_0;
    assert forall|i: int| #![trigger items[i]] 0 <= i < items.len() implies {
        &&& items[i] is Object
        &&& items[i]->Object_0.dom() == set!["name"@, "introduction"@]
        &&& items[i]->Object_0["name"@] == Json::Text(entries[i].0@)
        &&& items[i]->Object_0["introduction"@] == Json::Text(entries[i].1@)
    } by {
        assert(items[i]->Object_0.dom() =~= set!["name"@, "introduction"@]);
    }
}

/// An answer is shown to the model under fixed keys: all introductions, to a
/// question for a name also that name and those who match, and where nothing can
/// be looked at an error.
pub proof fn law_answer_is_shown(answer: KnownIntroductions)
    ensures
        answer.json() is Object,
        ({
            let members = answer.json()->Object_0;
            match answer {
                KnownIntroductions::All { all } => {
                    &&& members.dom() == set!["all"@]
                    &&& members["all"@] == entries_json(all@)
                },
                KnownIntroductions::Matching { requested_name, matches, all } => {
                    &&& members.dom() == set!["requested_name"@, "matches"@, "all"@]
                    &&& members["requested_name"@] == Json::Text(requested_name@)
                    &&& members["matches"@] == entries_json(matches@)
                    &&& members["all"@] == entries_json(all@)
                },
                KnownIntroductions::Unavailable { requested } => {
                    &&& members.dom() == set!["requested_name"@, "matches"@, "all"@, "error"@]
                    &&& requested is None ==> members["requested_name"@] == Json::Null
                    &&& requested is Some ==> members["requested_name"@] == Json::Text(
                        requested->Some_0@,
                    )
                    &&& members["matches"@] == Json::List(Seq::empty())
                    &&& members["all"@] == Json::List(Seq::empty())
                    &&& members["error"@] == Json::Text("failed to read introductions registry"@)
                },
            }
        }),
{
    reveal_strlit("requested_name");
    reveal_strlit("matches");
    reveal_strlit("all");
    reveal_strlit("error");
    assert("requested_name"@.len() == 14 && "matches"@.len() == 7 && "all"@.len() == 3
        && "error"@.len() == 5);
    let members = answer.json()->Object_0;
    match answer {
        KnownIntroductions::All { all } => {
            assert(members.dom() =~= set!["all"@]);
        },
        KnownIntroductions::Matching { requested_name, matches, all } => {
            assert(members.dom() =~= set!["requested_name"@, "matches"@, "all"@]);
        },
        KnownIntroductions::Unavailable { requested } => {
            assert(members.dom() =~= set!["requested_name"@, "matches"@, "all"@, "error"@]);
        },
    }
}

/// A missing store file holds nothing, an unreadable one cannot be used, and any
/// other holds what its document holds.
pub proof fn law_store_file_holds_its_document(document: Vec<u8>)
    ensures
        stored_introductions(FileContents::Missing) == Some(
            Map::<Seq<char>, Seq<char>>::empty(),
        ),
        stored_introductions(FileContents::Unreadable) is None,
        stored_introductions(FileContents::Bytes(document)) == outside::document_entries(
            document@,
        ),
{
}

/// A failure to read or to parse names the file.
pub proof fn law_store_failure_names_file(error: StoreError, path: Seq<char>)
    ensures
        error is Unreadable ==> error.describes(path) == "failed to read introductions file "@
            + path,
        error is Malformed ==> error.describes(path) == "failed to parse introductions file "@
            + path,
{
}

} // verus!
