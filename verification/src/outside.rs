//! What the library takes from other crates and from the standard library
//! without proof.

use crate::introductions;
use crate::text;
use matrix_sdk::authentication::matrix::MatrixSession;
use std::collections::HashMap;
use std::path::Path;
use vstd::prelude::*;

verus! {

/// What `str::to_lowercase` makes of a text.
pub uninterp spec fn lowercase(s: Seq<char>) -> Seq<char>;

/// Calls `str::to_lowercase`. Claims that the result depends on the text alone,
/// and that it is empty exactly where the text is, as every character has a
/// lower case of one or more characters.
#[verifier::external_body]
pub(crate) fn to_lowercase(s: &str) -> (lower: String)
    ensures
        lower@ == lowercase(s@),
        lower@.len() == 0 <==> s@.len() == 0,
{
    s.to_lowercase()
}

/// Whether `matrix_sdk::ruma::UserId::parse` accepts a text as a user id.
pub uninterp spec fn is_user_id(s: Seq<char>) -> bool;

/// Calls `matrix_sdk::ruma::UserId::parse`. Claims that whether it accepts a
/// text depends on the text alone, that the id it gives reads as the text does,
/// and that it accepts only texts that begin with `@` and hold a colon.
#[verifier::external_body]
pub(crate) fn parse_user_id(s: &str) -> (id: Option<String>)
    ensures
        match id {
            Some(id) => is_user_id(s@) && id@ == s@ && s@.len() > 0 && s@[0] == '@'
                && s@.contains(':'),
            None => !is_user_id(s@),
        },
{
    matrix_sdk::ruma::UserId::parse(s).ok().map(|id| id.to_string())
}

/// An error of `serde_json`.
#[verifier::external_type_specification]
#[verifier::external_body]
pub struct ExJsonError(serde_json::Error);

/// A JSON value of `serde_json`.
#[verifier::external_type_specification]
#[verifier::external_body]
pub struct ExJsonValue(serde_json::Value);

/// What a JSON value holds.
#[verifier::ext_equal]
pub enum Json {
    /// Nothing.
    Null,
    /// A text.
    Text(Seq<char>),
    /// Values in a row.
    List(Seq<Json>),
    /// Values under keys.
    Object(Map<Seq<char>, Json>),
    /// A number or a truth value.
    Other,
}

/// What a value of `serde_json` holds.
pub uninterp spec fn json_contents(value: serde_json::Value) -> Json;

/// The text that an object holds under a key.
pub open spec fn member_text(json: Json, key: Seq<char>) -> Option<Seq<char>> {
    match json {
        Json::Object(members) => if members.contains_key(key) {
            match members[key] {
                Json::Text(text) => Some(text),
                _ => None,
            }
        } else {
            None
        },
        _ => None,
    }
}

/// Calls `serde_json::Value::get` with a key and `serde_json::Value::as_str` on
/// what it gives. Claims that they find a text exactly where the value is an
/// object that holds a text under the key, and give that text.
#[verifier::external_body]
pub(crate) fn string_member(value: &serde_json::Value, key: &str) -> (member: Option<String>)
    ensures
        text::optional_text(member) == member_text(json_contents(*value), key@),
{
    value.get(key).and_then(|member| member.as_str()).map(|s| s.to_string())
}

/// Calls `serde_json::Value::from` on an optional text. Claims that the value
/// holds the text, or nothing where there is none.
#[verifier::external_body]
pub(crate) fn json_optional_text(s: Option<String>) -> (value: serde_json::Value)
    ensures
        json_contents(value) == match s {
            Some(s) => Json::Text(s@),
            None => Json::Null,
        },
{
    serde_json::Value::from(s)
}

/// Calls `serde_json::Value::from` on values in a row. Claims that the value
/// holds them in their order.
#[verifier::external_body]
pub(crate) fn json_list(items: Vec<serde_json::Value>) -> (value: serde_json::Value)
    ensures
        json_contents(value) == Json::List(
            items@.map_values(|item: serde_json::Value| json_contents(item)),
        ),
{
    serde_json::Value::from(items)
}

/// Calls `serde_json::Map::new` for an object. Claims that it holds nothing.
#[verifier::external_body]
pub(crate) fn json_object() -> (value: serde_json::Value)
    ensures
        json_contents(value) == Json::Object(Map::empty()),
{
    serde_json::Value::Object(serde_json::Map::new())
}

/// Assigns to a key of a `serde_json::Value` that is an object. Claims that the
/// object then holds the member under the key, and all else as before.
#[verifier::external_body]
pub(crate) fn json_with(value: serde_json::Value, key: &str, member: serde_json::Value) -> (object:
    serde_json::Value)
    requires
        json_contents(value) is Object,
    ensures
        json_contents(object) == Json::Object(
            json_contents(value)->Object_0.insert(key@, json_contents(member)),
        ),
{
    let mut object = value;
    object[key] = member;
    object
}

/// The map from strings to strings that `serde_json::from_slice` reads from a
/// document, if it reads one.
pub uninterp spec fn document_entries(document: Seq<u8>) -> Option<Map<Seq<char>, Seq<char>>>;

/// Calls `serde_json::from_slice` for a map from strings to strings. Claims that
/// the map, or the failure, depends on the document alone. The entries come in
/// no particular order.
#[verifier::external_body]
pub(crate) fn parse_entries(document: &[u8]) -> (entries: Result<
    Vec<(String, String)>,
    serde_json::Error,
>)
    ensures
        match entries {
            Ok(entries) => introductions::names_are_distinct(entries@) && document_entries(
                document@,
            ) == Some(introductions::entry_map(entries@)),
            Err(_) => document_entries(document@) is None,
        },
{
    let entries: HashMap<String, String> = serde_json::from_slice(document)?;
    Ok(entries.into_iter().collect())
}

/// Calls `serde_json::to_vec_pretty` on a map from strings to strings. Claims
/// that it succeeds, as keys and values are strings, and that the document it
/// writes is read back as the same map. The order of the entries in it is open.
#[verifier::external_body]
pub(crate) fn render_entries(entries: &Vec<(String, String)>) -> (document: Result<
    Vec<u8>,
    serde_json::Error,
>)
    requires
        introductions::names_are_distinct(entries@),
    ensures
        document is Ok,
        document_entries(document->Ok_0@) == Some(introductions::entry_map(entries@)),
{
    let entries: HashMap<&String, &String> = entries.iter().map(|e| (&e.0, &e.1)).collect();
    serde_json::to_vec_pretty(&entries)
}

/// A session of a Matrix client.
#[verifier::external_type_specification]
#[verifier::external_body]
pub struct ExMatrixSession(MatrixSession);

/// The session that `serde_json::from_slice` reads from a document, if it reads
/// one.
pub uninterp spec fn document_session(document: Seq<u8>) -> Option<MatrixSession>;

/// Calls `serde_json::from_slice` for a session. Claims that the session, or the
/// failure, depends on the document alone.
#[verifier::external_body]
pub(crate) fn parse_session(document: &[u8]) -> (session: Result<MatrixSession, serde_json::Error>)
    ensures
        match session {
            Ok(session) => document_session(document@) == Some(session),
            Err(_) => document_session(document@) is None,
        },
{
    serde_json::from_slice(document)
}

/// Calls `serde_json::to_vec_pretty` on a session. Claims that it succeeds, as a
/// session is made of ids and tokens under fixed keys, and that the document it
/// writes is read back as the same session.
#[verifier::external_body]
pub(crate) fn render_session(session: &MatrixSession) -> (document: Result<
    Vec<u8>,
    serde_json::Error,
>)
    ensures
        document is Ok,
        document_session(document->Ok_0@) == Some(*session),
{
    serde_json::to_vec_pretty(session)
}

/// Why a text is no identifier of a session.
#[derive(Clone, Copy, Debug, PartialEq, Eq, Structural)]
pub enum IdentityFault {
    /// It is empty.
    Empty,
    /// It is longer than 512 bytes.
    TooLong,
    /// It holds a null character.
    ContainsNull,
}

/// What keeps a text from being an identifier, the first fault deciding.
pub open spec fn identity_fault(s: Seq<char>) -> Option<IdentityFault> {
    if s.len() == 0 {
        Some(IdentityFault::Empty)
    } else if vstd::utf8::encode_utf8(s).len() > 512 {
        Some(IdentityFault::TooLong)
    } else if s.contains('\0') {
        Some(IdentityFault::ContainsNull)
    } else {
        None
    }
}

/// Calls `adk_rust::UserId::new`. Claims that it refuses a text for the faults
/// of `identity_fault` and otherwise keeps it as it is.
#[verifier::external_body]
pub(crate) fn adk_user_id(s: &str) -> (id: Result<String, IdentityFault>)
    ensures
        match id {
            Ok(id) => identity_fault(s@) is None && id@ == s@,
            Err(fault) => identity_fault(s@) == Some(fault),
        },
{
    match adk_rust::UserId::new(s) {
        Ok(id) => Ok(id.to_string()),
        Err(adk_rust::IdentityError::Empty { .. }) => Err(IdentityFault::Empty),
        Err(adk_rust::IdentityError::TooLong { .. }) => Err(IdentityFault::TooLong),
        Err(adk_rust::IdentityError::ContainsNull { .. }) => Err(IdentityFault::ContainsNull),
    }
}

/// Calls `adk_rust::SessionId::new`. Claims that it refuses a text for the
/// faults of `identity_fault` and otherwise keeps it as it is.
#[verifier::external_body]
pub(crate) fn adk_session_id(s: &str) -> (id: Result<String, IdentityFault>)
    ensures
        match id {
            Ok(id) => identity_fault(s@) is None && id@ == s@,
            Err(fault) => identity_fault(s@) == Some(fault),
        },
{
    match adk_rust::SessionId::new(s) {
        Ok(id) => Ok(id.to_string()),
        Err(adk_rust::IdentityError::Empty { .. }) => Err(IdentityFault::Empty),
        Err(adk_rust::IdentityError::TooLong { .. }) => Err(IdentityFault::TooLong),
        Err(adk_rust::IdentityError::ContainsNull { .. }) => Err(IdentityFault::ContainsNull),
    }
}

/// Calls `adk_rust::AppName::new`. Claims that it refuses a text for the faults
/// of `identity_fault` and otherwise keeps it as it is.
#[verifier::external_body]
pub(crate) fn adk_app_name(s: &str) -> (name: Result<String, IdentityFault>)
    ensures
        match name {
            Ok(name) => identity_fault(s@) is None && name@ == s@,
            Err(fault) => identity_fault(s@) == Some(fault),
        },
{
    match adk_rust::AppName::new(s) {
        Ok(name) => Ok(name.to_string()),
        Err(adk_rust::IdentityError::Empty { .. }) => Err(IdentityFault::Empty),
        Err(adk_rust::IdentityError::TooLong { .. }) => Err(IdentityFault::TooLong),
        Err(adk_rust::IdentityError::ContainsNull { .. }) => Err(IdentityFault::ContainsNull),
    }
}

/// A name that is a single component of a path on every system.
pub open spec fn is_file_name(name: Seq<char>) -> bool {
    &&& name.len() > 0
    &&& !name.contains('/')
    &&& !name.contains('\\')
    &&& !name.contains(':')
    &&& name != "."@
    &&& name != ".."@
}

/// A path that every system reads in the same way: without a backslash, and
/// without a drive or two slashes in front.
pub open spec fn is_common_path(path: Seq<char>) -> bool {
    &&& !path.contains('\\')
    &&& !(path.len() > 1 && path[1] == ':')
    &&& !(path.len() > 1 && path[0] == '/' && path[1] == '/')
}

/// How many characters in front of a path say only where it begins: a slash, or
/// a dot that stands alone or before a slash.
pub open spec fn start_len(path: Seq<char>) -> int {
    if path.len() > 0 && (path[0] == '/' || (path[0] == '.' && (path.len() == 1 || path[1]
        == '/'))) {
        1
    } else {
        0
    }
}

/// A path without its last piece and the slash before it, the first `n`
/// characters staying in any case.
pub open spec fn without_piece(path: Seq<char>, n: int) -> Seq<char>
    decreases path.len(),
{
    if path.len() == 0 || path.len() <= n {
        path
    } else if path.last() == '/' {
        path.drop_last()
    } else {
        without_piece(path.drop_last(), n)
    }
}

/// The last piece of a path is `piece`, behind its first `n` characters.
pub open spec fn ends_in_piece(path: Seq<char>, piece: Seq<char>, n: int) -> bool {
    let i = path.len() - piece.len();
    &&& i >= n
    &&& text::ends_with(path, piece)
    &&& i == n || path[i - 1] == '/'
}

/// A path without the slashes and the single dots that end it, the first `n`
/// characters staying in any case.
pub open spec fn tidied(path: Seq<char>, n: int) -> Seq<char>
    decreases path.len(),
{
    if path.len() == 0 || path.len() <= n {
        path
    } else if path.last() == '/' || ends_in_piece(path, seq!['.'], n) {
        tidied(path.drop_last(), n)
    } else {
        path
    }
}

/// The directory that a common path names for what it ends with: all before its
/// last piece that is neither empty nor a single dot, without the slashes and
/// single dots that end it. A slash in front belongs to nothing, and a path
/// without any piece names no directory.
pub open spec fn parent_of(path: Seq<char>) -> Option<Seq<char>> {
    let n = start_len(path);
    let t = tidied(path, n);
    if t.len() > n {
        Some(tidied(without_piece(t, n), n))
    } else if t == seq!['.'] {
        Some(Seq::empty())
    } else {
        None
    }
}

/// A common path ends with a file's name, and not with a step up.
pub open spec fn names_file(path: Seq<char>) -> bool {
    let n = start_len(path);
    let t = tidied(path, n);
    t.len() > n && !ends_in_piece(t, seq!['.', '.'], n)
}

/// A path is `dir`, a separator of one system or another, and `file_name`.
pub open spec fn is_joined(path: Seq<char>, dir: Seq<char>, file_name: Seq<char>) -> bool {
    path == dir + seq!['/'] + file_name || path == dir + seq!['\\'] + file_name
}

/// A directory in a form of one system alone, in which parts of the path are
/// taken out when something is joined to it.
pub open spec fn is_verbatim(dir: Seq<char>) -> bool {
    text::starts_with(dir, seq!['\\', '\\', '?', '\\'])
}

/// What is known of the path of a file `file_name` in the directory `dir`: it
/// ends with the file name, and unless `dir` is verbatim, all of `dir` stands
/// before it, with a separator between unless `dir` is empty or ends with one. A
/// drive alone may go without a separator, and a backslash may be one.
pub open spec fn is_path_in(path: Seq<char>, dir: Seq<char>, file_name: Seq<char>) -> bool {
    &&& text::ends_with(path, file_name)
    &&& !is_verbatim(dir) ==> if dir.len() == 0 || dir.last() == '/' {
        path == dir + file_name
    } else if dir.last() == '\\' || (dir.len() == 2 && dir[1] == ':') {
        path == dir + file_name || is_joined(path, dir, file_name)
    } else {
        is_joined(path, dir, file_name)
    }
}

/// What is known of the path that stands in place of `path` for a file
/// `file_name` in the same directory: it ends with the file name, and where
/// `path` is common, it is that of the file in the directory that `path` names,
/// or in `path` itself if that does not end with a file's name.
pub open spec fn is_sibling(sibling: Seq<char>, path: Seq<char>, file_name: Seq<char>) -> bool {
    &&& text::ends_with(sibling, file_name)
    &&& is_common_path(path) ==> is_path_in(
        sibling,
        if names_file(path) {
            parent_of(path)->Some_0
        } else {
            path
        },
        file_name,
    )
}

/// What is known of the directory that a path names for what it ends with: it is
/// a beginning of the path, and where the path is common, it is `parent_of` it.
pub open spec fn is_parent(parent: Option<Seq<char>>, path: Seq<char>) -> bool {
    &&& parent matches Some(parent) ==> text::starts_with(path, parent)
    &&& is_common_path(path) ==> parent == parent_of(path)
}

/// Calls `std::path::Path::with_file_name`. Claims what `is_sibling` says. Whether
/// a backslash separates, and whether a colon or two slashes in front make a
/// drive or a share, depends on the system at hand, so that the directory is open
/// where `path` is not common.
#[verifier::external_body]
pub(crate) fn sibling_path(path: &str, file_name: &str) -> (sibling: String)
    requires
        is_file_name(file_name@),
    ensures
        is_sibling(sibling@, path@, file_name@),
{
    Path::new(path).with_file_name(file_name).to_string_lossy().into_owned()
}

/// Calls `std::path::Path::join`. Claims what `is_path_in` says. Which separator is
/// put in depends on the system at hand, and so does what a verbatim directory
/// keeps.
#[verifier::external_body]
pub(crate) fn path_in(dir: &str, file_name: &str) -> (path: String)
    requires
        is_file_name(file_name@),
    ensures
        is_path_in(path@, dir@, file_name@),
{
    Path::new(dir).join(file_name).to_string_lossy().into_owned()
}

/// Calls `std::path::Path::parent`. Claims what `is_parent` says. Whether a
/// backslash separates, and whether a colon or two slashes in front make a drive
/// or a share, depends on the system at hand, so that only the first part of it
/// is said of paths that are not common.
#[verifier::external_body]
pub(crate) fn parent_path(path: &str) -> (parent: Option<String>)
    ensures
        is_parent(text::optional_text(parent), path@),
{
    Path::new(path).parent().map(|parent| parent.to_string_lossy().into_owned())
}

/// A file name alone is a common path, and names the empty directory.
pub proof fn lemma_parent_of_file_name(name: Seq<char>)
    requires
        is_file_name(name),
    ensures
        is_common_path(name),
        names_file(name),
        parent_of(name) == Some(Seq::<char>::empty()),
{
    reveal_strlit(".");
    reveal_strlit("..");
    let last = name.last();
    assert(name.contains(last) && name.contains(name[0]));
    assert(name.len() > 1 ==> name.contains(name[1]));
    assert(name.len() > 1 ==> name.contains(name[name.len() - 2]));
    assert(name.len() > 2 ==> name.contains(name[name.len() - 3]));
    assert(start_len(name) == 0) by {
        if name.len() == 1 && name[0] == '.' {
            assert(name =~= "."@);
        }
    }
    assert(!ends_in_piece(name, seq!['.'], 0)) by {
        if ends_in_piece(name, seq!['.'], 0) && name.len() == 1 {
            assert(name.subrange(0, 1) =~= name);
            assert(name =~= "."@);
        }
    }
    assert(!ends_in_piece(name, seq!['.', '.'], 0)) by {
        if ends_in_piece(name, seq!['.', '.'], 0) && name.len() == 2 {
            assert(name.subrange(0, 2) =~= name);
            assert(name =~= ".."@);
        }
    }
    assert(tidied(name, 0) == name);
    lemma_without_only_piece(name);
    assert(tidied(Seq::<char>::empty(), 0) =~= Seq::<char>::empty());
}

/// Nothing is left of a single piece.
proof fn lemma_without_only_piece(name: Seq<char>)
    requires
        !name.contains('/'),
    ensures
        without_piece(name, 0) == Seq::<char>::empty(),
    decreases name.len(),
{
    if name.len() == 0 {
        assert(name =~= Seq::<char>::empty());
    } else {
        assert(name.contains(name.last()));
        let front = name.drop_last();
        assert(!front.contains('/')) by {
            if front.contains('/') {
                let k = choose|k: int| 0 <= k < front.len() && front[k] == '/';
                assert(name[k] == '/');
            }
        }
        lemma_without_only_piece(front);
    }
}

/// Tidying leaves a beginning of a path.
proof fn lemma_tidied_is_beginning(path: Seq<char>, n: int)
    ensures
        tidied(path, n).len() <= path.len(),
        tidied(path, n) == path.take(tidied(path, n).len() as int),
    decreases path.len(),
{
    if path.len() > 0 && path.len() > n && (path.last() == '/' || ends_in_piece(
        path,
        seq!['.'],
        n,
    )) {
        lemma_tidied_is_beginning(path.drop_last(), n);
        let t = tidied(path, n);
        assert(path.drop_last().take(t.len() as int) =~= path.take(t.len() as int));
    } else {
        assert(path.take(path.len() as int) =~= path);
    }
}

/// Taking a piece away leaves a beginning of a path.
proof fn lemma_without_piece_is_beginning(path: Seq<char>, n: int)
    ensures
        without_piece(path, n).len() <= path.len(),
        without_piece(path, n) == path.take(without_piece(path, n).len() as int),
    decreases path.len(),
{
    if path.len() == 0 || path.len() <= n {
        assert(path.take(path.len() as int) =~= path);
    } else if path.last() != '/' {
        lemma_without_piece_is_beginning(path.drop_last(), n);
        let t = without_piece(path, n);
        assert(path.drop_last().take(t.len() as int) =~= path.take(t.len() as int));
    }
}

/// The directory that a common path names is a beginning of the path, and a
/// shorter one.
pub proof fn law_parent_is_beginning(path: Seq<char>)
    ensures
        parent_of(path) matches Some(parent) ==> parent.len() < path.len() && text::starts_with(
            path,
            parent,
        ),
{
    let n = start_len(path);
    let t = tidied(path, n);
    let w = without_piece(t, n);
    let u = tidied(w, n);
    lemma_tidied_is_beginning(path, n);
    lemma_without_piece_is_beginning(t, n);
    lemma_tidied_is_beginning(w, n);
    assert(t.len() > n ==> w.len() < t.len()) by {
        if t.len() > n && t.last() != '/' {
            lemma_without_piece_is_beginning(t.drop_last(), n);
        }
    }
    if let Some(parent) = parent_of(path) {
        assert(parent =~= path.take(parent.len() as int));
        assert(path.subrange(0, parent.len() as int) =~= parent);
    }
}

} // verus!
