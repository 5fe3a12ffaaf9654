//! JSON documents: the state of a workspace's notepads as it is stored,
//! read and edited.

use crate::error::CursorError;
use crate::keyed::{
    distinct_keys, is_last_with_key, lemma_last_counts, lemma_map_of, lemma_map_of_push,
    lemma_replace_last, map_of, pairs_of, put,
};
use crate::models::current_time_text;
use vstd::prelude::*;

verus! {

/// `serde_json::Number`, carried through as an opaque value.
#[verifier::external_type_specification]
#[verifier::external_body]
pub struct ExNumber(serde_json::Number);

/// A JSON document, laid open for reading and editing. An object holds its
/// members as a list; where a key comes twice, the later member counts.
#[derive(Debug)]
pub enum Json {
    Null,
    Bool(bool),
    Number(serde_json::Number),
    Text(String),
    List(Vec<Json>),
    Object(Vec<(String, Json)>),
}

/// A JSON document as a mathematical value.
pub enum JsonView {
    Null,
    Bool(bool),
    Number(serde_json::Number),
    Text(Seq<char>),
    List(Seq<JsonView>),
    Object(Map<Seq<char>, JsonView>),
}

/// The values of `items`, in their order.
pub open spec fn item_views(items: Seq<Json>) -> Seq<JsonView>
    decreases items,
{
    Seq::new(
        items.len(),
        |i: int|
            if 0 <= i < items.len() {
                items[i].model()
            } else {
                JsonView::Null
            },
    )
}

/// The members of an object as pairs of plain values, in their order.
pub open spec fn member_pairs(members: Seq<(String, Json)>) -> Seq<(Seq<char>, JsonView)>
    decreases members,
{
    Seq::new(
        members.len(),
        |i: int|
            if 0 <= i < members.len() {
                (members[i].0@, members[i].1.model())
            } else {
                (Seq::empty(), JsonView::Null)
            },
    )
}

impl Json {
    /// The document as a mathematical value.
    pub open spec fn model(self) -> JsonView
        decreases self,
    {
        match self {
            Json::Null => JsonView::Null,
            Json::Bool(b) => JsonView::Bool(b),
            Json::Number(n) => JsonView::Number(n),
            Json::Text(text) => JsonView::Text(text@),
            Json::List(items) => JsonView::List(item_views(items@)),
            Json::Object(members) => JsonView::Object(map_of(member_pairs(members@))),
        }
    }
}

impl View for Json {
    type V = JsonView;

    open spec fn view(&self) -> JsonView {
        self.model()
    }
}

impl JsonView {
    /// The member `key` of an object; none for any other value.
    pub open spec fn member(self, key: Seq<char>) -> Option<JsonView> {
        match self {
            JsonView::Object(members) => if members.contains_key(key) {
                Some(members[key])
            } else {
                None
            },
            _ => None,
        }
    }

    /// The text of a string; none for any other value.
    pub open spec fn as_text(self) -> Option<Seq<char>> {
        match self {
            JsonView::Text(text) => Some(text),
            _ => None,
        }
    }

    /// The members that a new member can join: those of an object, none
    /// yet for null. No other value takes members.
    pub open spec fn opened(self) -> Option<Map<Seq<char>, JsonView>> {
        match self {
            JsonView::Object(members) => Some(members),
            JsonView::Null => Some(Map::empty()),
            _ => None,
        }
    }

    /// One note: what it says and when it was made.
    pub open spec fn note(content: Seq<char>, created_at: Seq<char>) -> JsonView {
        JsonView::Object(
            Map::empty().insert("content"@, JsonView::Text(content)).insert(
                "created_at"@,
                JsonView::Text(created_at),
            ),
        )
    }

    /// A sub-notepad without notes.
    pub open spec fn empty_tasks() -> JsonView {
        JsonView::Object(Map::empty().insert("list"@, JsonView::List(Seq::empty())))
    }

    /// The state of a workspace that has no notepad yet.
    pub open spec fn empty_state() -> JsonView {
        JsonView::Object(Map::empty().insert("notepads"@, JsonView::Object(Map::empty())))
    }

    /// A list with `note` at its end; none for what is no list.
    pub open spec fn list_with(self, note: JsonView) -> Option<JsonView> {
        match self {
            JsonView::List(items) => Some(JsonView::List(items.push(note))),
            _ => None,
        }
    }

    /// A sub-notepad with `note` at the end of its "list"; none for what
    /// is no object with a list under that key.
    pub open spec fn tasks_with(self, note: JsonView) -> Option<JsonView> {
        match self {
            JsonView::Object(members) => if members.contains_key("list"@) {
                match members["list"@].list_with(note) {
                    Some(list) => Some(JsonView::Object(members.insert("list"@, list))),
                    None => None,
                }
            } else {
                None
            },
            _ => None,
        }
    }

    /// The sub-notepads with `note` added to "tasks", which is made where
    /// it is missing; none where they take no members or "tasks" takes no
    /// note.
    pub open spec fn notepads_with(self, note: JsonView) -> Option<JsonView> {
        match self.opened() {
            Some(members) => {
                let tasks = if members.contains_key("tasks"@) {
                    members["tasks"@]
                } else {
                    JsonView::empty_tasks()
                };
                match tasks.tasks_with(note) {
                    Some(edited) => Some(JsonView::Object(members.insert("tasks"@, edited))),
                    None => None,
                }
            },
            None => None,
        }
    }

    /// The state with `note` added under "notepads", "tasks", "list", where
    /// "notepads" and "tasks" are made if they are missing; none where the
    /// state has no place for the note.
    pub open spec fn with_note(self, note: JsonView) -> Option<JsonView> {
        match self.opened() {
            Some(members) => {
                let notepads = if members.contains_key("notepads"@) {
                    members["notepads"@]
                } else {
                    JsonView::Object(Map::empty())
                };
                match notepads.notepads_with(note) {
                    Some(edited) => Some(JsonView::Object(members.insert("notepads"@, edited))),
                    None => None,
                }
            },
            None => None,
        }
    }
}

/// `Clone` of `serde_json::Number` copies the number: the copy is the same
/// number.
pub assume_specification[ <serde_json::Number as Clone>::clone ](number: &serde_json::Number) -> (copy:
    serde_json::Number)
    ensures
        copy == *number,
;

/// The document that a `serde_json::Value` holds: variant for variant, an
/// array's items in their order, an object's members by their keys.
pub uninterp spec fn json_model(value: serde_json::Value) -> JsonView;

/// What `serde_json::from_str` makes of a text, read as a
/// `serde_json::Value`: the document that the value holds, or none where
/// it reports an error.
pub uninterp spec fn parsed_json(text: Seq<char>) -> Option<JsonView>;

/// What `serde_json::to_string` writes for a value that holds `doc`, or
/// none where it reports an error.
pub uninterp spec fn rendered_json(doc: JsonView) -> Option<Seq<char>>;

/// What `serde_json::to_string_pretty` writes for a value that holds
/// `doc`, or none where it reports an error.
pub uninterp spec fn rendered_pretty(doc: JsonView) -> Option<Seq<char>>;

/// Parses with `serde_json::from_str`. The outcome depends on the text
/// alone and is named, not spelled out.
#[verifier::external_body]
fn parse_value(text: &str) -> (parsed: Result<serde_json::Value, serde_json::Error>)
    ensures
        match parsed {
            Ok(value) => parsed_json(text@) == Some(json_model(value)),
            Err(_) => parsed_json(text@) is None,
        },
{
    serde_json::from_str::<serde_json::Value>(text)
}

/// Writes with `serde_json::to_string`. The outcome depends on the
/// document alone and is named, not spelled out.
#[verifier::external_body]
fn render_value(value: &serde_json::Value) -> (rendered: Result<String, serde_json::Error>)
    ensures
        match rendered {
            Ok(text) => rendered_json(json_model(*value)) == Some(text@),
            Err(_) => rendered_json(json_model(*value)) is None,
        },
{
    serde_json::to_string(value)
}

/// Writes with `serde_json::to_string_pretty`. The outcome depends on the
/// document alone and is named, not spelled out.
#[verifier::external_body]
fn render_value_pretty(value: &serde_json::Value) -> (rendered: Result<String, serde_json::Error>)
    ensures
        match rendered {
            Ok(text) => rendered_pretty(json_model(*value)) == Some(text@),
            Err(_) => rendered_pretty(json_model(*value)) is None,
        },
{
    serde_json::to_string_pretty(value)
}

/// One level of a `serde_json::Value` that is read: its variant, and what
/// stands inside still closed.
enum Opened<'a> {
    Null,
    Bool(bool),
    Number(&'a serde_json::Number),
    Text(&'a String),
    List(&'a Vec<serde_json::Value>),
    Object(Vec<(&'a String, &'a serde_json::Value)>),
}

/// A `serde_json::Value` that was built, seen as the document it holds.
struct Closed(serde_json::Value);

impl View for Closed {
    type V = JsonView;

    closed spec fn view(&self) -> JsonView {
        json_model(self.0)
    }
}

/// One level of a `serde_json::Value` that is built: its variant, and what
/// stands inside already closed.
enum Parts {
    Null,
    Bool(bool),
    Number(serde_json::Number),
    Text(String),
    List(Vec<serde_json::Value>),
    Object(Vec<(String, Closed)>),
}

/// The documents that `items` hold, in their order.
pub open spec fn value_views(items: Seq<serde_json::Value>) -> Seq<JsonView> {
    items.map_values(|item: serde_json::Value| json_model(item))
}

impl<'a> Opened<'a> {
    /// Members that are still closed, as pairs of plain values.
    spec fn pairs(members: Seq<(&'a String, &'a serde_json::Value)>) -> Seq<(Seq<char>, JsonView)> {
        members.map_values(
            |member: (&'a String, &'a serde_json::Value)| (member.0@, json_model(*member.1)),
        )
    }

    /// The document that this level holds.
    spec fn model(self) -> JsonView {
        match self {
            Opened::Null => JsonView::Null,
            Opened::Bool(b) => JsonView::Bool(b),
            Opened::Number(n) => JsonView::Number(*n),
            Opened::Text(text) => JsonView::Text(text@),
            Opened::List(items) => JsonView::List(value_views(items@)),
            Opened::Object(members) => JsonView::Object(map_of(Opened::pairs(members@))),
        }
    }

    /// What stands inside is smaller than `value`.
    spec fn inside(self, value: &serde_json::Value) -> bool {
        match self {
            Opened::List(items) => forall|i: int|
                0 <= i < items@.len() ==> decreases_to!(value => #[trigger] items@[i]),
            Opened::Object(members) => forall|i: int|
                0 <= i < members@.len() ==> decreases_to!(value => (#[trigger] members@[i]).1),
            _ => true,
        }
    }
}

impl Parts {
    /// The document that this level holds.
    spec fn model(self) -> JsonView {
        match self {
            Parts::Null => JsonView::Null,
            Parts::Bool(b) => JsonView::Bool(b),
            Parts::Number(n) => JsonView::Number(n),
            Parts::Text(text) => JsonView::Text(text@),
            Parts::List(items) => JsonView::List(value_views(items@)),
            Parts::Object(members) => JsonView::Object(map_of(pairs_of(members@))),
        }
    }
}

/// Tells the variants of a `serde_json::Value` apart and hands out what
/// stands inside: a number or a text as it is, an array's items in their
/// order, an object's members as its map hands them out. The value holds
/// what its level holds, and what stands inside it is part of it.
#[verifier::external_body]
fn open_value<'a>(value: &'a serde_json::Value) -> (opened: Opened<'a>)
    ensures
        opened.model() == json_model(*value),
        opened.inside(value),
{
    match value {
        serde_json::Value::Null => Opened::Null,
        serde_json::Value::Bool(b) => Opened::Bool(*b),
        serde_json::Value::Number(n) => Opened::Number(n),
        serde_json::Value::String(text) => Opened::Text(text),
        serde_json::Value::Array(items) => Opened::List(items),
        serde_json::Value::Object(members) => Opened::Object(members.iter().collect()),
    }
}

/// Makes the `serde_json::Value` of a variant from what stands inside it.
/// The members of an object, no two with one key, go into its map.
#[verifier::external_body]
fn close_value(parts: Parts) -> (value: serde_json::Value)
    requires
        parts matches Parts::Object(members) ==> distinct_keys(pairs_of(members@)),
    ensures
        json_model(value) == parts.model(),
{
    match parts {
        Parts::Null => serde_json::Value::Null,
        Parts::Bool(b) => serde_json::Value::Bool(b),
        Parts::Number(n) => serde_json::Value::Number(n),
        Parts::Text(text) => serde_json::Value::String(text),
        Parts::List(items) => serde_json::Value::Array(items),
        Parts::Object(members) => serde_json::Value::Object(
            members.into_iter().map(|(key, member)| (key, member.0)).collect(),
        ),
    }
}

/// Lays a `serde_json::Value` open, level by level.
fn json_of_value(value: &serde_json::Value) -> (doc: Json)
    ensures
        doc@ == json_model(*value),
    decreases value,
{
    match open_value(value) {
        Opened::Null => Json::Null,
        Opened::Bool(b) => Json::Bool(b),
        Opened::Number(n) => Json::Number(n.clone()),
        Opened::Text(text) => Json::Text(text.clone()),
        Opened::List(items) => {
            let mut laid: Vec<Json> = Vec::new();
            let mut i: usize = 0;
            while i < items.len()
                invariant
                    i <= items@.len(),
                    laid@.len() == i,
                    forall|j: int| 0 <= j < i ==> (#[trigger] laid@[j])@ == json_model(items@[j]),
                    forall|k: int|
                        0 <= k < items@.len() ==> decreases_to!(value => #[trigger] items@[k]),
                decreases items@.len() - i,
            {
                laid.push(json_of_value(&items[i]));
                i += 1;
            }
            assert(item_views(laid@) =~= value_views(items@));
            Json::List(laid)
        },
        Opened::Object(members) => {
            let mut laid: Vec<(String, Json)> = Vec::new();
            let mut i: usize = 0;
            while i < members.len()
                invariant
                    i <= members@.len(),
                    laid@.len() == i,
                    forall|j: int|
                        0 <= j < i ==> (#[trigger] laid@[j]).0@ == members@[j].0@ && laid@[j].1@
                            == json_model(*members@[j].1),
                    forall|k: int|
                        0 <= k < members@.len() ==> decreases_to!(value => (#[trigger] members@[k]).1),
                decreases members@.len() - i,
            {
                let member = &members[i];
                laid.push((member.0.clone(), json_of_value(member.1)));
                i += 1;
            }
            assert(member_pairs(laid@) =~= Opened::pairs(members@));
            Json::Object(laid)
        },
    }
}

/// Packs a document into a `serde_json::Value`, level by level. Of two
/// members with one key only the later goes into the value.
fn value_of_json(doc: &Json) -> (value: serde_json::Value)
    ensures
        json_model(value) == doc@,
    decreases doc,
{
    match doc {
        Json::Null => close_value(Parts::Null),
        Json::Bool(b) => close_value(Parts::Bool(*b)),
        Json::Number(n) => close_value(Parts::Number(n.clone())),
        Json::Text(text) => close_value(Parts::Text(text.clone())),
        Json::List(items) => {
            let mut packed: Vec<serde_json::Value> = Vec::new();
            let mut i: usize = 0;
            while i < items.len()
                invariant
                    i <= items@.len(),
                    packed@.len() == i,
                    forall|j: int|
                        0 <= j < i ==> json_model(#[trigger] packed@[j]) == items@[j].model(),
                    decreases_to!(doc => items),
                decreases items@.len() - i,
            {
                packed.push(value_of_json(&items[i]));
                i += 1;
            }
            assert(value_views(packed@) =~= item_views(items@));
            close_value(Parts::List(packed))
        },
        Json::Object(members) => {
            let ghost pairs = member_pairs(members@);
            let mut packed: Vec<(String, Closed)> = Vec::new();
            let mut i: usize = 0;
            while i < members.len()
                invariant
                    i <= members@.len(),
                    pairs == member_pairs(members@),
                    distinct_keys(pairs_of(packed@)),
                    map_of(pairs_of(packed@)) == map_of(pairs.take(i as int)),
                    decreases_to!(doc => members),
                decreases members@.len() - i,
            {
                let member = &members[i];
                put(&mut packed, member.0.clone(), Closed(value_of_json(&member.1)));
                proof {
                    assert(pairs.take(i + 1).drop_last() =~= pairs.take(i as int));
                }
                i += 1;
            }
            assert(pairs.take(i as int) =~= pairs);
            close_value(Parts::Object(packed))
        },
    }
}

/// Of two insertions under one key the later counts.
proof fn lemma_insert_twice(
    members: Map<Seq<char>, JsonView>,
    key: Seq<char>,
    first: JsonView,
    second: JsonView,
)
    ensures
        members.insert(key, first).insert(key, second) == members.insert(key, second),
{
}

/// The place of the last member `key` among `members`.
fn last_position_of(members: &Vec<(String, Json)>, key: &String) -> (at: Option<usize>)
    ensures
        match at {
            Some(i) => is_last_with_key(member_pairs(members@), i as int) && members@[i as int].0@
                == key@,
            None => !map_of(member_pairs(members@)).contains_key(key@),
        },
{
    let mut i: usize = members.len();
    while i > 0
        invariant
            i <= members@.len(),
            forall|j: int| i <= j < members@.len() ==> members@[j].0@ != key@,
        decreases i,
    {
        i -= 1;
        if members[i].0 == *key {
            return Some(i);
        }
    }
    proof {
        lemma_map_of(member_pairs(members@));
    }
    None
}

/// Puts `value` in the place of the member at `at` and hands out what
/// stood there.
fn replace_value(members: &mut Vec<(String, Json)>, at: usize, value: Json) -> (former: Json)
    requires
        at < old(members)@.len(),
    ensures
        former == old(members)@[at as int].1,
        final(members)@ == old(members)@.update(at as int, (old(members)@[at as int].0, value)),
{
    let (key, former) = members.remove(at);
    members.insert(at, (key, value));
    former
}

/// The members of `doc` with a member `key` among them, which is `default`
/// where `doc` had none, and the place of that member.
fn open_with_member(doc: Json, key: String, default: Json) -> (opened: Option<
    (Vec<(String, Json)>, usize),
>)
    ensures
        match doc@.opened() {
            Some(members) => opened matches Some((list, at)) && is_last_with_key(
                member_pairs(list@),
                at as int,
            ) && list@[at as int].0@ == key@ && map_of(member_pairs(list@)) == (if members.contains_key(
                key@,
            ) {
                members
            } else {
                members.insert(key@, default@)
            }),
            None => opened is None,
        },
{
    let mut list: Vec<(String, Json)> = match doc {
        Json::Object(members) => members,
        Json::Null => {
            Vec::new()
        },
        _ => { return None; },
    };
    match last_position_of(&list, &key) {
        Some(at) => {
            proof {
                lemma_last_counts(member_pairs(list@), at as int);
            }
            Some((list, at))
        },
        None => {
            let ghost before = member_pairs(list@);
            proof {
                lemma_map_of_push(before, key@, default@);
            }
            list.push((key, default));
            assert(member_pairs(list@) =~= before.push((key@, default@)));
            let at = list.len() - 1;
            Some((list, at))
        },
    }
}

/// Puts `edited` in the place of the member at `at`, which is the last
/// with its key.
fn close_with_member(list: Vec<(String, Json)>, at: usize, edited: Json) -> (doc: Json)
    requires
        is_last_with_key(member_pairs(list@), at as int),
    ensures
        doc@ == JsonView::Object(
            map_of(member_pairs(list@)).insert(list@[at as int].0@, edited@),
        ),
{
    let mut list = list;
    let ghost before = member_pairs(list@);
    proof {
        lemma_replace_last(before, at as int, edited@);
    }
    replace_value(&mut list, at, edited);
    assert(member_pairs(list@) =~= before.update(at as int, (before[at as int].0, edited@)));
    Json::Object(list)
}

/// Takes out the member at `at`, which is the last with its key, and
/// leaves null in its place.
fn take_member(list: &mut Vec<(String, Json)>, at: usize) -> (member: Json)
    requires
        is_last_with_key(member_pairs(old(list)@), at as int),
    ensures
        member@ == map_of(member_pairs(old(list)@))[old(list)@[at as int].0@],
        is_last_with_key(member_pairs(final(list)@), at as int),
        final(list)@[at as int].0 == old(list)@[at as int].0,
        map_of(member_pairs(final(list)@)).insert(old(list)@[at as int].0@, member@) == map_of(
            member_pairs(old(list)@),
        ),
{
    let ghost before = member_pairs(list@);
    proof {
        lemma_last_counts(before, at as int);
        lemma_replace_last(before, at as int, JsonView::Null);
    }
    let member = replace_value(list, at, Json::Null);
    assert(member_pairs(list@) =~= before.update(at as int, (before[at as int].0, JsonView::Null)));
    member
}

impl Json {
    /// Reads a document from its text.
    pub fn parse(text: &str) -> (parsed: Result<Json, CursorError>)
        ensures
            match parsed_json(text@) {
                Some(read) => parsed matches Ok(doc) && doc@ == read,
                None => parsed matches Err(CursorError::Json(_)),
            },
    {
        match parse_value(text) {
            Ok(value) => Ok(json_of_value(&value)),
            Err(error) => Err(CursorError::Json(error)),
        }
    }

    /// Writes a document out as text, on one line.
    pub fn render(&self) -> (rendered: Result<String, CursorError>)
        ensures
            match rendered_json(self@) {
                Some(text) => rendered matches Ok(written) && written@ == text,
                None => rendered matches Err(CursorError::Json(_)),
            },
    {
        let value = value_of_json(self);
        match render_value(&value) {
            Ok(text) => Ok(text),
            Err(error) => Err(CursorError::Json(error)),
        }
    }

    /// The member `key` of an object.
    pub fn member<'a>(&'a self, key: &str) -> (found: Option<&'a Json>)
        ensures
            match self@.member(key@) {
                Some(member) => found matches Some(held) && held@ == member,
                None => found is None,
            },
    {
        match self {
            Json::Object(members) => {
                let wanted = key.to_owned();
                match last_position_of(members, &wanted) {
                    Some(at) => {
                        proof {
                            lemma_last_counts(member_pairs(members@), at as int);
                        }
                        Some(&members[at].1)
                    },
                    None => None,
                }
            },
            _ => None,
        }
    }

    /// The text of a string.
    pub fn as_text(&self) -> (text: Option<&String>)
        ensures
            match self@.as_text() {
                Some(held) => text matches Some(found) && found@ == held,
                None => text is None,
            },
    {
        match self {
            Json::Text(text) => Some(text),
            _ => None,
        }
    }

    /// One note.
    pub fn note(content: String, created_at: String) -> (note: Json)
        ensures
            note@ == JsonView::note(content@, created_at@),
    {
        let mut members: Vec<(String, Json)> = Vec::new();
        proof {
            lemma_map_of_push(Seq::empty(), "content"@, JsonView::Text(content@));
            lemma_map_of_push(
                seq![("content"@, JsonView::Text(content@))],
                "created_at"@,
                JsonView::Text(created_at@),
            );
        }
        members.push(("content".to_owned(), Json::Text(content)));
        members.push(("created_at".to_owned(), Json::Text(created_at)));
        assert(member_pairs(members@) =~= seq![("content"@, JsonView::Text(content@))].push(
            ("created_at"@, JsonView::Text(created_at@)),
        ));
        Json::Object(members)
    }

    /// A sub-notepad without notes.
    fn empty_tasks() -> (tasks: Json)
        ensures
            tasks@ == JsonView::empty_tasks(),
    {
        let items: Vec<Json> = Vec::new();
        assert(item_views(items@) =~= Seq::empty());
        let mut members: Vec<(String, Json)> = Vec::new();
        proof {
            lemma_map_of_push(Seq::empty(), "list"@, JsonView::List(Seq::empty()));
        }
        members.push(("list".to_owned(), Json::List(items)));
        assert(member_pairs(members@) =~= Seq::empty().push(("list"@, JsonView::List(Seq::empty()))));
        Json::Object(members)
    }

    /// An object without members.
    fn empty_object() -> (object: Json)
        ensures
            object@ == JsonView::Object(Map::empty()),
    {
        let members: Vec<(String, Json)> = Vec::new();
        Json::Object(members)
    }

    /// The state of a workspace that has no notepad yet.
    pub fn empty_state() -> (state: Json)
        ensures
            state@ == JsonView::empty_state(),
    {
        let mut members: Vec<(String, Json)> = Vec::new();
        proof {
            lemma_map_of_push(Seq::empty(), "notepads"@, JsonView::Object(Map::empty()));
        }
        members.push(("notepads".to_owned(), Json::empty_object()));
        assert(member_pairs(members@) =~= Seq::empty().push(
            ("notepads"@, JsonView::Object(Map::empty())),
        ));
        Json::Object(members)
    }

    /// A list with `note` at its end.
    fn list_with(self, note: Json) -> (edited: Option<Json>)
        ensures
            match self@.list_with(note@) {
                Some(list) => edited matches Some(doc) && doc@ == list,
                None => edited is None,
            },
    {
        match self {
            Json::List(items) => {
                let mut items = items;
                let ghost before = item_views(items@);
                items.push(note);
                assert(item_views(items@) =~= before.push(note@));
                Some(Json::List(items))
            },
            _ => None,
        }
    }

    /// A sub-notepad with `note` at the end of its list.
    fn tasks_with(self, note: Json) -> (edited: Option<Json>)
        ensures
            match self@.tasks_with(note@) {
                Some(tasks) => edited matches Some(doc) && doc@ == tasks,
                None => edited is None,
            },
    {
        match self {
            Json::Object(members) => {
                let mut members = members;
                match last_position_of(&members, &"list".to_owned()) {
                    Some(at) => {
                        let list = take_member(&mut members, at);
                        let ghost taken = list@;
                        match list.list_with(note) {
                            Some(longer) => {
                                proof {
                                    lemma_insert_twice(
                                        map_of(member_pairs(members@)),
                                        "list"@,
                                        taken,
                                        longer@,
                                    );
                                }
                                Some(close_with_member(members, at, longer))
                            },
                            None => None,
                        }
                    },
                    None => None,
                }
            },
            _ => None,
        }
    }

    /// The sub-notepads with `note` added to "tasks".
    fn notepads_with(self, note: Json) -> (edited: Option<Json>)
        ensures
            match self@.notepads_with(note@) {
                Some(notepads) => edited matches Some(doc) && doc@ == notepads,
                None => edited is None,
            },
    {
        let ghost given = self@.opened();
        match open_with_member(self, "tasks".to_owned(), Json::empty_tasks()) {
            Some((members, at)) => {
                let mut members = members;
                let tasks = take_member(&mut members, at);
                let ghost taken = tasks@;
                match tasks.tasks_with(note) {
                    Some(edited) => {
                        proof {
                            lemma_insert_twice(
                                map_of(member_pairs(members@)),
                                "tasks"@,
                                taken,
                                edited@,
                            );
                            lemma_insert_twice(
                                given.unwrap(),
                                "tasks"@,
                                JsonView::empty_tasks(),
                                edited@,
                            );
                        }
                        Some(close_with_member(members, at, edited))
                    },
                    None => None,
                }
            },
            None => None,
        }
    }

    /// Adds a note to the state of a workspace: at the end of the list
    /// under "notepads", "tasks", "list". Where "notepads" or "tasks" is
    /// missing, or the state is null, it is made first. A state that has
    /// no place for the note yields nothing.
    pub fn with_note(self, content: String, created_at: String) -> (edited: Option<Json>)
        ensures
            match self@.with_note(JsonView::note(content@, created_at@)) {
                Some(state) => edited matches Some(doc) && doc@ == state,
                None => edited is None,
            },
    {
        let note = Json::note(content, created_at);
        let ghost given = self@.opened();
        match open_with_member(self, "notepads".to_owned(), Json::empty_object()) {
            Some((members, at)) => {
                let mut members = members;
                let notepads = take_member(&mut members, at);
                let ghost taken = notepads@;
                match notepads.notepads_with(note) {
                    Some(edited) => {
                        proof {
                            lemma_insert_twice(
                                map_of(member_pairs(members@)),
                                "notepads"@,
                                taken,
                                edited@,
                            );
                            lemma_insert_twice(
                                given.unwrap(),
                                "notepads"@,
                                JsonView::Object(Map::empty()),
                                edited@,
                            );
                        }
                        Some(close_with_member(members, at, edited))
                    },
                    None => None,
                }
            },
            None => None,
        }
    }
}

/// What a state's text becomes when a note is added to it.
pub enum NoteOutcome {
    /// The text does not parse, or the edited state cannot be written.
    Refused,
    /// The state has no place for a note.
    NoPlace,
    /// The new text of the state.
    Written(Seq<char>),
}

/// What adding a note to a state makes of it: `existing` is the state's
/// text, or none for a workspace without a state.
pub open spec fn note_outcome(
    existing: Option<Seq<char>>,
    content: Seq<char>,
    created_at: Seq<char>,
) -> NoteOutcome {
    let start = match existing {
        Some(text) => parsed_json(text),
        None => Some(JsonView::empty_state()),
    };
    match start {
        Some(state) => match state.with_note(JsonView::note(content, created_at)) {
            Some(edited) => match rendered_json(edited) {
                Some(text) => NoteOutcome::Written(text),
                None => NoteOutcome::Refused,
            },
            None => NoteOutcome::NoPlace,
        },
        None => NoteOutcome::Refused,
    }
}

/// The text of a state that may be missing.
pub open spec fn text_of(existing: Option<&str>) -> Option<Seq<char>> {
    match existing {
        Some(text) => Some(text@),
        None => None,
    }
}

/// `written` reports `outcome`: the new text, nothing where the state has
/// no place for a note, or the error of reading or writing the state.
pub open spec fn reports(written: Result<Option<String>, CursorError>, outcome: NoteOutcome) -> bool {
    match outcome {
        NoteOutcome::Written(text) => written matches Ok(Some(new_text)) && new_text@ == text,
        NoteOutcome::NoPlace => written matches Ok(None),
        NoteOutcome::Refused => written matches Err(CursorError::Json(_)),
    }
}

/// The text of a workspace's state after a note was added at `created_at`:
/// the new text, or nothing where the state has no place for a note, or
/// the error of reading or writing the state.
pub fn add_note_at(existing: Option<&str>, content: &str, created_at: &str) -> (written: Result<
    Option<String>,
    CursorError,
>)
    ensures
        reports(written, note_outcome(text_of(existing), content@, created_at@)),
{
    let state = match existing {
        Some(text) => match Json::parse(text) {
            Ok(state) => state,
            Err(error) => { return Err(error); },
        },
        None => Json::empty_state(),
    };
    match state.with_note(content.to_owned(), created_at.to_owned()) {
        Some(edited) => match edited.render() {
            Ok(text) => Ok(Some(text)),
            Err(error) => Err(error),
        },
        None => Ok(None),
    }
}

/// The text of a workspace's state after a note was added, stamped with
/// the clock's reading.
pub fn add_note(existing: Option<&str>, content: &str) -> (written: Result<
    Option<String>,
    CursorError,
>)
    ensures
        exists|created_at: Seq<char>|
            reports(written, #[trigger] note_outcome(text_of(existing), content@, created_at)),
{
    let created_at = current_time_text();
    add_note_at(existing, content, created_at.as_str())
}

/// A JSON text laid out over several lines, as `serde_json` prints it.
pub fn reformat(text: &str) -> (pretty: Result<String, CursorError>)
    ensures
        match parsed_json(text@) {
            Some(read) => match rendered_pretty(read) {
                Some(laid_out) => pretty matches Ok(written) && written@ == laid_out,
                None => pretty matches Err(CursorError::Json(_)),
            },
            None => pretty matches Err(CursorError::Json(_)),
        },
{
    match parse_value(text) {
        Ok(value) => match render_value_pretty(&value) {
            Ok(laid_out) => Ok(laid_out),
            Err(error) => Err(CursorError::Json(error)),
        },
        Err(error) => Err(CursorError::Json(error)),
    }
}

} // verus!
