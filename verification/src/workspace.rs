//! Which directories are workspaces, what they are called, and in which
//! order they are listed.

use crate::models::{Workspace, WorkspaceConfig};
use vstd::prelude::*;
use vstd::string::StrSliceExecFns;

verus! {

/// What `char::is_numeric` returns for a character: whether Unicode puts it
/// in one of its general categories for numbers (Nd, Nl, No).
pub uninterp spec fn is_numeric_char(c: char) -> bool;

/// Asks `char::is_numeric` of std. The answer is named, not spelled out: it
/// rests on the Unicode tables that std carries.
#[verifier::external_body]
fn char_is_numeric(c: char) -> (numeric: bool)
    ensures
        numeric == is_numeric_char(c),
{
    c.is_numeric()
}

/// Every character of `text` is numeric. True of the empty text.
pub open spec fn all_numeric(text: Seq<char>) -> bool {
    forall|i: int| 0 <= i < text.len() ==> is_numeric_char(#[trigger] text[i])
}

/// Whether a directory of this name is listed as a workspace: not the two
/// service directories, and not a name made of numerals alone, which marks
/// a temporary workspace.
pub open spec fn is_listed_name(id: Seq<char>) -> bool {
    id != "ext-dev"@ && id != "images"@ && !all_numeric(id)
}

/// Whether every character of `text` is numeric.
fn is_all_numeric(text: &str) -> (yes: bool)
    ensures
        yes == all_numeric(text@),
{
    let len = text.unicode_len();
    let mut i: usize = 0;
    while i < len
        invariant
            len == text@.len(),
            i <= len,
            forall|j: int| 0 <= j < i ==> is_numeric_char(#[trigger] text@[j]),
        decreases len - i,
    {
        if !char_is_numeric(text.get_char(i)) {
            return false;
        }
        i += 1;
    }
    true
}

/// Whether a directory named `id` is listed as a workspace.
pub fn is_listed(id: &str) -> (yes: bool)
    ensures
        yes == is_listed_name(id@),
{
    let name = id.to_owned();
    if name == "ext-dev".to_owned() || name == "images".to_owned() {
        return false;
    }
    !is_all_numeric(id)
}

/// What `Path::file_name` of std gives for a path that is written as a
/// text: its last component, or none where the path has none. std reads a
/// path by the rules of the platform it is built for; the name stands for
/// what it gives there.
pub uninterp spec fn last_component_of(path: Seq<char>) -> Option<Seq<char>>;

/// Takes the last component of a path with `Path::file_name` of std and
/// hands it out as a text. The answer depends on the path alone and is
/// named, not spelled out.
#[verifier::external_body]
fn last_component(path: &str) -> (name: Option<String>)
    ensures
        match name {
            Some(found) => last_component_of(path@) == Some(found@),
            None => last_component_of(path@) is None,
        },
{
    std::path::Path::new(path).file_name().and_then(|name| name.to_str()).map(|name| name.to_owned())
}

/// The project name that a workspace description gives: the last component
/// of the folder it names, where it names one.
pub open spec fn project_name_in(content: Seq<char>) -> Option<Seq<char>> {
    match WorkspaceConfig::folder_in(content) {
        Some(folder) => last_component_of(folder),
        None => None,
    }
}

/// The project name that a workspace description gives: the last component
/// of the folder it names. A description that names no folder gives none,
/// and so does a folder without a last component.
pub fn project_name_from_config(content: &str) -> (name: Option<String>)
    ensures
        match project_name_in(content@) {
            Some(project) => name matches Some(found) && found@ == project,
            None => name is None,
        },
{
    match WorkspaceConfig::read(content) {
        Some(config) => last_component(config.folder.as_str()),
        None => None,
    }
}

/// From place `from` on, `a` comes before `b` or is `b`: at the first place
/// where they differ `a` has the smaller byte, or `a` ends first.
pub open spec fn bytes_le_from(a: Seq<u8>, b: Seq<u8>, from: int) -> bool
    decreases a.len() - from,
{
    if from >= a.len() {
        true
    } else if from >= b.len() {
        false
    } else if a[from] != b[from] {
        a[from] < b[from]
    } else {
        bytes_le_from(a, b, from + 1)
    }
}

/// `a` comes before `b` or is `b`, in the order of `str`: byte by byte of
/// their UTF-8 encoding, a text before its extensions.
pub open spec fn text_le(a: Seq<char>, b: Seq<char>) -> bool {
    bytes_le_from(vstd::utf8::encode_utf8(a), vstd::utf8::encode_utf8(b), 0)
}

/// The workspaces of `candidates` whose id is listed, in their order.
pub open spec fn listed_only(candidates: Seq<Workspace>) -> Seq<Workspace>
    decreases candidates.len(),
{
    if candidates.len() == 0 {
        Seq::empty()
    } else if is_listed_name(candidates.last().id@) {
        listed_only(candidates.drop_last()).push(candidates.last())
    } else {
        listed_only(candidates.drop_last())
    }
}

/// The workspaces of `workspaces` that are shown under `name`, in their
/// order.
pub open spec fn shown_under(workspaces: Seq<Workspace>, name: Seq<char>) -> Seq<Workspace>
    decreases workspaces.len(),
{
    if workspaces.len() == 0 {
        Seq::empty()
    } else if workspaces.last().shown_name() == name {
        shown_under(workspaces.drop_last(), name).push(workspaces.last())
    } else {
        shown_under(workspaces.drop_last(), name)
    }
}

/// The workspaces stand in the order of the names they are shown under.
pub open spec fn in_name_order(workspaces: Seq<Workspace>) -> bool {
    forall|i: int, j: int|
        0 <= i < j < workspaces.len() ==> text_le(
            (#[trigger] workspaces[i]).shown_name(),
            (#[trigger] workspaces[j]).shown_name(),
        )
}

/// `sorted` holds the workspaces of `given`, ordered by the name each is
/// shown under, and those shown under one name in the order they had.
pub open spec fn is_sorted_listing(sorted: Seq<Workspace>, given: Seq<Workspace>) -> bool {
    &&& sorted.to_multiset() == given.to_multiset()
    &&& in_name_order(sorted)
    &&& forall|name: Seq<char>| #[trigger] shown_under(sorted, name) == shown_under(given, name)
}

/// The order of texts leaves no two texts unordered.
pub proof fn text_order_is_total(a: Seq<u8>, b: Seq<u8>, from: int)
    requires
        0 <= from,
    ensures
        bytes_le_from(a, b, from) || bytes_le_from(b, a, from),
    decreases a.len() - from,
{
    if from < a.len() && from < b.len() && a[from] == b[from] {
        text_order_is_total(a, b, from + 1);
    }
}

/// The order of texts is transitive.
pub proof fn text_order_is_transitive(a: Seq<u8>, b: Seq<u8>, c: Seq<u8>, from: int)
    requires
        0 <= from,
        bytes_le_from(a, b, from),
        bytes_le_from(b, c, from),
    ensures
        bytes_le_from(a, c, from),
    decreases a.len() - from,
{
    if from < a.len() && a[from] == b[from] && b[from] == c[from] {
        text_order_is_transitive(a, b, c, from + 1);
    }
}

/// Every text comes before itself or is itself.
pub proof fn text_order_is_reflexive(a: Seq<u8>, from: int)
    requires
        0 <= from,
    ensures
        bytes_le_from(a, a, from),
    decreases a.len() - from,
{
    if from < a.len() {
        text_order_is_reflexive(a, from + 1);
    }
}

/// Those shown under a name in two lists joined are those of the first,
/// then those of the second.
proof fn lemma_shown_under_joined(front: Seq<Workspace>, back: Seq<Workspace>, name: Seq<char>)
    ensures
        shown_under(front + back, name) == shown_under(front, name) + shown_under(back, name),
    decreases back.len(),
{
    if back.len() > 0 {
        assert((front + back).drop_last() =~= front + back.drop_last());
        lemma_shown_under_joined(front, back.drop_last(), name);
    }
}

/// A list without a workspace of that name shows none under it.
proof fn lemma_none_shown(workspaces: Seq<Workspace>, name: Seq<char>)
    requires
        forall|i: int| 0 <= i < workspaces.len() ==> (#[trigger] workspaces[i]).shown_name() != name,
    ensures
        shown_under(workspaces, name) == Seq::<Workspace>::empty(),
    decreases workspaces.len(),
{
    if workspaces.len() > 0 {
        lemma_none_shown(workspaces.drop_last(), name);
    }
}

/// A sorted listing with one more workspace put where its name belongs,
/// behind those shown under the same name, is the sorted listing of what
/// was given and that workspace.
proof fn lemma_placed(sorted: Seq<Workspace>, given: Seq<Workspace>, next: Workspace, place: int)
    requires
        is_sorted_listing(sorted, given),
        0 <= place <= sorted.len(),
        forall|j: int|
            0 <= j < place ==> text_le((#[trigger] sorted[j]).shown_name(), next.shown_name()),
        forall|j: int|
            place <= j < sorted.len() ==> !text_le(
                (#[trigger] sorted[j]).shown_name(),
                next.shown_name(),
            ),
    ensures
        is_sorted_listing(sorted.insert(place, next), given.push(next)),
{
    let longer = sorted.insert(place, next);
    let front = sorted.take(place);
    let back = sorted.skip(place);
    assert(longer.remove(place) =~= sorted);
    vstd::seq_lib::to_multiset_remove(longer, place);
    vstd::seq_lib::to_multiset_build(given, next);
    assert(longer.to_multiset().count(next) > 0) by {
        longer.to_multiset_ensures();
    }
    assert(longer.to_multiset() =~= sorted.to_multiset().insert(next));
    assert forall|i: int, j: int| 0 <= i < j < longer.len() implies text_le(
        (#[trigger] longer[i]).shown_name(),
        (#[trigger] longer[j]).shown_name(),
    ) by {
        if i == place {
            text_order_is_total(
                vstd::utf8::encode_utf8(longer[i].shown_name()),
                vstd::utf8::encode_utf8(longer[j].shown_name()),
                0,
            );
        }
    }
    assert forall|name: Seq<char>| #[trigger]
        shown_under(longer, name) == shown_under(given.push(next), name) by {
        assert(sorted =~= front + back);
        assert(longer =~= (front + seq![next]) + back);
        assert(given.push(next).drop_last() =~= given);
        assert((front + seq![next]).drop_last() =~= front);
        lemma_shown_under_joined(front, back, name);
        lemma_shown_under_joined(front + seq![next], back, name);
        if next.shown_name() == name {
            lemma_none_shown(back, name);
        }
    }
}

/// The name under which `workspace` is shown, borrowed.
fn shown<'a>(workspace: &'a Workspace) -> (name: &'a str)
    ensures
        name@ == workspace.shown_name(),
{
    match &workspace.project_name {
        Some(name) => name.as_str(),
        None => workspace.id.as_str(),
    }
}

/// Whether `first` is shown under a name that comes before the name of
/// `second` or is the same.
fn name_le(first: &Workspace, second: &Workspace) -> (yes: bool)
    ensures
        yes == text_le(first.shown_name(), second.shown_name()),
{
    let a = shown(first).as_bytes();
    let b = shown(second).as_bytes();
    let mut i: usize = 0;
    while i < a.len() && i < b.len() && a[i] == b[i]
        invariant
            i <= a@.len(),
            i <= b@.len(),
            bytes_le_from(a@, b@, 0) == bytes_le_from(a@, b@, i as int),
        decreases a@.len() - i,
    {
        i += 1;
    }
    if i >= a.len() {
        true
    } else if i >= b.len() {
        false
    } else {
        a[i] < b[i]
    }
}

/// Where a workspace belongs in a sorted listing: behind every workspace
/// whose name comes before its name or is the same.
fn place_of(sorted: &Vec<Workspace>, next: &Workspace) -> (place: usize)
    requires
        in_name_order(sorted@),
    ensures
        place <= sorted@.len(),
        forall|j: int|
            0 <= j < place ==> text_le((#[trigger] sorted@[j]).shown_name(), next.shown_name()),
        forall|j: int|
            place <= j < sorted@.len() ==> !text_le(
                (#[trigger] sorted@[j]).shown_name(),
                next.shown_name(),
            ),
{
    let mut place: usize = sorted.len();
    while place > 0 && !name_le(&sorted[place - 1], next)
        invariant
            place <= sorted@.len(),
            forall|j: int|
                place <= j < sorted@.len() ==> !text_le(
                    (#[trigger] sorted@[j]).shown_name(),
                    next.shown_name(),
                ),
        decreases place,
    {
        place -= 1;
    }
    proof {
        if place > 0 {
            let last = sorted@[place - 1];
            assert forall|j: int| 0 <= j < place implies text_le(
                (#[trigger] sorted@[j]).shown_name(),
                next.shown_name(),
            ) by {
                if j < place - 1 {
                    text_order_is_transitive(
                        vstd::utf8::encode_utf8(sorted@[j].shown_name()),
                        vstd::utf8::encode_utf8(last.shown_name()),
                        vstd::utf8::encode_utf8(next.shown_name()),
                        0,
                    );
                }
            }
        }
    }
    place
}

/// The listing made of the directories found: those with a listed id,
/// ordered by the name each is shown under, and those shown under one name
/// in the order in which they were found.
pub fn list_workspaces(candidates: &[Workspace]) -> (listing: Vec<Workspace>)
    ensures
        is_sorted_listing(listing@, listed_only(candidates@)),
{
    let mut listing: Vec<Workspace> = Vec::new();
    let mut i: usize = 0;
    assert forall|name: Seq<char>| #[trigger]
        shown_under(listing@, name) == shown_under(listed_only(candidates@.take(0)), name) by {}
    while i < candidates.len()
        invariant
            i <= candidates@.len(),
            is_sorted_listing(listing@, listed_only(candidates@.take(i as int))),
        decreases candidates@.len() - i,
    {
        assert(candidates@.take(i + 1).drop_last() =~= candidates@.take(i as int));
        if is_listed(candidates[i].id.as_str()) {
            let next = candidates[i].clone();
            let place = place_of(&listing, &next);
            proof {
                lemma_placed(
                    listing@,
                    listed_only(candidates@.take(i as int)),
                    next,
                    place as int,
                );
            }
            listing.insert(place, next);
        }
        i += 1;
    }
    assert(candidates@.take(i as int) =~= candidates@);
    listing
}

} // verus!
