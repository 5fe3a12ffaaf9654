//! The data of the enrichment layer: notepad content, the metadata record
//! attached to it, and the workspaces that notepads belong to.

use crate::document::{parsed_json, Json};
use std::path::PathBuf;
use vstd::prelude::*;

verus! {

/// `serde_json::Value`, carried through as an opaque payload.
#[verifier::external_type_specification]
#[verifier::external_body]
pub struct ExValue(serde_json::Value);

/// `std::path::PathBuf`, carried through as an opaque location.
#[verifier::external_type_specification]
#[verifier::external_body]
pub struct ExPathBuf(std::path::PathBuf);

/// An instant in UTC: the whole seconds since the Unix epoch, and the
/// nanoseconds into that second.
#[derive(Debug, Clone, Copy, PartialEq, Eq, Structural)]
pub struct Timestamp {
    pub secs: i64,
    pub nanos: u32,
}

impl Timestamp {
    /// `self` is the same instant as `other` or a later one.
    pub open spec fn not_before(self, other: Timestamp) -> bool {
        self.secs > other.secs || (self.secs == other.secs && self.nanos >= other.nanos)
    }
}

/// Reads the wall clock with `chrono::Utc::now` and splits the instant with
/// `DateTime::timestamp` and `DateTime::timestamp_subsec_nanos`.
///
/// Nothing is claimed of the instant that comes back: two calls may return
/// the same instant, or an earlier one when the system clock is set back.
/// `Utc::now` panics where the system clock reads a time before 1970; no
/// argument of this library leads there or away from it.
#[verifier::external_body]
pub(crate) fn current_time() -> (now: Timestamp) {
    let now = chrono::Utc::now();
    Timestamp { secs: now.timestamp(), nanos: now.timestamp_subsec_nanos() }
}

/// Reads the wall clock with `chrono::Utc::now`, as `current_time` does, and
/// writes the instant with `DateTime::to_rfc3339`. Nothing is claimed of the
/// text that comes back.
#[verifier::external_body]
pub(crate) fn current_time_text() -> (now: String) {
    chrono::Utc::now().to_rfc3339()
}

/// `Clone` of `serde_json::Value` copies the whole tree: the copy is the same
/// JSON value.
pub assume_specification[ <serde_json::Value as Clone>::clone ](value: &serde_json::Value) -> (copy:
    serde_json::Value)
    ensures
        copy == *value,
;

/// `Clone` of `std::path::PathBuf` copies the path's bytes: the copy is the
/// same path.
pub assume_specification[ <std::path::PathBuf as Clone>::clone ](path: &std::path::PathBuf) -> (copy:
    std::path::PathBuf)
    ensures
        copy == *path,
;

/// The texts held by a sequence of strings.
pub open spec fn texts(items: Seq<String>) -> Seq<Seq<char>> {
    items.map_values(|s: String| s@)
}

/// Whether `wanted` occurs among `items`.
pub fn contains_text(items: &Vec<String>, wanted: &String) -> (found: bool)
    ensures
        found == texts(items@).contains(wanted@),
{
    let mut i: usize = 0;
    while i < items.len()
        invariant
            i <= items.len(),
            forall|j: int| 0 <= j < i ==> texts(items@)[j] != wanted@,
        decreases items.len() - i,
    {
        if items[i] == *wanted {
            assert(texts(items@)[i as int] == wanted@);
            return true;
        }
        i += 1;
    }
    false
}

/// The workspace description file's content.
#[derive(Debug)]
pub struct WorkspaceConfig {
    pub folder: String,
}

impl WorkspaceConfig {
    /// The folder that a description names: the text under "folder", where
    /// the description is a JSON object that has a text there.
    pub open spec fn folder_in(content: Seq<char>) -> Option<Seq<char>> {
        match parsed_json(content) {
            Some(description) => match description.member("folder"@) {
                Some(folder) => folder.as_text(),
                None => None,
            },
            None => None,
        }
    }

    /// Reads a workspace description. A text that is no JSON, or that
    /// names no folder, yields nothing.
    pub fn read(content: &str) -> (config: Option<WorkspaceConfig>)
        ensures
            match WorkspaceConfig::folder_in(content@) {
                Some(folder) => config matches Some(read) && read.folder@ == folder,
                None => config is None,
            },
    {
        match Json::parse(content) {
            Ok(description) => match description.member("folder") {
                Some(folder) => match folder.as_text() {
                    Some(text) => Some(WorkspaceConfig { folder: text.clone() }),
                    None => None,
                },
                None => None,
            },
            Err(_) => None,
        }
    }
}

impl Clone for WorkspaceConfig {
    fn clone(&self) -> (copy: Self)
        ensures
            copy == *self,
    {
        WorkspaceConfig { folder: self.folder.clone() }
    }
}

/// One workspace found on disk.
#[derive(Debug)]
pub struct Workspace {
    pub id: String,
    pub name: String,
    pub project_name: Option<String>,
    pub path: PathBuf,
}

impl Clone for Workspace {
    fn clone(&self) -> (copy: Self)
        ensures
            copy == *self,
    {
        let project_name = match &self.project_name {
            Some(name) => Some(name.clone()),
            None => None,
        };
        Workspace {
            id: self.id.clone(),
            name: self.name.clone(),
            project_name,
            path: self.path.clone(),
        }
    }
}

impl Workspace {
    /// The name a workspace is shown and sorted by: its project name where
    /// it has one, else its id.
    pub open spec fn shown_name(&self) -> Seq<char> {
        match self.project_name {
            Some(name) => name@,
            None => self.id@,
        }
    }

    /// The name under which the workspace is shown.
    pub fn display_name(&self) -> (name: String)
        ensures
            name@ == self.shown_name(),
    {
        match &self.project_name {
            Some(name) => name.clone(),
            None => self.id.clone(),
        }
    }
}

/// What a notepad holds: a list of notes, or any other JSON value.
#[derive(Debug)]
pub enum NotepadData {
    List(Vec<String>),
    Raw(serde_json::Value),
}

impl Clone for NotepadData {
    fn clone(&self) -> (copy: Self)
        ensures
            copy.list_view() == self.list_view(),
            (*self) is Raw ==> copy == *self,
    {
        match self {
            NotepadData::List(list) => NotepadData::List(clone_texts(list)),
            NotepadData::Raw(value) => NotepadData::Raw(value.clone()),
        }
    }
}

impl Default for NotepadData {
    fn default() -> (data: Self)
        ensures
            data.list_view() == Some(Seq::<Seq<char>>::empty()),
    {
        let data = NotepadData::List(Vec::new());
        data
    }
}

impl NotepadData {
    /// The notes of a list-shaped value, and `None` for any other.
    pub open spec fn list_view(&self) -> Option<Seq<Seq<char>>> {
        match self {
            NotepadData::List(list) => Some(texts(list@)),
            NotepadData::Raw(_) => None,
        }
    }

    /// Replaces a `Raw` value by an empty list, dropping its payload, and
    /// leaves a list as it is.
    pub fn ensure_list(&mut self)
        ensures
            (*old(self)) is List ==> *final(self) == *old(self),
            (*old(self)) is Raw ==> final(self).list_view() == Some(Seq::<Seq<char>>::empty()),
    {
        if let NotepadData::Raw(_) = self {
            *self = NotepadData::List(Vec::new());
        }
    }

    /// The notes of a list-shaped value. A `Raw` value has none: that is
    /// an answer, not an error.
    pub fn as_list(&self) -> (list: Option<&Vec<String>>)
        ensures
            match *self {
                NotepadData::List(notes) => list == Some(&notes),
                NotepadData::Raw(_) => list is None,
            },
    {
        match self {
            NotepadData::List(list) => Some(list),
            _ => None,
        }
    }

    /// The notes of a list-shaped value, to be changed in place. A `Raw`
    /// value has none and stays as it is.
    pub fn as_list_mut(&mut self) -> (list: Option<&mut Vec<String>>)
        ensures
            match list {
                Some(notes) => *old(self) == NotepadData::List(*notes)
                    && *final(self) == NotepadData::List(*final(notes)),
                None => (*old(self)) is Raw && *final(self) == *old(self),
            },
    {
        match self {
            NotepadData::List(list) => Some(list),
            _ => None,
        }
    }
}

/// Lifecycle state of a notepad.
#[derive(Debug, Clone, Copy, PartialEq, Eq, Structural)]
pub enum NotepadStatus {
    Active,
    Archived,
    Completed,
    Pending,
}

impl NotepadStatus {
    /// Whether two statuses are of the same kind. No status carries data,
    /// so this is plain equality.
    pub fn same_kind(&self, other: &NotepadStatus) -> (same: bool)
        ensures
            same == (*self == *other),
    {
        *self == *other
    }
}

/// The record attached to one notepad.
#[derive(Debug)]
pub struct NotepadMetadata {
    pub category: String,
    pub tags: Vec<String>,
    pub created_at: Timestamp,
    pub updated_at: Timestamp,
    pub references: Vec<String>,
    pub status: NotepadStatus,
}

/// A metadata record as a mathematical value.
pub struct MetadataView {
    pub category: Seq<char>,
    pub tags: Seq<Seq<char>>,
    pub created_at: Timestamp,
    pub updated_at: Timestamp,
    pub references: Seq<Seq<char>>,
    pub status: NotepadStatus,
}

impl MetadataView {
    /// The record of a notepad that was first seen at `now`.
    pub open spec fn fresh(category: Seq<char>, now: Timestamp) -> MetadataView {
        MetadataView {
            category,
            tags: Seq::empty(),
            created_at: now,
            updated_at: now,
            references: Seq::empty(),
            status: NotepadStatus::Active,
        }
    }

    /// The record after `tag` was added at `now`: untouched where the tag
    /// was there already.
    pub open spec fn with_tag(self, tag: Seq<char>, now: Timestamp) -> MetadataView {
        if self.tags.contains(tag) {
            self
        } else {
            MetadataView { tags: self.tags.push(tag), updated_at: now, ..self }
        }
    }

    /// The record after `reference` was added at `now`: untouched where the
    /// reference was there already.
    pub open spec fn with_reference(self, reference: Seq<char>, now: Timestamp) -> MetadataView {
        if self.references.contains(reference) {
            self
        } else {
            MetadataView { references: self.references.push(reference), updated_at: now, ..self }
        }
    }

    /// The record after its status was set at `now`.
    pub open spec fn with_status(self, status: NotepadStatus, now: Timestamp) -> MetadataView {
        MetadataView { status, updated_at: now, ..self }
    }

    /// Neither the tags nor the references hold an entry twice.
    pub open spec fn well_formed(self) -> bool {
        self.tags.no_duplicates() && self.references.no_duplicates()
    }
}

impl View for NotepadMetadata {
    type V = MetadataView;

    open spec fn view(&self) -> MetadataView {
        MetadataView {
            category: self.category@,
            tags: texts(self.tags@),
            created_at: self.created_at,
            updated_at: self.updated_at,
            references: texts(self.references@),
            status: self.status,
        }
    }
}

/// A copy of `items`, text for text.
pub fn clone_texts(items: &Vec<String>) -> (copy: Vec<String>)
    ensures
        texts(copy@) == texts(items@),
{
    let mut copy: Vec<String> = Vec::new();
    let mut i: usize = 0;
    while i < items.len()
        invariant
            i <= items.len(),
            copy@.len() == i,
            forall|j: int| 0 <= j < i ==> copy@[j]@ == items@[j]@,
        decreases items.len() - i,
    {
        copy.push(items[i].clone());
        i += 1;
    }
    copy
}

impl Clone for NotepadMetadata {
    fn clone(&self) -> (copy: Self)
        ensures
            copy@ == self@,
    {
        NotepadMetadata {
            category: self.category.clone(),
            tags: clone_texts(&self.tags),
            created_at: self.created_at,
            updated_at: self.updated_at,
            references: clone_texts(&self.references),
            status: self.status,
        }
    }
}

/// A notepad's content together with its metadata record.
#[derive(Debug)]
pub struct EnrichedNotepad {
    pub original_data: NotepadData,
    pub metadata: NotepadMetadata,
}

impl Clone for EnrichedNotepad {
    fn clone(&self) -> (copy: Self)
        ensures
            copy.original_data.list_view() == self.original_data.list_view(),
            self.original_data is Raw ==> copy.original_data == self.original_data,
            copy.metadata@ == self.metadata@,
    {
        EnrichedNotepad { original_data: self.original_data.clone(), metadata: self.metadata.clone() }
    }
}

impl EnrichedNotepad {
    /// Pairs `data` with the record of a notepad first seen at `now`.
    pub fn new_at(data: NotepadData, category: String, now: Timestamp) -> (notepad: Self)
        ensures
            notepad.original_data == data,
            notepad.metadata@ == MetadataView::fresh(category@, now),
    {
        let notepad = EnrichedNotepad {
            original_data: data,
            metadata: NotepadMetadata {
                category,
                tags: Vec::new(),
                created_at: now,
                updated_at: now,
                references: Vec::new(),
                status: NotepadStatus::Active,
            },
        };
        assert(texts(notepad.metadata.tags@) =~= Seq::<Seq<char>>::empty());
        notepad
    }

    /// Pairs `data` with a new record, stamped with the clock's reading.
    pub fn new(data: NotepadData, category: String) -> (notepad: Self)
        ensures
            notepad.original_data == data,
            notepad.metadata@ == MetadataView::fresh(category@, notepad.metadata.created_at),
    {
        EnrichedNotepad::new_at(data, category, current_time())
    }

    /// Adds `tag` unless it is there already; only an insertion moves
    /// `updated_at`, to `now`.
    pub fn add_tag_at(&mut self, tag: String, now: Timestamp)
        ensures
            final(self).original_data == old(self).original_data,
            final(self).metadata@ == old(self).metadata@.with_tag(tag@, now),
    {
        if !contains_text(&self.metadata.tags, &tag) {
            self.metadata.tags.push(tag);
            self.metadata.updated_at = now;
            assert(texts(self.metadata.tags@) =~= texts(old(self).metadata.tags@).push(tag@));
        }
    }

    /// Adds `tag` unless it is there already; only an insertion moves
    /// `updated_at`, to the clock's reading.
    pub fn add_tag(&mut self, tag: String)
        ensures
            final(self).original_data == old(self).original_data,
            final(self).metadata@ == old(self).metadata@.with_tag(
                tag@,
                final(self).metadata.updated_at,
            ),
    {
        self.add_tag_at(tag, current_time());
    }

    /// Adds `reference` unless it is there already; only an insertion moves
    /// `updated_at`, to `now`.
    pub fn add_reference_at(&mut self, reference: String, now: Timestamp)
        ensures
            final(self).original_data == old(self).original_data,
            final(self).metadata@ == old(self).metadata@.with_reference(reference@, now),
    {
        if !contains_text(&self.metadata.references, &reference) {
            self.metadata.references.push(reference);
            self.metadata.updated_at = now;
            assert(texts(self.metadata.references@) =~= texts(
                old(self).metadata.references@,
            ).push(reference@));
        }
    }

    /// Adds `reference` unless it is there already; only an insertion moves
    /// `updated_at`, to the clock's reading.
    pub fn add_reference(&mut self, reference: String)
        ensures
            final(self).original_data == old(self).original_data,
            final(self).metadata@ == old(self).metadata@.with_reference(
                reference@,
                final(self).metadata.updated_at,
            ),
    {
        self.add_reference_at(reference, current_time());
    }

    /// Sets the status and moves `updated_at` to `now`, whether or not the
    /// status changes.
    pub fn set_status_at(&mut self, status: NotepadStatus, now: Timestamp)
        ensures
            final(self).original_data == old(self).original_data,
            final(self).metadata@ == old(self).metadata@.with_status(status, now),
            final(self).metadata.updated_at == now,
    {
        self.metadata.status = status;
        self.metadata.updated_at = now;
    }

    /// Sets the status and moves `updated_at` to the clock's reading,
    /// whether or not the status changes.
    pub fn set_status(&mut self, status: NotepadStatus)
        ensures
            final(self).original_data == old(self).original_data,
            final(self).metadata@ == old(self).metadata@.with_status(
                status,
                final(self).metadata.updated_at,
            ),
    {
        self.set_status_at(status, current_time());
    }
}

/// Adding a tag a second time changes nothing, whatever the time of the
/// second call: the tags and `updated_at` stay as the first call left them.
pub proof fn add_tag_twice_is_add_tag_once(
    record: MetadataView,
    tag: Seq<char>,
    first: Timestamp,
    second: Timestamp,
)
    ensures
        record.with_tag(tag, first).with_tag(tag, second) == record.with_tag(tag, first),
{
    if !record.tags.contains(tag) {
        let added = record.tags.push(tag);
        assert(added[record.tags.len() as int] == tag);
    }
}

/// Adding a reference a second time changes nothing, whatever the time of
/// the second call.
pub proof fn add_reference_twice_is_add_reference_once(
    record: MetadataView,
    reference: Seq<char>,
    first: Timestamp,
    second: Timestamp,
)
    ensures
        record.with_reference(reference, first).with_reference(reference, second)
            == record.with_reference(reference, first),
{
    if !record.references.contains(reference) {
        let added = record.references.push(reference);
        assert(added[record.references.len() as int] == reference);
    }
}

/// `updated_at` never moves back under a mutation made at an instant that is
/// not before the record's last update.
pub proof fn updated_at_never_moves_back(
    record: MetadataView,
    text: Seq<char>,
    status: NotepadStatus,
    now: Timestamp,
)
    requires
        now.not_before(record.updated_at),
    ensures
        record.with_tag(text, now).updated_at.not_before(record.updated_at),
        record.with_reference(text, now).updated_at.not_before(record.updated_at),
        record.with_status(status, now).updated_at.not_before(record.updated_at),
        record.with_status(status, now).updated_at == now,
{
}

/// Records without repeated tags or references keep that property under
/// every mutation.
pub proof fn mutations_keep_entries_distinct(
    record: MetadataView,
    text: Seq<char>,
    status: NotepadStatus,
    now: Timestamp,
)
    requires
        record.well_formed(),
    ensures
        record.with_tag(text, now).well_formed(),
        record.with_reference(text, now).well_formed(),
        record.with_status(status, now).well_formed(),
        MetadataView::fresh(text, now).well_formed(),
{
}

} // verus!
