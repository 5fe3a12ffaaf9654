//! The sidecar store of metadata records, categories and templates.

use crate::error::CursorError;
use crate::keyed::{distinct_keys, lemma_map_of, map_of, pairs_of, position_of, put};
use crate::models::{
    clone_texts, contains_text, current_time, texts, EnrichedNotepad, MetadataView, NotepadData,
    NotepadMetadata, NotepadStatus, Timestamp,
};
use vstd::prelude::*;

verus! {

/// `names` with `name` at its end, unless `name` is among them already.
pub open spec fn with_name(names: Seq<Seq<char>>, name: Seq<char>) -> Seq<Seq<char>> {
    if names.contains(name) {
        names
    } else {
        names.push(name)
    }
}

/// `names` without repeats: each name stays where it came first.
pub open spec fn first_occurrences(names: Seq<Seq<char>>) -> Seq<Seq<char>>
    decreases names.len(),
{
    if names.len() == 0 {
        Seq::empty()
    } else {
        with_name(first_occurrences(names.drop_last()), names.last())
    }
}

/// A metadata store as a mathematical value.
pub struct StoreView {
    pub notepads: Map<Seq<char>, MetadataView>,
    pub categories: Seq<Seq<char>>,
    pub templates: Map<Seq<char>, Seq<char>>,
}

impl StoreView {
    /// The store before anything was recorded: no notepads, no templates,
    /// and the four categories every store starts with.
    pub open spec fn initial() -> StoreView {
        StoreView {
            notepads: Map::empty(),
            categories: seq!["tasks"@, "technical"@, "tests"@, "docs"@],
            templates: Map::empty(),
        }
    }

    /// The record that a read of `id` at `now` yields: the stored one, or a
    /// new record in the category "general".
    pub open spec fn record_for(self, id: Seq<char>, now: Timestamp) -> MetadataView {
        if self.notepads.contains_key(id) {
            self.notepads[id]
        } else {
            MetadataView::fresh("general"@, now)
        }
    }

    /// The store after `record` was stored for `id`.
    pub open spec fn with_metadata(self, id: Seq<char>, record: MetadataView) -> StoreView {
        StoreView { notepads: self.notepads.insert(id, record), ..self }
    }

    /// The store after `category` was added.
    pub open spec fn with_category(self, category: Seq<char>) -> StoreView {
        StoreView { categories: with_name(self.categories, category), ..self }
    }

    /// The store after `content` was stored as the template `name`.
    pub open spec fn with_template(self, name: Seq<char>, content: Seq<char>) -> StoreView {
        StoreView { templates: self.templates.insert(name, content), ..self }
    }

    /// The ids whose stored record meets `wanted`.
    pub open spec fn ids_where(self, wanted: Condition) -> Set<Seq<char>> {
        Set::new(|id: Seq<char>| self.notepads.contains_key(id) && wanted.holds(self.notepads[id]))
    }
}

/// What a query asks of a record.
pub enum Condition {
    Category(Seq<char>),
    Tag(Seq<char>),
    Status(NotepadStatus),
}

impl Condition {
    /// Whether `record` meets the condition: its category is the one asked
    /// for, it carries the tag, or its status is of the kind asked for.
    pub open spec fn holds(self, record: MetadataView) -> bool {
        match self {
            Condition::Category(category) => record.category == category,
            Condition::Tag(tag) => record.tags.contains(tag),
            Condition::Status(status) => record.status == status,
        }
    }
}

/// The ids that a listing names.
pub open spec fn listed_ids<'a>(found: Seq<(&'a String, &'a NotepadMetadata)>) -> Set<Seq<char>> {
    Set::new(|id: Seq<char>| exists|i: int| 0 <= i < found.len() && (#[trigger] found[i]).0@ == id)
}

/// `found` lists, once each and with the record stored for it, exactly the
/// ids of `records` whose record meets `wanted`.
pub open spec fn lists_exactly<'a>(
    found: Seq<(&'a String, &'a NotepadMetadata)>,
    records: Map<Seq<char>, MetadataView>,
    wanted: Condition,
) -> bool {
    &&& forall|i: int, j: int|
        0 <= i < found.len() && 0 <= j < found.len() && i != j ==> (#[trigger] found[i]).0@ != (
        #[trigger] found[j]).0@
    &&& forall|i: int|
        0 <= i < found.len() ==> {
            let entry = #[trigger] found[i];
            &&& records.contains_key(entry.0@)
            &&& records[entry.0@] == entry.1@
            &&& wanted.holds(entry.1@)
        }
    &&& forall|id: Seq<char>|
        #[trigger] records.contains_key(id) && wanted.holds(records[id]) ==> exists|i: int|
            0 <= i < found.len() && (#[trigger] found[i]).0@ == id
}

/// A store's whole content as plain lists, the form in which it is written
/// out and read back.
#[derive(Debug)]
pub struct StoreSnapshot {
    pub notepads: Vec<(String, NotepadMetadata)>,
    pub categories: Vec<String>,
    pub templates: Vec<(String, String)>,
}

/// A snapshot as a mathematical value.
pub struct SnapshotView {
    pub notepads: Seq<(Seq<char>, MetadataView)>,
    pub categories: Seq<Seq<char>>,
    pub templates: Seq<(Seq<char>, Seq<char>)>,
}

impl SnapshotView {
    /// The store that a snapshot stands for: of two records or templates
    /// under one key the later counts, and a category that comes again is
    /// passed over.
    pub open spec fn restored(self) -> StoreView {
        StoreView {
            notepads: map_of(self.notepads),
            categories: first_occurrences(self.categories),
            templates: map_of(self.templates),
        }
    }

    /// No key and no category comes twice.
    pub open spec fn without_repeats(self) -> bool {
        &&& distinct_keys(self.notepads)
        &&& self.categories.no_duplicates()
        &&& distinct_keys(self.templates)
    }

    /// The snapshot writes `store` out: every record and every template
    /// once under its key, and the categories in their order.
    pub open spec fn writes_out(self, store: StoreView) -> bool {
        &&& self.without_repeats()
        &&& map_of(self.notepads) == store.notepads
        &&& self.categories == store.categories
        &&& map_of(self.templates) == store.templates
    }
}

impl View for StoreSnapshot {
    type V = SnapshotView;

    open spec fn view(&self) -> SnapshotView {
        SnapshotView {
            notepads: pairs_of(self.notepads@),
            categories: texts(self.categories@),
            templates: pairs_of(self.templates@),
        }
    }
}

/// What is left of `names` without repeats: the same names, none twice,
/// and all of `names` where it had no repeats.
proof fn lemma_first_occurrences(names: Seq<Seq<char>>)
    ensures
        first_occurrences(names).no_duplicates(),
        forall|name: Seq<char>|
            #![trigger first_occurrences(names).contains(name)]
            #![trigger names.contains(name)]
            first_occurrences(names).contains(name) <==> names.contains(name),
        names.no_duplicates() ==> first_occurrences(names) == names,
    decreases names.len(),
{
    if names.len() > 0 {
        let before = names.drop_last();
        let kept = first_occurrences(before);
        let newest = names.last();
        lemma_first_occurrences(before);
        assert(names =~= before.push(newest));
        assert forall|name: Seq<char>|
            #![trigger first_occurrences(names).contains(name)]
            #![trigger names.contains(name)]
            first_occurrences(names).contains(name) <==> names.contains(name) by {
            lemma_contains_after_push(kept, newest, name);
        }
    }
}

/// A longer list holds what the list held, and the name put at its end.
proof fn lemma_contains_after_push(names: Seq<Seq<char>>, newest: Seq<char>, name: Seq<char>)
    ensures
        names.push(newest).contains(name) <==> names.contains(name) || name == newest,
{
    let longer = names.push(newest);
    if names.contains(name) {
        let i = choose|i: int| 0 <= i < names.len() && names[i] == name;
        assert(longer[i] == name);
    }
    if name == newest {
        assert(longer[names.len() as int] == name);
    }
}

/// Puts `name` at the end of `names`, unless it is among them already.
fn put_name(names: &mut Vec<String>, name: String)
    requires
        texts(old(names)@).no_duplicates(),
    ensures
        texts(final(names)@).no_duplicates(),
        texts(final(names)@) == with_name(texts(old(names)@), name@),
{
    if !contains_text(names, &name) {
        names.push(name);
        assert(texts(names@) =~= texts(old(names)@).push(name@));
    }
}

/// A copy of the records, key for key and field for field.
fn clone_records(entries: &Vec<(String, NotepadMetadata)>) -> (copy: Vec<(String, NotepadMetadata)>)
    ensures
        pairs_of(copy@) == pairs_of(entries@),
{
    let mut copy: Vec<(String, NotepadMetadata)> = Vec::new();
    let mut i: usize = 0;
    while i < entries.len()
        invariant
            i <= entries@.len(),
            copy@.len() == i,
            forall|j: int| 0 <= j < i ==> copy@[j].0@ == entries@[j].0@ && copy@[j].1@ == entries@[j].1@,
        decreases entries@.len() - i,
    {
        copy.push((entries[i].0.clone(), entries[i].1.clone()));
        i += 1;
    }
    copy
}

/// A copy of the templates, name for name and text for text.
fn clone_templates(entries: &Vec<(String, String)>) -> (copy: Vec<(String, String)>)
    ensures
        pairs_of(copy@) == pairs_of(entries@),
{
    let mut copy: Vec<(String, String)> = Vec::new();
    let mut i: usize = 0;
    while i < entries.len()
        invariant
            i <= entries@.len(),
            copy@.len() == i,
            forall|j: int| 0 <= j < i ==> copy@[j].0@ == entries@[j].0@ && copy@[j].1@ == entries@[j].1@,
        decreases entries@.len() - i,
    {
        copy.push((entries[i].0.clone(), entries[i].1.clone()));
        i += 1;
    }
    copy
}

/// The condition of a query.
enum Filter {
    Category(String),
    Tag(String),
    Status(NotepadStatus),
}

impl Filter {
    /// What the filter asks of a record.
    spec fn condition(&self) -> Condition {
        match self {
            Filter::Category(category) => Condition::Category(category@),
            Filter::Tag(tag) => Condition::Tag(tag@),
            Filter::Status(status) => Condition::Status(*status),
        }
    }

    /// Whether `record` meets the filter.
    spec fn accepts(&self, record: MetadataView) -> bool {
        self.condition().holds(record)
    }

    /// Whether `record` meets the filter.
    fn admits(&self, record: &NotepadMetadata) -> (yes: bool)
        ensures
            yes == self.accepts(record@),
    {
        match self {
            Filter::Category(category) => record.category == *category,
            Filter::Tag(tag) => contains_text(&record.tags, tag),
            Filter::Status(status) => record.status.same_kind(status),
        }
    }
}

/// The sidecar store: one metadata record for each notepad id, the known
/// categories in the order they were first seen, and the note templates.
#[derive(Debug)]
pub struct MetadataStore {
    notepads: Vec<(String, NotepadMetadata)>,
    categories: Vec<String>,
    templates: Vec<(String, String)>,
}

impl View for MetadataStore {
    type V = StoreView;

    open spec fn view(&self) -> StoreView {
        self.model()
    }
}

impl MetadataStore {
    /// The store as a mathematical value.
    pub closed spec fn model(&self) -> StoreView {
        StoreView {
            notepads: map_of(pairs_of(self.notepads@)),
            categories: texts(self.categories@),
            templates: map_of(pairs_of(self.templates@)),
        }
    }

    /// No id, no category and no template name is held twice.
    #[verifier::type_invariant]
    spec fn well_formed(&self) -> bool {
        &&& distinct_keys(pairs_of(self.notepads@))
        &&& texts(self.categories@).no_duplicates()
        &&& distinct_keys(pairs_of(self.templates@))
    }

    /// A store with no records, no templates and the four categories every
    /// store starts with.
    pub fn new() -> (store: Self)
        ensures
            store@ == StoreView::initial(),
    {
        let mut categories: Vec<String> = Vec::new();
        categories.push("tasks".to_owned());
        categories.push("technical".to_owned());
        categories.push("tests".to_owned());
        categories.push("docs".to_owned());
        proof {
            reveal_strlit("tasks");
            reveal_strlit("technical");
            reveal_strlit("tests");
            reveal_strlit("docs");
            let names = seq!["tasks"@, "technical"@, "tests"@, "docs"@];
            assert(texts(categories@) =~= names);
            assert("tasks"@.len() == 5 && "technical"@.len() == 9 && "docs"@.len() == 4);
            assert("tasks"@[1] != "tests"@[1]);
        }
        MetadataStore { notepads: Vec::new(), categories, templates: Vec::new() }
    }

    /// The store to work with, given what was found where its snapshot is
    /// kept: a new store where there was nothing, the store that the
    /// snapshot stands for, or the error that reading it met.
    pub fn load(found: Option<Result<StoreSnapshot, CursorError>>) -> (loaded: Result<
        Self,
        CursorError,
    >)
        ensures
            match found {
                None => loaded matches Ok(store) && store@ == StoreView::initial(),
                Some(Ok(snapshot)) => loaded matches Ok(store) && store@ == snapshot@.restored(),
                Some(Err(error)) => loaded matches Err(reported) && reported == error,
            },
    {
        match found {
            None => Ok(MetadataStore::new()),
            Some(Ok(snapshot)) => Ok(MetadataStore::from_snapshot(&snapshot)),
            Some(Err(error)) => Err(error),
        }
    }

    /// The store that `snapshot` stands for.
    pub fn from_snapshot(snapshot: &StoreSnapshot) -> (store: Self)
        ensures
            store@ == snapshot@.restored(),
    {
        let ghost records = pairs_of(snapshot.notepads@);
        let mut notepads: Vec<(String, NotepadMetadata)> = Vec::new();
        let mut i: usize = 0;
        while i < snapshot.notepads.len()
            invariant
                i <= snapshot.notepads@.len(),
                records == pairs_of(snapshot.notepads@),
                distinct_keys(pairs_of(notepads@)),
                map_of(pairs_of(notepads@)) == map_of(records.take(i as int)),
            decreases snapshot.notepads@.len() - i,
        {
            let entry = &snapshot.notepads[i];
            put(&mut notepads, entry.0.clone(), entry.1.clone());
            proof {
                assert(records.take(i + 1).drop_last() =~= records.take(i as int));
            }
            i += 1;
        }
        assert(records.take(i as int) =~= records);

        let ghost names = texts(snapshot.categories@);
        let mut categories: Vec<String> = Vec::new();
        let mut k: usize = 0;
        while k < snapshot.categories.len()
            invariant
                k <= snapshot.categories@.len(),
                names == texts(snapshot.categories@),
                texts(categories@).no_duplicates(),
                texts(categories@) == first_occurrences(names.take(k as int)),
            decreases snapshot.categories@.len() - k,
        {
            put_name(&mut categories, snapshot.categories[k].clone());
            proof {
                assert(names.take(k + 1).drop_last() =~= names.take(k as int));
            }
            k += 1;
        }
        assert(names.take(k as int) =~= names);

        let ghost texts_of = pairs_of(snapshot.templates@);
        let mut templates: Vec<(String, String)> = Vec::new();
        let mut n: usize = 0;
        while n < snapshot.templates.len()
            invariant
                n <= snapshot.templates@.len(),
                texts_of == pairs_of(snapshot.templates@),
                distinct_keys(pairs_of(templates@)),
                map_of(pairs_of(templates@)) == map_of(texts_of.take(n as int)),
            decreases snapshot.templates@.len() - n,
        {
            let entry = &snapshot.templates[n];
            put(&mut templates, entry.0.clone(), entry.1.clone());
            proof {
                assert(texts_of.take(n + 1).drop_last() =~= texts_of.take(n as int));
            }
            n += 1;
        }
        assert(texts_of.take(n as int) =~= texts_of);

        MetadataStore { notepads, categories, templates }
    }

    /// The whole store as a snapshot to write out. Reading the snapshot
    /// back gives this store again.
    pub fn save(&self) -> (snapshot: StoreSnapshot)
        ensures
            snapshot@.writes_out(self@),
            snapshot@.restored() == self@,
    {
        proof {
            use_type_invariant(self);
            lemma_first_occurrences(texts(self.categories@));
        }
        StoreSnapshot {
            notepads: clone_records(&self.notepads),
            categories: clone_texts(&self.categories),
            templates: clone_templates(&self.templates),
        }
    }

    /// Pairs `data` with the record stored for `id`, or, where none is
    /// stored, with a new record in the category "general" made at `now`.
    /// The store keeps its own copy of the record.
    pub fn enrich_notepad_at(&self, id: &str, data: NotepadData, now: Timestamp) -> (found:
        EnrichedNotepad)
        ensures
            found.original_data == data,
            self@.notepads.contains_key(id@) ==> found.metadata@ == self@.notepads[id@],
            !self@.notepads.contains_key(id@) ==> found.metadata@ == MetadataView::fresh(
                "general"@,
                now,
            ),
    {
        proof {
            use_type_invariant(self);
            lemma_map_of(pairs_of(self.notepads@));
        }
        let key = id.to_owned();
        match position_of(&self.notepads, &key) {
            Some(at) => {
                assert(pairs_of(self.notepads@)[at as int].0 == id@);
                EnrichedNotepad { original_data: data, metadata: self.notepads[at].1.clone() }
            },
            None => {
                assert forall|i: int| 0 <= i < self.notepads@.len() implies (#[trigger] pairs_of(
                    self.notepads@,
                )[i]).0 != id@ by {}
                EnrichedNotepad::new_at(data, "general".to_owned(), now)
            },
        }
    }

    /// Pairs `data` with the record stored for `id`, or, where none is
    /// stored, with a new record in the category "general", stamped with
    /// the clock's reading.
    pub fn enrich_notepad(&self, id: &str, data: NotepadData) -> (found: EnrichedNotepad)
        ensures
            found.original_data == data,
            found.metadata@ == self@.record_for(id@, found.metadata.created_at),
    {
        self.enrich_notepad_at(id, data, current_time())
    }

    /// Stores `metadata` for `id`, in place of any record stored for it.
    pub fn update_metadata(&mut self, id: String, metadata: NotepadMetadata)
        ensures
            final(self)@ == old(self)@.with_metadata(id@, metadata@),
    {
        proof {
            use_type_invariant(&*self);
        }
        let mut notepads: Vec<(String, NotepadMetadata)> = Vec::new();
        std::mem::swap(&mut notepads, &mut self.notepads);
        put(&mut notepads, id, metadata);
        self.notepads = notepads;
    }

    /// The records that meet `filter`, each with its id, in the order in
    /// which the store holds them.
    fn select<'a>(&'a self, filter: &Filter) -> (found: Vec<(&'a String, &'a NotepadMetadata)>)
        ensures
            lists_exactly(found@, self@.notepads, filter.condition()),
    {
        let ghost pairs = pairs_of(self.notepads@);
        proof {
            use_type_invariant(self);
            lemma_map_of(pairs);
        }
        let mut found: Vec<(&'a String, &'a NotepadMetadata)> = Vec::new();
        let ghost mut picked: Seq<int> = Seq::empty();
        let mut i: usize = 0;
        while i < self.notepads.len()
            invariant
                i <= self.notepads@.len(),
                picked.len() == found@.len(),
                forall|a: int| 0 <= a < picked.len() ==> 0 <= #[trigger] picked[a] < i,
                forall|a: int, b: int| 0 <= a < b < picked.len() ==> picked[a] < picked[b],
                forall|a: int|
                    0 <= a < found@.len() ==> {
                        let entry = #[trigger] found@[a];
                        &&& entry.0@ == self.notepads@[picked[a]].0@
                        &&& entry.1@ == self.notepads@[picked[a]].1@
                        &&& filter.accepts(entry.1@)
                    },
                forall|j: int|
                    0 <= j < i && filter.accepts((#[trigger] self.notepads@[j]).1@) ==> exists|
                        a: int,
                    | 0 <= a < picked.len() && #[trigger] picked[a] == j,
            decreases self.notepads@.len() - i,
        {
            let entry = &self.notepads[i];
            if filter.admits(&entry.1) {
                found.push((&entry.0, &entry.1));
                proof {
                    let earlier = picked;
                    picked = picked.push(i as int);
                    assert forall|j: int|
                        0 <= j < i + 1 && filter.accepts((#[trigger] self.notepads@[j]).1@)
                        implies exists|a: int| 0 <= a < picked.len() && #[trigger] picked[a] == j by {
                        if j < i {
                            let a = choose|a: int| 0 <= a < earlier.len() && #[trigger] earlier[a] == j;
                            assert(picked[a] == j);
                        } else {
                            assert(picked[earlier.len() as int] == j);
                        }
                    }
                }
            }
            i += 1;
        }
        proof {
            let records = self@.notepads;
            assert forall|a: int, b: int|
                0 <= a < found@.len() && 0 <= b < found@.len() && a != b implies (
            #[trigger] found@[a]).0@ != (#[trigger] found@[b]).0@ by {
                assert(pairs[picked[a]].0 != pairs[picked[b]].0);
            }
            assert forall|a: int| 0 <= a < found@.len() implies {
                let entry = #[trigger] found@[a];
                &&& records.contains_key(entry.0@)
                &&& records[entry.0@] == entry.1@
                &&& filter.accepts(entry.1@)
            } by {
                let at = picked[a];
                assert(pairs[at].0 == found@[a].0@);
            }
            assert forall|id: Seq<char>| #[trigger]
                records.contains_key(id) && filter.accepts(records[id]) implies exists|a: int|
                0 <= a < found@.len() && (#[trigger] found@[a]).0@ == id by {
                let j = choose|j: int| 0 <= j < pairs.len() && (#[trigger] pairs[j]).0 == id;
                let a = choose|a: int| 0 <= a < picked.len() && #[trigger] picked[a] == j;
                assert(found@[a].0@ == id);
            }
        }
        found
    }

    /// The records whose category is `category`, each with its id. The
    /// order of the listing is not part of the contract.
    pub fn get_by_category<'a>(&'a self, category: &str) -> (found: Vec<
        (&'a String, &'a NotepadMetadata),
    >)
        ensures
            lists_exactly(found@, self@.notepads, Condition::Category(category@)),
            listed_ids(found@) == self@.ids_where(Condition::Category(category@)),
    {
        self.select(&Filter::Category(category.to_owned()))
    }

    /// The records that carry `tag`, each with its id. The order of the
    /// listing is not part of the contract.
    pub fn get_by_tag<'a>(&'a self, tag: &str) -> (found: Vec<(&'a String, &'a NotepadMetadata)>)
        ensures
            lists_exactly(found@, self@.notepads, Condition::Tag(tag@)),
            listed_ids(found@) == self@.ids_where(Condition::Tag(tag@)),
    {
        self.select(&Filter::Tag(tag.to_owned()))
    }

    /// The records whose status is of the kind of `target_status`, each
    /// with its id. The order of the listing is not part of the contract.
    pub fn get_by_status<'a>(&'a self, target_status: NotepadStatus) -> (found: Vec<
        (&'a String, &'a NotepadMetadata),
    >)
        ensures
            lists_exactly(found@, self@.notepads, Condition::Status(target_status)),
            listed_ids(found@) == self@.ids_where(Condition::Status(target_status)),
    {
        self.select(&Filter::Status(target_status))
    }

    /// Puts `category` at the end of the known categories, unless it is
    /// among them already.
    pub fn add_category(&mut self, category: String)
        ensures
            final(self)@ == old(self)@.with_category(category@),
    {
        proof {
            use_type_invariant(&*self);
        }
        let mut categories: Vec<String> = Vec::new();
        std::mem::swap(&mut categories, &mut self.categories);
        put_name(&mut categories, category);
        self.categories = categories;
    }

    /// Stores `content` as the template `name`, in place of any content
    /// stored under that name.
    pub fn add_template(&mut self, name: String, content: String)
        ensures
            final(self)@ == old(self)@.with_template(name@, content@),
    {
        proof {
            use_type_invariant(&*self);
        }
        let mut templates: Vec<(String, String)> = Vec::new();
        std::mem::swap(&mut templates, &mut self.templates);
        put(&mut templates, name, content);
        self.templates = templates;
    }

    /// The content of the template `name`, where there is one.
    pub fn get_template(&self, name: &str) -> (content: Option<&String>)
        ensures
            match content {
                Some(text) => self@.templates.contains_key(name@) && text@ == self@.templates[name@],
                None => !self@.templates.contains_key(name@),
            },
    {
        proof {
            use_type_invariant(self);
            lemma_map_of(pairs_of(self.templates@));
        }
        let key = name.to_owned();
        match position_of(&self.templates, &key) {
            Some(at) => {
                assert(pairs_of(self.templates@)[at as int].0 == name@);
                Some(&self.templates[at].1)
            },
            None => {
                assert forall|i: int| 0 <= i < self.templates@.len() implies (#[trigger] pairs_of(
                    self.templates@,
                )[i]).0 != name@ by {}
                None
            },
        }
    }

    /// The known categories, in the order they were first seen.
    pub fn list_categories(&self) -> (names: &[String])
        ensures
            texts(names@) == self@.categories,
            texts(names@).no_duplicates(),
    {
        proof {
            use_type_invariant(self);
        }
        self.categories.as_slice()
    }

    /// The names of all templates, each once. The order of the listing is
    /// not part of the contract.
    pub fn list_templates(&self) -> (names: Vec<&String>)
        ensures
            names@.map_values(|name: &String| name@).no_duplicates(),
            names@.map_values(|name: &String| name@).to_set() == self@.templates.dom(),
    {
        let ghost pairs = pairs_of(self.templates@);
        proof {
            use_type_invariant(self);
            lemma_map_of(pairs);
        }
        let mut names: Vec<&String> = Vec::new();
        let mut i: usize = 0;
        while i < self.templates.len()
            invariant
                i <= self.templates@.len(),
                names@.len() == i,
                forall|j: int| 0 <= j < i ==> (#[trigger] names@[j])@ == self.templates@[j].0@,
            decreases self.templates@.len() - i,
        {
            names.push(&self.templates[i].0);
            i += 1;
        }
        proof {
            let listed = names@.map_values(|name: &String| name@);
            assert forall|a: int, b: int|
                0 <= a < listed.len() && 0 <= b < listed.len() && a != b implies listed[a]
                != listed[b] by {
                assert(pairs[a].0 == listed[a] && pairs[b].0 == listed[b]);
            }
            assert forall|name: Seq<char>| listed.to_set().contains(name)
                <==> self@.templates.dom().contains(name) by {
                if listed.contains(name) {
                    let a = choose|a: int| 0 <= a < listed.len() && listed[a] == name;
                    assert(pairs[a].0 == name);
                }
                if self@.templates.contains_key(name) {
                    let a = choose|a: int| 0 <= a < pairs.len() && (#[trigger] pairs[a]).0 == name;
                    assert(listed[a] == name);
                }
            }
        }
        names
    }
}

/// What a query names depends on the records alone, not on the order in
/// which they were stored or are listed: every listing that meets
/// `lists_exactly` names the ids whose record meets the condition, those and
/// no others.
pub proof fn listing_names_the_ids_wanted<'a>(
    found: Seq<(&'a String, &'a NotepadMetadata)>,
    store: StoreView,
    wanted: Condition,
)
    requires
        lists_exactly(found, store.notepads, wanted),
    ensures
        listed_ids(found) == store.ids_where(wanted),
{
}

/// A category that is added a second time changes nothing: the categories
/// stay as the first addition left them, in length and in order.
pub proof fn add_category_twice_is_add_category_once(store: StoreView, category: Seq<char>)
    ensures
        store.with_category(category).with_category(category) == store.with_category(category),
        store.with_category(category).categories.len() <= store.categories.len() + 1,
        store.categories.is_prefix_of(store.with_category(category).categories),
{
    if !store.categories.contains(category) {
        let added = store.categories.push(category);
        assert(added[store.categories.len() as int] == category);
    }
}

/// A record that was stored for an id is the record that a later read of
/// that id yields, and reads of other ids are as before.
pub proof fn stored_record_is_read_back(
    store: StoreView,
    id: Seq<char>,
    record: MetadataView,
    other: Seq<char>,
    now: Timestamp,
)
    ensures
        store.with_metadata(id, record).record_for(id, now) == record,
        other != id ==> store.with_metadata(id, record).record_for(other, now) == store.record_for(
            other,
            now,
        ),
{
}

/// A store that is written out and read back is the same store: the same
/// ids with the same records, the same categories in the same order, the
/// same templates.
pub proof fn written_store_is_read_back(store: StoreView, snapshot: SnapshotView)
    requires
        snapshot.writes_out(store),
    ensures
        snapshot.restored() == store,
{
    lemma_first_occurrences(snapshot.categories);
}

} // verus!
