use cursor_notepad::models::{
    clone_texts, contains_text, EnrichedNotepad, NotepadData, NotepadMetadata, NotepadStatus, Timestamp, Workspace,
    WorkspaceConfig,
};
use std::path::PathBuf;

fn at(secs: i64) -> Timestamp {
    Timestamp { secs, nanos: 0 }
}

fn notes(items: &[&str]) -> NotepadData {
    NotepadData::List(items.iter().map(|s| s.to_string()).collect())
}

fn raw_object() -> NotepadData {
    let mut members = serde_json::Map::new();
    members.insert("k".to_string(), serde_json::Value::Bool(true));
    NotepadData::Raw(serde_json::Value::Object(members))
}

#[test]
fn default_data_is_an_empty_list() {
    let data = NotepadData::default();
    assert_eq!(data.as_list(), Some(&Vec::new()));
}

#[test]
fn ensure_list_leaves_a_list_alone() {
    let mut data = notes(&["a", "b"]);
    data.ensure_list();
    assert_eq!(data.as_list(), Some(&vec!["a".to_string(), "b".to_string()]));
    data.ensure_list();
    assert_eq!(data.as_list(), Some(&vec!["a".to_string(), "b".to_string()]));
}

#[test]
fn ensure_list_resets_a_raw_value() {
    let mut data = raw_object();
    assert!(data.as_list().is_none());
    data.ensure_list();
    assert_eq!(data.as_list(), Some(&Vec::new()));
    let mut number = NotepadData::Raw(serde_json::Value::from(7));
    number.ensure_list();
    assert_eq!(number.as_list(), Some(&Vec::new()));
}

#[test]
fn as_list_mut_hands_out_the_list() {
    let mut data = notes(&["a"]);
    match data.as_list_mut() {
        Some(list) => list.push("b".to_string()),
        None => panic!("a list was expected"),
    }
    assert_eq!(data.as_list(), Some(&vec!["a".to_string(), "b".to_string()]));
}

#[test]
fn as_list_mut_of_a_raw_value_is_none() {
    let mut data = raw_object();
    assert!(data.as_list_mut().is_none());
    assert!(matches!(data, NotepadData::Raw(serde_json::Value::Object(_))));
}

#[test]
fn clone_of_data_keeps_the_content() {
    let list = notes(&["a", "b"]);
    assert_eq!(list.clone().as_list(), list.as_list());
    match raw_object().clone() {
        NotepadData::Raw(value) => assert_eq!(value.get("k"), Some(&serde_json::Value::Bool(true))),
        NotepadData::List(_) => panic!("a raw value was expected"),
    }
}

#[test]
fn new_at_makes_an_active_record_without_tags() {
    let notepad = EnrichedNotepad::new_at(notes(&["a"]), "docs".to_string(), at(100));
    assert_eq!(notepad.original_data.as_list(), Some(&vec!["a".to_string()]));
    assert_eq!(notepad.metadata.category, "docs");
    assert!(notepad.metadata.tags.is_empty());
    assert!(notepad.metadata.references.is_empty());
    assert_eq!(notepad.metadata.created_at, at(100));
    assert_eq!(notepad.metadata.updated_at, at(100));
    assert_eq!(notepad.metadata.status, NotepadStatus::Active);
}

#[test]
fn new_stamps_both_times_with_one_reading_of_the_clock() {
    let notepad = EnrichedNotepad::new(NotepadData::default(), "tasks".to_string());
    assert_eq!(notepad.metadata.created_at, notepad.metadata.updated_at);
    assert!(notepad.metadata.created_at.secs > 1_600_000_000);
    assert!(notepad.metadata.created_at.nanos < 2_000_000_000);
    assert_eq!(notepad.metadata.category, "tasks");
    assert_eq!(notepad.metadata.status, NotepadStatus::Active);
}

#[test]
fn add_tag_twice_is_the_same_as_once() {
    let mut notepad = EnrichedNotepad::new_at(NotepadData::default(), "docs".to_string(), at(1));
    notepad.add_tag_at("urgent".to_string(), at(2));
    assert_eq!(notepad.metadata.tags, vec!["urgent".to_string()]);
    assert_eq!(notepad.metadata.updated_at, at(2));
    notepad.add_tag_at("urgent".to_string(), at(3));
    assert_eq!(notepad.metadata.tags, vec!["urgent".to_string()]);
    assert_eq!(notepad.metadata.updated_at, at(2));
    assert_eq!(notepad.metadata.created_at, at(1));
}

#[test]
fn add_tag_keeps_the_order_of_insertion() {
    let mut notepad = EnrichedNotepad::new_at(NotepadData::default(), "docs".to_string(), at(1));
    notepad.add_tag_at("b".to_string(), at(2));
    notepad.add_tag_at("a".to_string(), at(3));
    notepad.add_tag_at("b".to_string(), at(4));
    assert_eq!(notepad.metadata.tags, vec!["b".to_string(), "a".to_string()]);
    assert_eq!(notepad.metadata.updated_at, at(3));
    assert!(notepad.metadata.references.is_empty());
}

#[test]
fn add_tag_with_the_clock_is_a_no_op_on_a_known_tag() {
    let mut notepad = EnrichedNotepad::new_at(NotepadData::default(), "docs".to_string(), at(1));
    notepad.add_tag("x".to_string());
    assert_eq!(notepad.metadata.tags, vec!["x".to_string()]);
    let stamped = notepad.metadata.updated_at;
    assert!(stamped.secs > 1_600_000_000);
    notepad.metadata.updated_at = at(5);
    notepad.add_tag("x".to_string());
    assert_eq!(notepad.metadata.tags, vec!["x".to_string()]);
    assert_eq!(notepad.metadata.updated_at, at(5));
}

#[test]
fn add_reference_twice_is_the_same_as_once() {
    let mut notepad = EnrichedNotepad::new_at(NotepadData::default(), "docs".to_string(), at(1));
    notepad.add_reference_at("ws9".to_string(), at(2));
    notepad.add_reference_at("ws9".to_string(), at(3));
    notepad.add_reference_at("ws3".to_string(), at(4));
    assert_eq!(notepad.metadata.references, vec!["ws9".to_string(), "ws3".to_string()]);
    assert_eq!(notepad.metadata.updated_at, at(4));
    assert!(notepad.metadata.tags.is_empty());
    notepad.add_reference("ws3".to_string());
    assert_eq!(notepad.metadata.updated_at, at(4));
    notepad.add_reference("ws4".to_string());
    assert_eq!(notepad.metadata.references.len(), 3);
    assert!(notepad.metadata.updated_at.secs > 1_600_000_000);
}

#[test]
fn set_status_moves_updated_at_even_when_nothing_changes() {
    let mut notepad = EnrichedNotepad::new_at(NotepadData::default(), "docs".to_string(), at(1));
    notepad.set_status_at(NotepadStatus::Active, at(7));
    assert_eq!(notepad.metadata.status, NotepadStatus::Active);
    assert_eq!(notepad.metadata.updated_at, at(7));
    notepad.set_status_at(NotepadStatus::Completed, at(9));
    assert_eq!(notepad.metadata.status, NotepadStatus::Completed);
    assert_eq!(notepad.metadata.updated_at, at(9));
    assert_eq!(notepad.metadata.created_at, at(1));
    notepad.set_status(NotepadStatus::Pending);
    assert_eq!(notepad.metadata.status, NotepadStatus::Pending);
    assert!(notepad.metadata.updated_at.secs > 1_600_000_000);
}

#[test]
fn statuses_compare_by_kind() {
    assert!(NotepadStatus::Archived.same_kind(&NotepadStatus::Archived));
    assert!(!NotepadStatus::Archived.same_kind(&NotepadStatus::Active));
    assert!(!NotepadStatus::Pending.same_kind(&NotepadStatus::Completed));
}

#[test]
fn clone_of_a_record_copies_every_field() {
    let record = NotepadMetadata {
        category: "tests".to_string(),
        tags: vec!["a".to_string(), "b".to_string()],
        created_at: Timestamp { secs: 5, nanos: 6 },
        updated_at: Timestamp { secs: 7, nanos: 8 },
        references: vec!["r".to_string()],
        status: NotepadStatus::Archived,
    };
    let copy = record.clone();
    assert_eq!(copy.category, "tests");
    assert_eq!(copy.tags, record.tags);
    assert_eq!(copy.created_at, Timestamp { secs: 5, nanos: 6 });
    assert_eq!(copy.updated_at, Timestamp { secs: 7, nanos: 8 });
    assert_eq!(copy.references, record.references);
    assert_eq!(copy.status, NotepadStatus::Archived);
}

#[test]
fn display_name_prefers_the_project_name() {
    let mut workspace = Workspace {
        id: "abc123".to_string(),
        name: "abc123".to_string(),
        project_name: Some("notes".to_string()),
        path: PathBuf::from("/tmp/abc123"),
    };
    assert_eq!(workspace.display_name(), "notes");
    workspace.project_name = None;
    assert_eq!(workspace.display_name(), "abc123");
    let copy = workspace.clone();
    assert_eq!(copy.id, "abc123");
    assert_eq!(copy.path, PathBuf::from("/tmp/abc123"));
}

#[test]
fn a_description_names_its_folder() {
    let config = WorkspaceConfig::read("{\"folder\": \"file:///home/u/proj\", \"x\": 1}");
    assert_eq!(config.map(|c| c.folder), Some("file:///home/u/proj".to_string()));
}

#[test]
fn a_description_without_a_folder_text_is_nothing() {
    assert!(WorkspaceConfig::read("{\"folder\": 3}").is_none());
    assert!(WorkspaceConfig::read("{\"other\": \"x\"}").is_none());
    assert!(WorkspaceConfig::read("[\"folder\"]").is_none());
    assert!(WorkspaceConfig::read("{\"folder\": ").is_none());
    assert!(WorkspaceConfig::read("folder").is_none());
}

#[test]
fn a_text_is_found_among_texts_by_its_whole_content() {
    let items = vec!["alpha".to_string(), "beta".to_string(), "".to_string()];
    assert!(contains_text(&items, &"beta".to_string()));
    assert!(contains_text(&items, &"".to_string()));
    assert!(!contains_text(&items, &"bet".to_string()));
    assert!(!contains_text(&items, &"Alpha".to_string()));
    assert!(!contains_text(&Vec::new(), &"alpha".to_string()));
    assert_eq!(clone_texts(&items), items);
    assert!(clone_texts(&Vec::new()).is_empty());
}
