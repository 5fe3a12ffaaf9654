use cursor_notepad::cli::{find_workspace, select_workspace, workspace_label};
use cursor_notepad::db::{is_store_image, CursorDB, Opening, StoreFile};
use cursor_notepad::error::CursorError;
use cursor_notepad::models::Workspace;
use cursor_notepad::workspace::{is_listed, list_workspaces, project_name_from_config};
use std::path::PathBuf;

fn workspace(id: &str, project_name: Option<&str>) -> Workspace {
    Workspace {
        id: id.to_string(),
        name: id.to_string(),
        project_name: project_name.map(|name| name.to_string()),
        path: PathBuf::from("/tmp").join(id),
    }
}

fn ids(workspaces: &[Workspace]) -> Vec<String> {
    workspaces.iter().map(|w| w.id.clone()).collect()
}

#[test]
fn service_and_numeric_directories_are_not_listed() {
    assert!(!is_listed("ext-dev"));
    assert!(!is_listed("images"));
    assert!(!is_listed("1700000000"));
    assert!(!is_listed("7"));
    assert!(!is_listed(""));
    assert!(!is_listed("\u{661}\u{662}\u{663}"));
    assert!(!is_listed("\u{bd}"));
    assert!(is_listed("a1b2c3"));
    assert!(is_listed("123a"));
    assert!(is_listed("12 3"));
    assert!(is_listed("ext-dev2"));
    assert!(is_listed("Images"));
    assert!(is_listed("-1"));
}

#[test]
fn the_listing_is_ordered_by_shown_name() {
    let found = vec![
        workspace("zz9", Some("alpha")),
        workspace("images", Some("aaa")),
        workspace("mm1", None),
        workspace("123", None),
        workspace("bb2", Some("zeta")),
        workspace("cc3", Some("alpha")),
        workspace("aa4", Some("Beta")),
        workspace("ext-dev", None),
    ];
    let listing = list_workspaces(&found);
    assert_eq!(ids(&listing), vec!["aa4", "zz9", "cc3", "mm1", "bb2"]);
    assert_eq!(listing[0].project_name, Some("Beta".to_string()));
    assert_eq!(listing[3].project_name, None);
    assert_eq!(listing[1].path, PathBuf::from("/tmp/zz9"));
    assert!(list_workspaces(&Vec::new()).is_empty());
}

#[test]
fn a_shorter_name_comes_before_its_extensions() {
    let found = vec![workspace("ab", None), workspace("a", None), workspace("abc", Some("a"))];
    let listing = list_workspaces(&found);
    assert_eq!(ids(&listing), vec!["a", "abc", "ab"]);
}

#[test]
fn the_project_name_is_the_last_part_of_the_folder() {
    assert_eq!(
        project_name_from_config("{\"folder\": \"file:///home/user/my-project\"}"),
        Some("my-project".to_string())
    );
    assert_eq!(project_name_from_config("{\"folder\": \"plain\"}"), Some("plain".to_string()));
    assert_eq!(project_name_from_config("{\"folder\": \"/a/b/..\"}"), None);
    assert_eq!(project_name_from_config("{\"folder\": 1}"), None);
    assert_eq!(project_name_from_config("{}"), None);
    assert_eq!(project_name_from_config("{\"folder\""), None);
}

#[test]
fn a_workspace_is_labelled_with_its_project_name_and_id() {
    assert_eq!(workspace_label(&workspace("abc", Some("notes"))), "notes (abc)");
    assert_eq!(workspace_label(&workspace("abc", None)), "abc");
    assert_eq!(workspace_label(&workspace("", Some(""))), " ()");
}

#[test]
fn a_workspace_is_found_by_id_or_project_name() {
    let all = vec![
        workspace("one", Some("first")),
        workspace("two", None),
        workspace("three", Some("two")),
        workspace("four", Some("first")),
    ];
    assert_eq!(find_workspace(&all, "one").map(|w| w.id.as_str()), Some("one"));
    assert_eq!(find_workspace(&all, "first").map(|w| w.id.as_str()), Some("one"));
    assert_eq!(find_workspace(&all, "two").map(|w| w.id.as_str()), Some("two"));
    assert_eq!(find_workspace(&all, "three").map(|w| w.id.as_str()), Some("three"));
    assert_eq!(find_workspace(&all, "four").map(|w| w.id.as_str()), Some("four"));
    assert!(find_workspace(&all, "five").is_none());
    assert!(find_workspace(&all, "On").is_none());
    assert!(find_workspace(&[], "one").is_none());
}

#[test]
fn a_workspace_that_is_not_there_is_reported_by_name() {
    let all = vec![workspace("one", Some("first"))];
    match select_workspace(&all, "first") {
        Ok(found) => assert_eq!(found.id, "one"),
        Err(_) => panic!("the workspace is there"),
    }
    match select_workspace(&all, "my ws") {
        Err(CursorError::Config(text)) => assert_eq!(text, "Workspace 'my ws' not found"),
        _ => panic!("a configuration error was expected"),
    }
}

#[test]
fn a_database_is_known_by_its_first_bytes() {
    assert!(is_store_image(b"SQLite format 3\0and more"));
    assert!(is_store_image(b"SQLite format 3"));
    assert!(!is_store_image(b"SQLite format "));
    assert!(!is_store_image(b"SQLite format 4\0"));
    assert!(!is_store_image(b"sqlite format 3\0"));
    assert!(!is_store_image(b" SQLite format 3"));
    assert!(!is_store_image(b""));
}

#[test]
fn the_store_is_opened_by_what_is_found() {
    assert_eq!(CursorDB::opening_for(&StoreFile::Missing), Opening::Create);
    assert_eq!(CursorDB::opening_for(&StoreFile::Unreadable), Opening::Replace);
    assert_eq!(
        CursorDB::opening_for(&StoreFile::Holds(b"SQLite format 3\0".to_vec())),
        Opening::Reuse
    );
    assert_eq!(CursorDB::opening_for(&StoreFile::Holds(b"garbage".to_vec())), Opening::Replace);
    assert_eq!(CursorDB::opening_for(&StoreFile::Holds(Vec::new())), Opening::Replace);
}

#[test]
fn a_handle_keeps_its_workspace() {
    let db = CursorDB::new(workspace("abc", Some("notes")));
    assert_eq!(db.workspace.id, "abc");
    assert_eq!(db.workspace.project_name, Some("notes".to_string()));
    assert_eq!(db.workspace.path, PathBuf::from("/tmp/abc"));
}

#[test]
fn a_folder_without_a_last_part_gives_no_project_name() {
    assert_eq!(project_name_from_config("{\"folder\": \"\"}"), None);
    assert_eq!(project_name_from_config("{\"folder\": \"/\"}"), None);
    assert_eq!(project_name_from_config("{\"folder\": \"..\"}"), None);
    assert_eq!(project_name_from_config("{\"folder\": \"/home/user/notes/\"}"), Some("notes".to_string()));
    assert_eq!(project_name_from_config("{\"folder\": \"/home/user/my notes\"}"), Some("my notes".to_string()));
}
