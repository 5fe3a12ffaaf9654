use cursor_notepad::document::{add_note, add_note_at, reformat, Json};
use cursor_notepad::error::CursorError;

fn written(outcome: Result<Option<String>, CursorError>) -> String {
    match outcome {
        Ok(Some(text)) => text,
        Ok(None) => panic!("the state has a place for the note"),
        Err(error) => panic!("{}", error.message()),
    }
}

fn no_place(outcome: Result<Option<String>, CursorError>) -> bool {
    matches!(outcome, Ok(None))
}

#[test]
fn a_first_note_makes_the_whole_state() {
    let text = written(add_note_at(None, "buy milk", "2024-05-01T10:00:00+00:00"));
    assert_eq!(
        text,
        "{\"notepads\":{\"tasks\":{\"list\":[{\"content\":\"buy milk\",\"created_at\":\"2024-05-01T10:00:00+00:00\"}]}}}"
    );
}

#[test]
fn a_note_goes_to_the_end_of_the_list() {
    let existing = "{\"notepads\":{\"tasks\":{\"list\":[{\"content\":\"a\",\"created_at\":\"t0\"}],\"title\":\"T\"},\"other\":{\"list\":[]}},\"version\":2}";
    let text = written(add_note_at(Some(existing), "b", "t1"));
    assert_eq!(
        text,
        "{\"notepads\":{\"other\":{\"list\":[]},\"tasks\":{\"list\":[{\"content\":\"a\",\"created_at\":\"t0\"},{\"content\":\"b\",\"created_at\":\"t1\"}],\"title\":\"T\"}},\"version\":2}"
    );
}

#[test]
fn missing_parts_of_the_state_are_made() {
    assert_eq!(
        written(add_note_at(Some("{}"), "n", "t")),
        "{\"notepads\":{\"tasks\":{\"list\":[{\"content\":\"n\",\"created_at\":\"t\"}]}}}"
    );
    assert_eq!(
        written(add_note_at(Some("null"), "n", "t")),
        "{\"notepads\":{\"tasks\":{\"list\":[{\"content\":\"n\",\"created_at\":\"t\"}]}}}"
    );
    assert_eq!(
        written(add_note_at(Some("{\"notepads\":null,\"k\":[1,2.5,\"x\",true,null]}"), "n", "t")),
        "{\"k\":[1,2.5,\"x\",true,null],\"notepads\":{\"tasks\":{\"list\":[{\"content\":\"n\",\"created_at\":\"t\"}]}}}"
    );
    assert_eq!(
        written(add_note_at(Some("{\"notepads\":{\"ideas\":{}}}"), "n", "t")),
        "{\"notepads\":{\"ideas\":{},\"tasks\":{\"list\":[{\"content\":\"n\",\"created_at\":\"t\"}]}}}"
    );
}

#[test]
fn a_state_of_another_shape_has_no_place_for_a_note() {
    assert!(no_place(add_note_at(Some("[]"), "n", "t")));
    assert!(no_place(add_note_at(Some("3"), "n", "t")));
    assert!(no_place(add_note_at(Some("\"text\""), "n", "t")));
    assert!(no_place(add_note_at(Some("{\"notepads\":7}"), "n", "t")));
    assert!(no_place(add_note_at(Some("{\"notepads\":[]}"), "n", "t")));
    assert!(no_place(add_note_at(Some("{\"notepads\":{\"tasks\":null}}"), "n", "t")));
    assert!(no_place(add_note_at(Some("{\"notepads\":{\"tasks\":{}}}"), "n", "t")));
    assert!(no_place(add_note_at(Some("{\"notepads\":{\"tasks\":{\"list\":{}}}}"), "n", "t")));
    assert!(no_place(add_note_at(Some("{\"notepads\":{\"tasks\":{\"list\":null}}}"), "n", "t")));
}

#[test]
fn a_state_that_is_no_json_is_an_error() {
    assert!(matches!(add_note_at(Some("{\"notepads\":"), "n", "t"), Err(CursorError::Json(_))));
    assert!(matches!(add_note_at(Some(""), "n", "t"), Err(CursorError::Json(_))));
    assert!(matches!(add_note(Some("not json"), "n"), Err(CursorError::Json(_))));
}

#[test]
fn the_content_of_a_note_is_escaped() {
    assert_eq!(
        written(add_note_at(None, "say \"hi\"\n", "t")),
        "{\"notepads\":{\"tasks\":{\"list\":[{\"content\":\"say \\\"hi\\\"\\n\",\"created_at\":\"t\"}]}}}"
    );
}

#[test]
fn a_note_added_now_carries_the_time() {
    let text = written(add_note(None, "now"));
    let state = match Json::parse(&text) {
        Ok(state) => state,
        Err(error) => panic!("{}", error.message()),
    };
    let list = state
        .member("notepads")
        .and_then(|notepads| notepads.member("tasks"))
        .and_then(|tasks| tasks.member("list"));
    let items = match list {
        Some(Json::List(items)) => items,
        _ => panic!("a list was expected"),
    };
    assert_eq!(items.len(), 1);
    assert_eq!(items[0].member("content").and_then(|c| c.as_text()), Some(&"now".to_string()));
    let stamp = match items[0].member("created_at").and_then(|c| c.as_text()) {
        Some(stamp) => stamp.clone(),
        None => panic!("a time was expected"),
    };
    assert!(stamp.len() >= 20);
    assert!(stamp.starts_with("20"));
    assert!(stamp.ends_with("+00:00"));
    assert_eq!(&stamp[10..11], "T");
}

#[test]
fn with_note_edits_a_document() {
    let state = Json::empty_state();
    let edited = match state.with_note("c".to_string(), "t".to_string()) {
        Some(edited) => edited,
        None => panic!("the empty state has a place for a note"),
    };
    let again = match edited.with_note("d".to_string(), "u".to_string()) {
        Some(again) => again,
        None => panic!("the state has a place for a second note"),
    };
    match again.render() {
        Ok(text) => assert_eq!(
            text,
            "{\"notepads\":{\"tasks\":{\"list\":[{\"content\":\"c\",\"created_at\":\"t\"},{\"content\":\"d\",\"created_at\":\"u\"}]}}}"
        ),
        Err(error) => panic!("{}", error.message()),
    }
    assert!(Json::Bool(true).with_note("c".to_string(), "t".to_string()).is_none());
    assert!(Json::List(Vec::new()).with_note("c".to_string(), "t".to_string()).is_none());
}

#[test]
fn a_note_has_two_members() {
    let note = Json::note("c".to_string(), "t".to_string());
    assert_eq!(note.member("content").and_then(|c| c.as_text()), Some(&"c".to_string()));
    assert_eq!(note.member("created_at").and_then(|c| c.as_text()), Some(&"t".to_string()));
    assert!(note.member("other").is_none());
    assert!(note.as_text().is_none());
    match note.render() {
        Ok(text) => assert_eq!(text, "{\"content\":\"c\",\"created_at\":\"t\"}"),
        Err(error) => panic!("{}", error.message()),
    }
}

#[test]
fn of_two_members_with_one_key_the_later_counts() {
    let object = Json::Object(vec![
        ("k".to_string(), Json::Text("first".to_string())),
        ("j".to_string(), Json::Null),
        ("k".to_string(), Json::Text("second".to_string())),
    ]);
    assert_eq!(object.member("k").and_then(|k| k.as_text()), Some(&"second".to_string()));
    assert!(matches!(object.member("j"), Some(Json::Null)));
    match object.render() {
        Ok(text) => assert_eq!(text, "{\"j\":null,\"k\":\"second\"}"),
        Err(error) => panic!("{}", error.message()),
    }
    let state = Json::Object(vec![
        ("notepads".to_string(), Json::Bool(false)),
        ("notepads".to_string(), Json::Null),
    ]);
    match state.with_note("c".to_string(), "t".to_string()).map(|edited| edited.render()) {
        Some(Ok(text)) => assert_eq!(
            text,
            "{\"notepads\":{\"tasks\":{\"list\":[{\"content\":\"c\",\"created_at\":\"t\"}]}}}"
        ),
        _ => panic!("the later member takes the note"),
    }
}

#[test]
fn parse_lays_every_kind_of_value_open() {
    let doc = match Json::parse(" {\"b\": [1, -2.5, true, null, \"x\", {\"y\": []}], \"a\": \"\\u00e9\"} ") {
        Ok(doc) => doc,
        Err(error) => panic!("{}", error.message()),
    };
    assert_eq!(doc.member("a").and_then(|a| a.as_text()), Some(&"\u{e9}".to_string()));
    match doc.member("b") {
        Some(Json::List(items)) => {
            assert_eq!(items.len(), 6);
            assert!(matches!(items[0], Json::Number(_)));
            assert!(matches!(items[1], Json::Number(_)));
            assert!(matches!(items[2], Json::Bool(true)));
            assert!(matches!(items[3], Json::Null));
            assert!(matches!(items[4], Json::Text(_)));
            assert!(items[5].member("y").is_some());
            assert!(items[5].member("b").is_none());
        }
        _ => panic!("a list was expected"),
    }
    assert!(doc.member("c").is_none());
    match doc.render() {
        Ok(text) => assert_eq!(text, "{\"a\":\"\u{e9}\",\"b\":[1,-2.5,true,null,\"x\",{\"y\":[]}]}"),
        Err(error) => panic!("{}", error.message()),
    }
    assert!(matches!(Json::parse("{\"a\" 1}"), Err(CursorError::Json(_))));
}

#[test]
fn reformat_lays_a_text_out() {
    match reformat("{\"b\":[1,2],\"a\":{}}") {
        Ok(text) => assert_eq!(text, "{\n  \"a\": {},\n  \"b\": [\n    1,\n    2\n  ]\n}"),
        Err(error) => panic!("{}", error.message()),
    }
    assert!(matches!(reformat("{"), Err(CursorError::Json(_))));
}
