use cursor_notepad::error::CursorError;

fn json_error() -> serde_json::Error {
    match serde_json::from_str::<serde_json::Value>("[1,") {
        Ok(_) => panic!("this text is no JSON"),
        Err(error) => error,
    }
}

#[test]
fn each_kind_of_error_opens_its_message() {
    let io = CursorError::Io(std::io::Error::new(std::io::ErrorKind::Other, "disk gone"));
    assert_eq!(io.message(), "I/O error: disk gone");
    let database = CursorError::Database(rusqlite::Error::QueryReturnedNoRows);
    assert_eq!(database.message(), format!("Database error: {}", rusqlite::Error::QueryReturnedNoRows));
    let json = CursorError::Json(json_error());
    assert_eq!(json.message(), format!("JSON error: {}", json_error()));
    let config = CursorError::Config("Cursor directory not found".to_string());
    assert_eq!(config.message(), "Configuration error: Cursor directory not found");
    assert_eq!(CursorError::Config(String::new()).message(), "Configuration error: ");
}

#[test]
fn describe_puts_the_kind_before_the_detail() {
    let config = CursorError::Config("ignored".to_string());
    assert_eq!(config.describe("x"), "Configuration error: x");
    let io = CursorError::Io(std::io::Error::new(std::io::ErrorKind::Other, "ignored"));
    assert_eq!(io.describe(""), "I/O error: ");
    assert_eq!(CursorError::Json(json_error()).describe("y"), "JSON error: y");
    assert_eq!(
        CursorError::Database(rusqlite::Error::InvalidQuery).describe("z"),
        "Database error: z"
    );
}

#[test]
fn errors_convert_into_their_kind() {
    let io: CursorError = std::io::Error::new(std::io::ErrorKind::NotFound, "nothing").into();
    match io {
        CursorError::Io(error) => assert_eq!(error.kind(), std::io::ErrorKind::NotFound),
        _ => panic!("an I/O error was expected"),
    }
    let database: CursorError = rusqlite::Error::InvalidQuery.into();
    assert!(matches!(database, CursorError::Database(rusqlite::Error::InvalidQuery)));
    let json: CursorError = json_error().into();
    assert!(matches!(json, CursorError::Json(_)));
    let from_text: CursorError = "Could not find home directory".into();
    match from_text {
        CursorError::Config(text) => assert_eq!(text, "Could not find home directory"),
        _ => panic!("a configuration error was expected"),
    }
    let from_string: CursorError = String::from("Workspace 'x' not found").into();
    match from_string {
        CursorError::Config(text) => assert_eq!(text, "Workspace 'x' not found"),
        _ => panic!("a configuration error was expected"),
    }
}
