use std::io;
use std::path::PathBuf;

use sortcrab::error::SortcrabError;

#[test]
fn test_error_display_io() {
    let err = SortcrabError::Io(io::Error::new(io::ErrorKind::NotFound, "file not found"));
    assert!(err.message().contains("file not found"));
    assert!(err.message().contains("I/O error"));
}

#[test]
fn test_error_display_config() {
    let err = SortcrabError::Config("missing field 'root'".to_string());
    assert_eq!(err.message(), "Config error: missing field 'root'");
}

#[test]
fn test_error_display_invalid_path() {
    let err = SortcrabError::InvalidPath(PathBuf::from("/nonexistent"));
    assert_eq!(err.message(), "Invalid path: /nonexistent");
}

#[test]
fn test_error_display_semester() {
    let err = SortcrabError::Semester("invalid format".to_string());
    assert_eq!(err.message(), "Semester error: invalid format");
}

#[test]
fn test_error_from_str() {
    let err = SortcrabError::from("test error");
    assert_eq!(err.message(), "test error");
}

#[test]
fn test_error_from_string() {
    let err: SortcrabError = "owned error".to_string().into();
    assert_eq!(err.message(), "owned error");
}

#[test]
fn test_error_from_io() {
    let io_err = io::Error::new(io::ErrorKind::PermissionDenied, "permission denied");
    let err: SortcrabError = io_err.into();
    assert!(err.message().contains("permission denied"));
}

#[test]
fn error_messages_of_text_variants() {
    assert_eq!(
        SortcrabError::UnknownExtension("xyz".to_string()).message(),
        "Unknown extension: xyz"
    );
    assert_eq!(SortcrabError::Skipped("dotfile: .x".to_string()).message(), "Skipped: dotfile: .x");
    assert_eq!(SortcrabError::Other(String::new()).message(), "");
}

#[test]
fn error_from_toml_parse() {
    let parsed: Result<toml::Table, toml::de::Error> = toml::from_str("version = ");
    let err: SortcrabError = parsed.unwrap_err().into();
    assert!(matches!(err, SortcrabError::TomlParse(_)));
    assert!(err.message().starts_with("TOML parse error: "));
}

#[test]
fn error_is_skipped_only_for_skipped() {
    assert!(SortcrabError::Skipped("symlink: a".to_string()).is_skipped());
    assert!(!SortcrabError::Other("symlink: a".to_string()).is_skipped());
    assert!(!SortcrabError::Io(io::Error::new(io::ErrorKind::Other, "x")).is_skipped());
}
