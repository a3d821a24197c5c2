use reminder_app::error::AppError;

#[test]
fn test_error_display() {
    let err = AppError::storage("file not found");
    assert_eq!(err.to_string(), "Storage error: file not found");
}

#[test]
fn test_error_conversion_to_string() {
    let err = AppError::oauth("token expired");
    let s: String = err.into();
    assert!(s.contains("OAuth error"));
}

#[test]
fn test_error_constructors() {
    let storage_err = AppError::storage("test");
    assert!(matches!(storage_err, AppError::Storage(_)));

    let drive_err = AppError::drive("test");
    assert!(matches!(drive_err, AppError::Drive(_)));
}

#[test]
fn every_kind_has_its_label() {
    assert_eq!(AppError::storage("a").to_string(), "Storage error: a");
    assert_eq!(AppError::drive("b").to_string(), "Drive error: b");
    assert_eq!(AppError::oauth("c").to_string(), "OAuth error: c");
    assert_eq!(AppError::window("d").to_string(), "Window error: d");
    assert_eq!(AppError::validation("e").to_string(), "Validation error: e");
    assert_eq!(AppError::network("f").to_string(), "Network error: f");
}

#[test]
fn constructors_keep_the_message() {
    assert!(matches!(AppError::oauth("x"), AppError::OAuth(m) if m == "x"));
    assert!(matches!(AppError::window("x"), AppError::Window(m) if m == "x"));
    assert!(matches!(AppError::validation("x"), AppError::Validation(m) if m == "x"));
    assert!(matches!(AppError::network(""), AppError::Network(m) if m.is_empty()));
}

#[test]
fn conversion_gives_the_displayed_text() {
    let s: String = AppError::network("unreachable").into();
    assert_eq!(s, "Network error: unreachable");
}

#[test]
fn cause_is_the_message_alone() {
    assert_eq!(AppError::drive("Token expired").cause(), "Token expired");
    assert_eq!(AppError::storage("").cause(), "");
}
