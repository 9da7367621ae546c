use sessionfs::names::is_valid_session_id;

#[test]
fn test_valid_session_id() {
    assert!(is_valid_session_id("2df568e6-f193-4037-a3ba-a8f901ebc722"));
}

#[test]
fn test_invalid_session_id_with_spaces() {
    assert!(!is_valid_session_id("invalid session id"));
}

#[test]
fn test_invalid_session_id_with_special_chars() {
    assert!(!is_valid_session_id("test;rm -rf /"));
}

#[test]
fn test_empty_session_id() {
    assert!(!is_valid_session_id(""));
}
