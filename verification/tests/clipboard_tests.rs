use four_code::clipboard::{copy_check, cut_check, normalize_paste, ClipboardError};

#[test]
fn test_copy_empty_fails() {
    let result = copy_check("");
    assert!(matches!(result, Err(ClipboardError::EmptyText)));
}

#[test]
fn test_cut_empty_fails() {
    assert!(matches!(cut_check(""), Err(ClipboardError::EmptyText)));
    assert!(cut_check("keep").is_ok());
}

#[test]
fn test_copy_nonempty_passes() {
    assert!(copy_check("Hello, four-code! Umlaute: öäüß 中文").is_ok());
}

#[test]
fn test_normalize_paste() {
    // trailing CRLF artifacts from a host shell are stripped, repeated
    // ones included; nothing else changes
    assert_eq!(normalize_paste("abc\r\n"), "abc");
    assert_eq!(normalize_paste("abc\r\n\r\n"), "abc");
    assert_eq!(normalize_paste("abc\ndef"), "abc\ndef");
    assert_eq!(normalize_paste("abc\n"), "abc\n");
    assert_eq!(normalize_paste("öäüß 中文\r\n"), "öäüß 中文");
    assert_eq!(normalize_paste(""), "");
}
