use four_code::buffer::Buffer;

#[test]
fn test_new_buffer() {
    let buffer = Buffer::new();
    assert!(buffer.is_empty());
    assert_eq!(buffer.len_lines(), 1); // Empty buffer has 1 line
}

#[test]
fn test_from_str() {
    let buffer = Buffer::with_content("Hello\nWorld");
    assert_eq!(buffer.len_lines(), 2);
    assert_eq!(buffer.line(0).unwrap(), "Hello\n");
    assert_eq!(buffer.line(1).unwrap(), "World");
}

#[test]
fn test_insert() {
    let mut buffer = Buffer::with_content("Hello World");
    buffer.insert(5, ",");
    assert_eq!(buffer.text(), "Hello, World");
    assert!(buffer.is_modified());
}

#[test]
fn test_remove() {
    let mut buffer = Buffer::with_content("Hello, World");
    buffer.remove(5, 7);
    assert_eq!(buffer.text(), "HelloWorld");
}

#[test]
fn test_line_col_conversion() {
    let buffer = Buffer::with_content("Hello\nWorld\nTest");

    assert_eq!(buffer.line_col_to_char(0, 0), Some(0));
    assert_eq!(buffer.line_col_to_char(1, 0), Some(6));
    assert_eq!(buffer.line_col_to_char(2, 2), Some(14));

    assert_eq!(buffer.char_to_line_col(0), (0, 0));
    assert_eq!(buffer.char_to_line_col(6), (1, 0));
    assert_eq!(buffer.char_to_line_col(14), (2, 2));
}

#[test]
fn test_position_clamp_roundtrip() {
    // converting (line, col) to an offset clamps the column to the line
    // length; converting back restores the line and the clamped column
    let buffer = Buffer::with_content("Hello\nWorld\nTest");
    for line in 0..3 {
        for col in 0..8 {
            let off = buffer.line_col_to_char(line, col).unwrap();
            let clamped = col.min(buffer.line_len(line).unwrap());
            assert_eq!(buffer.char_to_line_col(off), (line, clamped));
        }
    }
    assert!(buffer.line_col_to_char(3, 0).is_none());
}

#[test]
fn test_insert_remove_roundtrip() {
    let original = "Hello\nWorld";
    let mut buffer = Buffer::with_content(original);
    buffer.insert(5, ", dear");
    assert_eq!(buffer.text(), "Hello, dear\nWorld");
    buffer.remove(5, 5 + ", dear".chars().count());
    assert_eq!(buffer.text(), original);
}

#[test]
fn test_line_len_excludes_terminator() {
    let buffer = Buffer::with_content("ab\nc\n");
    assert_eq!(buffer.len_lines(), 3);
    assert_eq!(buffer.line_len(0), Some(2));
    assert_eq!(buffer.line_len(1), Some(1));
    assert_eq!(buffer.line_len(2), Some(0));
    assert_eq!(buffer.line_len(3), None);
}

#[test]
fn test_path_and_save_flags() {
    let mut buffer = Buffer::with_content("x");
    assert!(buffer.path().is_none());
    buffer.set_path(String::from("/tmp/demo.txt"));
    assert_eq!(buffer.path().unwrap(), "/tmp/demo.txt");
    buffer.insert_char(1, '!');
    assert!(buffer.is_modified());
    buffer.mark_saved();
    assert!(!buffer.is_modified());
    assert_eq!(buffer.text(), "x!");
}
