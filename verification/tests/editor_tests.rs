use four_code::cursor::Position;
use four_code::editor::{Editor, Viewport};

#[test]
fn test_insert_char() {
    let mut editor = Editor::new();
    editor.insert_char('H');
    editor.insert_char('i');

    assert_eq!(editor.buffer.text(), "Hi");
    assert_eq!(editor.cursor.position, Position::new(0, 2));
}

#[test]
fn test_insert_newline() {
    let mut editor = Editor::new();
    editor.insert_str("Hello");
    editor.insert_newline();
    editor.insert_str("World");

    assert_eq!(editor.buffer.text(), "Hello\nWorld");
    assert_eq!(editor.cursor.position, Position::new(1, 5));
}

#[test]
fn test_backspace() {
    let mut editor = Editor::with_content("Hello");
    editor.cursor.move_to(0, 5);

    editor.backspace();
    assert_eq!(editor.buffer.text(), "Hell");
    assert_eq!(editor.cursor.position.column, 4);
}

#[test]
fn test_backspace_join_lines() {
    let mut editor = Editor::with_content("Hello\nWorld");
    editor.cursor.move_to(1, 0); // Start of "World"

    editor.backspace();
    assert_eq!(editor.buffer.text(), "HelloWorld");
    assert_eq!(editor.cursor.position, Position::new(0, 5));
}

#[test]
fn test_delete() {
    let mut editor = Editor::with_content("Hello");
    editor.cursor.move_to(0, 0);

    editor.delete();
    assert_eq!(editor.buffer.text(), "ello");
}

#[test]
fn test_delete_join_lines() {
    let mut editor = Editor::with_content("Hello\nWorld");
    editor.cursor.move_to(0, 5); // End of "Hello"

    editor.delete();
    assert_eq!(editor.buffer.text(), "HelloWorld");
}

#[test]
fn test_viewport_scrolling() {
    let mut editor = Editor::with_content("Line1\nLine2\nLine3\nLine4\nLine5");
    editor.set_viewport_size(3, 80);

    // Move down past viewport
    editor.move_down();
    editor.move_down();
    editor.move_down();

    assert_eq!(editor.cursor.position.line, 3);
    assert!(editor.viewport.top_line > 0);
}

#[test]
fn test_selection_get_text() {
    let mut editor = Editor::with_content("Hello World");
    editor.cursor.move_to(0, 0);
    editor.cursor.start_selection();
    editor.cursor.move_to(0, 5);

    let selected = editor.get_selected_text();
    assert_eq!(selected, Some("Hello".to_string()));
}

#[test]
fn test_selection_multiline() {
    let mut editor = Editor::with_content("Hello\nWorld\nTest");
    editor.cursor.move_to(0, 3); // "Hel|lo"
    editor.cursor.start_selection();
    editor.cursor.move_to(1, 3); // "Wor|ld"

    let selected = editor.get_selected_text();
    assert_eq!(selected, Some("lo\nWor".to_string()));
}

#[test]
fn test_delete_selection() {
    let mut editor = Editor::with_content("Hello World");
    editor.cursor.move_to(0, 0);
    editor.cursor.start_selection();
    editor.cursor.move_to(0, 6); // Select "Hello "

    let deleted = editor.delete_selection();
    assert!(deleted);
    assert_eq!(editor.buffer.text(), "World");
    assert_eq!(editor.cursor.position, Position::new(0, 0));
}

#[test]
fn test_replace_selection() {
    let mut editor = Editor::with_content("Hello World");
    editor.cursor.move_to(0, 6);
    editor.cursor.start_selection();
    editor.cursor.move_to(0, 11); // Select "World"

    editor.replace_selection("Rust");
    assert_eq!(editor.buffer.text(), "Hello Rust");
}

#[test]
fn test_select_all() {
    let mut editor = Editor::with_content("Hello\nWorld");
    editor.select_all();

    let selected = editor.get_selected_text();
    assert_eq!(selected, Some("Hello\nWorld".to_string()));
}

#[test]
fn test_page_movement() {
    let mut editor = Editor::with_content("a\nb\nc\nd\ne\nf\ng\nh\ni\nj");
    editor.set_viewport_size(5, 80);
    // a page is viewport height minus two lines of context
    editor.page_down();
    assert_eq!(editor.cursor.position.line, 3);
    editor.page_down();
    assert_eq!(editor.cursor.position.line, 6);
    editor.page_up();
    assert_eq!(editor.cursor.position.line, 3);
}

#[test]
fn test_viewport_ensure_visible() {
    let mut viewport = Viewport::new(3, 80);
    viewport.ensure_visible(10);
    assert_eq!(viewport.top_line, 8);
    viewport.ensure_visible(2);
    assert_eq!(viewport.top_line, 2);
    viewport.ensure_visible(3);
    assert_eq!(viewport.top_line, 2); // already visible
}

#[test]
fn test_filename() {
    let mut editor = Editor::with_content("x");
    assert_eq!(editor.filename(), "[untitled]");
    editor.buffer.set_path(String::from("/home/someone/notes.md"));
    assert_eq!(editor.filename(), "notes.md");
    assert_eq!(editor.path().unwrap(), "/home/someone/notes.md");
    // trailing slashes name the directory; relative-direction
    // components name no file
    editor.buffer.set_path(String::from("a/project/"));
    assert_eq!(editor.filename(), "project");
    editor.buffer.set_path(String::from("/"));
    assert_eq!(editor.filename(), "[untitled]");
    editor.buffer.set_path(String::from(".."));
    assert_eq!(editor.filename(), "[untitled]");
}

#[test]
fn test_move_to_line_ends() {
    let mut editor = Editor::with_content("Hello\nWorld wide");
    editor.cursor.move_to(1, 3);
    editor.move_to_line_end();
    assert_eq!(editor.cursor.position, Position::new(1, 10));
    editor.move_to_line_start();
    assert_eq!(editor.cursor.position, Position::new(1, 0));
    editor.move_to_end();
    assert_eq!(editor.cursor.position, Position::new(1, 10));
    editor.move_to_start();
    assert_eq!(editor.cursor.position, Position::new(0, 0));
}
