use four_code::cursor::{Cursor, Position};

// Simulated lines: "Hello" (5), "World" (5), "!" (1)
fn line_lengths() -> Vec<usize> {
    vec![5, 5, 1]
}

#[test]
fn test_cursor_movement() {
    let mut cursor = Cursor::new();
    let lens = line_lengths();

    // Move right
    cursor.move_right(3, 3, &lens);
    assert_eq!(cursor.position, Position::new(0, 3));

    // Move down
    cursor.move_down(1, 3, &lens);
    assert_eq!(cursor.position, Position::new(1, 3));

    // Move left
    cursor.move_left(2, &lens);
    assert_eq!(cursor.position, Position::new(1, 1));

    // Move up
    cursor.move_up(1, &lens);
    assert_eq!(cursor.position, Position::new(0, 1));
}

#[test]
fn test_line_wrapping() {
    let mut cursor = Cursor::at(0, 5);
    let lens = line_lengths();

    // Move right should wrap to next line
    cursor.move_right(1, 3, &lens);
    assert_eq!(cursor.position, Position::new(1, 0));

    // Move left should wrap to previous line
    cursor.move_left(1, &lens);
    assert_eq!(cursor.position, Position::new(0, 5));
}

#[test]
fn test_preferred_column() {
    let mut cursor = Cursor::at(0, 5);
    let lens = line_lengths();

    // Move down to shorter line - should clamp
    cursor.move_down(2, 3, &lens);
    assert_eq!(cursor.position, Position::new(2, 1)); // "!" has length 1

    // Move up - should restore preferred column
    cursor.move_up(2, &lens);
    assert_eq!(cursor.position, Position::new(0, 5));
}

#[test]
fn test_selection() {
    let mut cursor = Cursor::at(1, 2);
    let lens = line_lengths();

    cursor.start_selection();
    // Move right 5 times: (1,2) → (1,3) → (1,4) → (1,5) → (2,0) → (2,1)
    cursor.move_right(5, 3, &lens);

    let (start, end) = cursor.selection_range().unwrap();
    assert_eq!(start, Position::new(1, 2));
    assert_eq!(end, Position::new(2, 1)); // "!" has length 1, so we end at column 1

    cursor.clear_selection();
    assert!(!cursor.has_selection());
}

#[test]
fn test_horizontal_roundtrip() {
    // moving right then left by the same count within a line restores
    // the position
    let lens = line_lengths();
    let mut cursor = Cursor::at(1, 1);
    cursor.move_right(3, 3, &lens);
    assert_eq!(cursor.position, Position::new(1, 4));
    cursor.move_left(3, &lens);
    assert_eq!(cursor.position, Position::new(1, 1));
}

#[test]
fn test_selection_ordered_backwards() {
    // the selection range is ordered ascending whichever way the cursor
    // moved after anchoring
    let lens = line_lengths();
    let mut cursor = Cursor::at(1, 3);
    cursor.start_selection();
    cursor.move_up(1, &lens);
    cursor.move_left(2, &lens);
    let (start, end) = cursor.selection_range().unwrap();
    assert_eq!(start, Position::new(0, 1));
    assert_eq!(end, Position::new(1, 3));
    assert!(start.line < end.line || (start.line == end.line && start.column <= end.column));
}

#[test]
fn test_move_to_boundaries() {
    let lens = line_lengths();
    let mut cursor = Cursor::at(1, 2);
    cursor.move_to_line_start();
    assert_eq!(cursor.position, Position::new(1, 0));
    cursor.move_to_line_end(5);
    assert_eq!(cursor.position, Position::new(1, 5));
    cursor.move_to_end(3, 1);
    assert_eq!(cursor.position, Position::new(2, 1));
    cursor.move_to_start();
    assert_eq!(cursor.position, Position::new(0, 0));
    // movement at the edges is absorbed
    cursor.move_up(1, &lens);
    assert_eq!(cursor.position, Position::new(0, 0));
    cursor.move_left(1, &lens);
    assert_eq!(cursor.position, Position::new(0, 0));
}
