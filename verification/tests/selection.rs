use mark_as_read::selection::SelectionCursor;

#[test]
fn a_new_cursor_stands_on_the_first_row() {
    let cursor = SelectionCursor::new(4);
    assert_eq!(cursor.len(), 4);
    assert_eq!(cursor.selected(), Some(0));
}

#[test]
fn move_down_goes_to_the_next_row() {
    let mut cursor = SelectionCursor::new(3);
    cursor.move_down();
    assert_eq!(cursor.selected(), Some(1));
    cursor.move_down();
    assert_eq!(cursor.selected(), Some(2));
}

#[test]
fn move_down_wraps_at_the_last_row() {
    let mut cursor = SelectionCursor::new(3);
    cursor.move_down();
    cursor.move_down();
    assert_eq!(cursor.selected(), Some(2));
    cursor.move_down();
    assert_eq!(cursor.selected(), Some(0));
}

#[test]
fn move_up_wraps_at_the_first_row() {
    let mut cursor = SelectionCursor::new(3);
    cursor.move_up();
    assert_eq!(cursor.selected(), Some(2));
    cursor.move_up();
    assert_eq!(cursor.selected(), Some(1));
}

#[test]
fn moves_are_no_ops_in_an_empty_list() {
    let mut cursor = SelectionCursor::new(0);
    assert_eq!(cursor.selected(), None);
    cursor.move_down();
    assert_eq!(cursor.selected(), None);
    assert_eq!(cursor, SelectionCursor::new(0));
    cursor.move_up();
    assert_eq!(cursor.selected(), None);
    assert_eq!(cursor, SelectionCursor::new(0));
}

#[test]
fn a_single_row_stays_selected() {
    let mut cursor = SelectionCursor::new(1);
    cursor.move_down();
    assert_eq!(cursor.selected(), Some(0));
    cursor.move_up();
    assert_eq!(cursor.selected(), Some(0));
}

#[test]
fn down_then_up_leads_back() {
    for length in 1..6usize {
        for start in 0..length {
            let mut cursor = SelectionCursor::new(length);
            for _ in 0..start {
                cursor.move_down();
            }
            assert_eq!(cursor.selected(), Some(start));
            cursor.move_down();
            assert_eq!(cursor.selected(), Some((start + 1) % length));
            cursor.move_up();
            assert_eq!(cursor.selected(), Some(start));
            cursor.move_up();
            assert_eq!(cursor.selected(), Some((start + length - 1) % length));
        }
    }
}

#[test]
fn the_largest_list_wraps_without_overflow() {
    let mut cursor = SelectionCursor::new(usize::MAX);
    cursor.move_up();
    assert_eq!(cursor.selected(), Some(usize::MAX - 1));
    cursor.move_down();
    assert_eq!(cursor.selected(), Some(0));
}
