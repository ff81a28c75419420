use wincanvas::selection::{
    accepts_search_char, clamp_selection, key_command, nav_down, nav_up, nearest_in_row,
    next_selection, prev_selection, KeyCommand, VK_BACK, VK_DOWN, VK_ESCAPE, VK_F1, VK_LEFT,
    VK_RETURN, VK_RIGHT, VK_TAB, VK_UP,
};

#[test]
fn clamp_selection_cases() {
    assert_eq!(clamp_selection(Some(3), 0), None);
    assert_eq!(clamp_selection(Some(5), 3), Some(2));
    assert_eq!(clamp_selection(Some(1), 3), Some(1));
    assert_eq!(clamp_selection(None, 3), None);
}

#[test]
fn next_and_prev_wrap() {
    assert_eq!(next_selection(Some(0), 3), 1);
    assert_eq!(next_selection(Some(2), 3), 0);
    assert_eq!(next_selection(None, 3), 0);
    assert_eq!(prev_selection(Some(0), 3), 2);
    assert_eq!(prev_selection(Some(2), 3), 1);
    assert_eq!(prev_selection(None, 3), 0);
    for s in 0..3 {
        assert_eq!(prev_selection(Some(next_selection(Some(s), 3)), 3), s);
        assert_eq!(next_selection(Some(prev_selection(Some(s), 3)), 3), s);
    }
}

#[test]
fn key_escape_order() {
    assert_eq!(key_command(VK_ESCAPE, false, true, true, None, 3), KeyCommand::ExitPinMode);
    assert_eq!(key_command(VK_ESCAPE, false, false, true, None, 3), KeyCommand::ClearSearch);
    assert_eq!(key_command(VK_ESCAPE, false, false, false, None, 3), KeyCommand::Hide);
}

#[test]
fn key_f1_and_backspace() {
    assert_eq!(key_command(VK_F1, true, true, false, None, 3), KeyCommand::TogglePinMode);
    assert_eq!(key_command(VK_BACK, false, false, true, None, 3), KeyCommand::PopSearch);
    assert_eq!(key_command(VK_BACK, true, false, true, None, 3), KeyCommand::Ignore);
}

#[test]
fn key_navigation() {
    assert_eq!(key_command(VK_TAB, false, false, false, Some(1), 3), KeyCommand::Select(2));
    assert_eq!(key_command(VK_RIGHT, false, false, false, Some(2), 3), KeyCommand::Select(0));
    assert_eq!(key_command(VK_LEFT, false, false, false, Some(0), 3), KeyCommand::Select(2));
    assert_eq!(key_command(VK_DOWN, false, false, false, Some(1), 3), KeyCommand::NavDown(1));
    assert_eq!(key_command(VK_UP, false, false, false, Some(1), 3), KeyCommand::NavUp(1));
    assert_eq!(key_command(VK_UP, false, false, false, None, 3), KeyCommand::Select(0));
    assert_eq!(key_command(VK_TAB, false, false, false, None, 0), KeyCommand::Ignore);
    assert_eq!(key_command(VK_TAB, true, false, false, Some(1), 3), KeyCommand::Ignore);
}

#[test]
fn key_activate() {
    assert_eq!(key_command(VK_RETURN, false, false, false, Some(1), 3), KeyCommand::Activate(1));
    assert_eq!(key_command(VK_RETURN, false, false, false, Some(3), 3), KeyCommand::Ignore);
    assert_eq!(key_command(VK_RETURN, false, false, false, None, 3), KeyCommand::Ignore);
    assert_eq!(key_command(0x31, false, false, false, None, 3), KeyCommand::Activate(0));
    assert_eq!(key_command(0x33, false, false, false, None, 3), KeyCommand::Activate(2));
    assert_eq!(key_command(0x34, false, false, false, None, 3), KeyCommand::Ignore);
    assert_eq!(key_command(0x33, false, false, true, None, 3), KeyCommand::Ignore);
    assert_eq!(key_command(0x41, false, false, false, None, 3), KeyCommand::Ignore);
}

#[test]
fn search_chars() {
    assert!(accepts_search_char('a'));
    assert!(accepts_search_char(' '));
    assert!(accepts_search_char('é'));
    assert!(!accepts_search_char('\u{8}'));
    assert!(!accepts_search_char('\u{7f}'));
    assert!(!accepts_search_char('\r'));
}

#[test]
fn nearest_prefers_first_of_smallest() {
    let rows = vec![0usize, 0, 1, 1, 1];
    let keys = vec![5u64, 1, 7, 3, 3];
    assert_eq!(nearest_in_row(&rows, &keys, 1), Some(3));
    assert_eq!(nearest_in_row(&rows, &keys, 0), Some(1));
    assert_eq!(nearest_in_row(&rows, &keys, 2), None);
}

#[test]
fn nav_down_and_wrap() {
    let rows = vec![0usize, 0, 1, 1];
    let keys = vec![9u64, 2, 4, 1];
    assert_eq!(nav_down(&rows, &keys, 0), 3);
    // from the last row: wrap to row 0
    assert_eq!(nav_down(&rows, &keys, 2), 1);
    assert_eq!(nav_down(&[], &[], 0), 0);
}

#[test]
fn nav_up_and_wrap() {
    let rows = vec![0usize, 0, 1, 1, 2];
    let keys = vec![9u64, 2, 4, 1, 0];
    assert_eq!(nav_up(&rows, &keys, 2), 1);
    // from row 0: wrap to the last cell's row
    assert_eq!(nav_up(&rows, &keys, 0), 4);
    assert_eq!(nav_up(&[], &[], 0), 0);
}
