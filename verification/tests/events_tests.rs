use wincanvas::selection::{key_command, KeyCommand, VK_1};
use wincanvas::events::{
    after_frame, badge_number, cell_style, hotkey_action, left_press, pinned_window,
    refresh_action, right_release, wheel_zooms, CellStyle, HotkeyAction, LeftPress,
    RefreshAction, RightRelease,
};

#[test]
fn cell_styles_by_priority() {
    assert_eq!(cell_style(2, true, Some(2), Some(2), Some(2)), CellStyle::PinFocus);
    assert_eq!(cell_style(2, false, Some(2), Some(2), Some(2)), CellStyle::Selected);
    assert_eq!(cell_style(2, false, None, Some(1), Some(2)), CellStyle::Hovered);
    assert_eq!(cell_style(2, false, None, Some(1), Some(3)), CellStyle::Plain);
}

#[test]
fn badges_for_first_nine() {
    assert_eq!(badge_number(0), Some(1));
    assert_eq!(badge_number(8), Some(9));
    assert_eq!(badge_number(9), None);
}

#[test]
fn left_press_cases() {
    assert_eq!(left_press(true, true, Some(1), None, false), LeftPress::TogglePinMode);
    assert_eq!(left_press(false, true, Some(1), None, false), LeftPress::Pin(1));
    assert_eq!(left_press(false, true, Some(1), Some(1), false), LeftPress::Ignore);
    assert_eq!(left_press(false, true, None, Some(1), false), LeftPress::Unpin);
    assert_eq!(left_press(false, false, Some(4), None, true), LeftPress::StartDrag(4));
    assert_eq!(left_press(false, false, Some(4), None, false), LeftPress::Activate(4));
    assert_eq!(left_press(false, false, None, None, false), LeftPress::Ignore);
}

#[test]
fn right_release_cases() {
    assert_eq!(right_release(false, false, false), RightRelease::ContextMenu);
    assert_eq!(right_release(true, false, false), RightRelease::Coast);
    assert_eq!(right_release(true, true, false), RightRelease::Coast);
    assert_eq!(right_release(false, true, false), RightRelease::Ignore);
    assert_eq!(right_release(true, false, true), RightRelease::Ignore);
}

#[test]
fn hotkeys() {
    assert_eq!(hotkey_action(1, true), HotkeyAction::Hide);
    assert_eq!(hotkey_action(1, false), HotkeyAction::Show);
    assert_eq!(hotkey_action(2, true), HotkeyAction::Unpin);
    assert_eq!(hotkey_action(3, true), HotkeyAction::UnpinAndLeavePinMode);
    assert_eq!(hotkey_action(4, true), HotkeyAction::Ignore);
}

#[test]
fn timers() {
    assert_eq!(refresh_action(true, true, true), RefreshAction::Ignore);
    assert_eq!(refresh_action(true, false, true), RefreshAction::Unpin);
    assert_eq!(refresh_action(false, false, true), RefreshAction::Refresh);
    assert_eq!(refresh_action(false, false, false), RefreshAction::Ignore);
    assert_eq!(after_frame(false, true, true), (true, false));
    assert_eq!(after_frame(false, false, false), (false, true));
    assert_eq!(after_frame(true, false, true), (false, false));
    assert!(wheel_zooms(false, false));
    assert!(!wheel_zooms(true, false));
    assert!(!wheel_zooms(false, true));
}

#[test]
fn pinned_window_checks() {
    let shown = vec![2usize, 0, 1];
    let ids = vec![100isize, 200, 300];
    assert_eq!(pinned_window(0, 3, &shown, &ids, 300), Some(2));
    assert_eq!(pinned_window(0, 3, &shown, &ids, 200), None);
    assert_eq!(pinned_window(3, 4, &shown, &ids, 300), None);
    assert_eq!(pinned_window(1, 1, &shown, &ids, 100), None);
}

#[test]
fn badge_digit_selects_its_cell() {

    for cell in 0..9usize {
        let n = badge_number(cell).unwrap();
        let vk = VK_1 + (n as u16) - 1;
        assert_eq!(key_command(vk, false, false, false, None, 9), KeyCommand::Activate(cell));
    }
}
