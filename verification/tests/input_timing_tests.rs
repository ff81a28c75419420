use wincanvas::input::{
    command_id, menu_command, moved_beyond, size_from_lparam, wheel_delta, x_from_lparam,
    y_from_lparam, WindowCommand,
};
use wincanvas::timing::{animation_finished, duration_ticks, PAN_MS, ZOOM_MS, ZOOM_PAN_MS};

#[test]
fn coordinates_are_signed_words() {
    let lp: isize = (200 << 16) | 100;
    assert_eq!(x_from_lparam(lp), 100);
    assert_eq!(y_from_lparam(lp), 200);
    let neg: isize = (0xFFFE << 16) | 0xFFFF;
    assert_eq!(x_from_lparam(neg), -1);
    assert_eq!(y_from_lparam(neg), -2);
}

#[test]
fn wheel_and_size_and_command() {
    assert_eq!(wheel_delta(120usize << 16), 120);
    assert_eq!(wheel_delta(0xFF88usize << 16), -120);
    assert_eq!(size_from_lparam((768 << 16) | 1024), (1024, 768));
    assert_eq!(command_id(0x0001_03E9), 1001);
}

#[test]
fn pointer_thresholds() {
    assert!(!moved_beyond(3, -3, 3));
    assert!(moved_beyond(4, 0, 3));
    assert!(moved_beyond(0, -6, 5));
}

#[test]
fn menu_commands() {
    assert_eq!(menu_command(1001), Some(WindowCommand::Close));
    assert_eq!(menu_command(1002), Some(WindowCommand::Minimize));
    assert_eq!(menu_command(1003), Some(WindowCommand::Maximize));
    assert_eq!(menu_command(1004), Some(WindowCommand::Restore));
    assert_eq!(menu_command(7), None);
}

#[test]
fn durations() {
    assert_eq!(duration_ticks(10_000_000, ZOOM_MS), 1_500_000);
    assert_eq!(duration_ticks(10_000_000, PAN_MS), 2_800_000);
    assert_eq!(duration_ticks(10_000_000, ZOOM_PAN_MS), 3_500_000);
    assert_eq!(duration_ticks(3, 150), 0);
    assert!(animation_finished(100, 40, 60));
    assert!(!animation_finished(99, 40, 60));
}
