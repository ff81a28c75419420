use wincanvas::geometry::Rect;
use wincanvas::windows_info::{
    choose_current_desktop, display_title, is_listed_window, layout_size, measured_source_size,
    pin_client_size, pin_preparation, process_name, remeasured, thumbnail_props, DesktopProbe, WindowSizes,
};

#[test]
fn listed_windows() {
    assert!(is_listed_window(false, true, 0x1000_0000, 0, 5, 42, 7));
    assert!(!is_listed_window(true, true, 0, 0, 5, 42, 7));
    assert!(!is_listed_window(false, false, 0, 0, 5, 42, 7));
    assert!(!is_listed_window(false, true, 0x4000_0000, 0, 5, 42, 7));
    assert!(!is_listed_window(false, true, 0, 0x80, 5, 42, 7));
    assert!(!is_listed_window(false, true, 0, 0, 0, 42, 7));
    assert!(!is_listed_window(false, true, 0, 0, 5, 7, 7));
}

#[test]
fn process_names() {
    assert_eq!(process_name(Some("C:\\Windows\\System32\\notepad.exe")), "notepad");
    assert_eq!(process_name(Some("C:\\Tools\\app.exe.exe")), "app");
    assert_eq!(process_name(Some("tool")), "tool");
    assert_eq!(process_name(Some("C:\\dir\\")), "");
    assert_eq!(process_name(Some("C:\\x\\EXPLORER.EXE")), "EXPLORER.EXE");
    assert_eq!(process_name(None), "unknown");
}

#[test]
fn display_titles() {
    assert_eq!(display_title("notepad", "notes.txt"), "[notepad] notes.txt");
    let long = display_title("chrome", "A very long page title that keeps going and going");
    assert_eq!(long, "[chrome] A very long page title that keeps...");
    assert_eq!(long.chars().count(), 45);
    // exactly 45 characters stays whole
    let t = "x".repeat(45 - 3 - 1);
    let shown = display_title("p", &t);
    assert_eq!(shown.chars().count(), 45);
    assert!(!shown.ends_with("..."));
}

#[test]
fn sizes() {
    assert_eq!(measured_source_size(Some((800, 600))), (800, 600));
    assert_eq!(measured_source_size(Some((0, 600))), (0, 0));
    assert_eq!(measured_source_size(None), (0, 0));
    let s = WindowSizes { source_w: 800, source_h: 600, client_w: 780, client_h: 560 };
    assert_eq!(layout_size(&s), (780, 560));
    let s2 = WindowSizes { source_w: 800, source_h: 600, client_w: 0, client_h: 560 };
    assert_eq!(layout_size(&s2), (800, 600));
    assert_eq!(pin_client_size(&s2), Some((800, 560)));
    let s3 = WindowSizes { source_w: 0, source_h: 600, client_w: 0, client_h: 560 };
    assert_eq!(pin_client_size(&s3), None);
}

#[test]
fn remeasure_keeps_unmeasured() {
    let prev = WindowSizes { source_w: 800, source_h: 600, client_w: 780, client_h: 560 };
    let now = WindowSizes { source_w: 0, source_h: 700, client_w: -1, client_h: 650 };
    assert_eq!(
        remeasured(prev, now),
        WindowSizes { source_w: 800, source_h: 700, client_w: 780, client_h: 650 }
    );
}

#[test]
fn thumbnail_properties() {
    let d = Rect { left: 1, top: 2, right: 3, bottom: 4 };
    let p = thumbnail_props(d, 800, 600, 255);
    assert_eq!(p.flags, 0x1F);
    assert_eq!(p.source, Rect { left: 0, top: 0, right: 800, bottom: 600 });
    assert_eq!(p.destination, d);
    assert_eq!(p.opacity, 255);
    let q = thumbnail_props(d, 0, 0, 0);
    assert_eq!(q.flags, 0x1D);
}

#[test]
fn current_desktop_choice() {
    let a = DesktopProbe { cloaked: true, on_current: Some(true), desktop: Some(1) };
    let b = DesktopProbe { cloaked: false, on_current: Some(false), desktop: Some(2) };
    let c = DesktopProbe { cloaked: false, on_current: Some(true), desktop: Some(3) };
    let z = DesktopProbe { cloaked: false, on_current: Some(true), desktop: Some(0) };
    assert_eq!(choose_current_desktop(&[a, b, c], None), (Some(3), Some(3)));
    assert_eq!(choose_current_desktop(&[a, b], None), (Some(2), Some(2)));
    assert_eq!(choose_current_desktop(&[a, z], Some(9)), (Some(9), Some(9)));
    assert_eq!(choose_current_desktop(&[], None), (None, None));
}

#[test]
fn pin_preparation_cases() {
    assert_eq!(pin_preparation(2, 0x8), (true, true));
    assert_eq!(pin_preparation(1, 0x100), (false, false));
    assert_eq!(pin_preparation(3, 0x108), (false, true));
}
