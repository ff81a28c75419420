use wincanvas::ordering::move_cell;
use wincanvas::geometry::{
    client_aligned_rect, drop_index, hit_test, placement_error, scroll_offset, thumb_rect_inset,
    title_rect_below, Rect,
};

fn r(left: i32, top: i32, right: i32, bottom: i32) -> Rect {
    Rect { left, top, right, bottom }
}

#[test]
fn rect_contains_edges() {
    let c = r(10, 20, 30, 40);
    assert!(c.contains(10, 20));
    assert!(c.contains(30, 40));
    assert!(c.contains(15, 25));
    assert!(!c.contains(9, 25));
    assert!(!c.contains(15, 41));
}

#[test]
fn rect_size_and_hidden() {
    assert_eq!(r(10, 20, 110, 70).size(), (100, 50));
    assert_eq!(Rect::hidden(), r(-1, -1, -1, -1));
}

#[test]
fn title_rect_sits_under_cell() {
    let t = title_rect_below(r(10, 20, 110, 80), 24);
    assert_eq!(t, r(10, 82, 110, 106));
}

#[test]
fn thumb_rect_is_inset_by_two() {
    assert_eq!(thumb_rect_inset(r(10, 20, 110, 80)), r(12, 22, 108, 78));
}

#[test]
fn hit_test_finds_first_containing_cell() {
    let cells = vec![r(0, 0, 10, 10), r(20, 0, 30, 10), r(5, 5, 25, 25)];
    assert_eq!(hit_test(&cells, 25, 5, 3), Some(1));
    assert_eq!(hit_test(&cells, 7, 7, 3), Some(0));
    assert_eq!(hit_test(&cells, 22, 20, 3), Some(2));
    assert_eq!(hit_test(&cells, 22, 20, 2), None);
    assert_eq!(hit_test(&cells, 100, 100, 3), None);
    assert_eq!(hit_test(&cells, 25, 5, 10), Some(1));
}

#[test]
fn drop_index_inserts_before_cell_left_of_middle() {
    let cells = vec![r(0, 0, 10, 10), r(20, 0, 30, 10)];
    assert_eq!(drop_index(&cells, 4, 5, 2), Some(0));
    assert_eq!(drop_index(&cells, 5, 5, 2), Some(0));
    assert_eq!(drop_index(&cells, 6, 5, 2), Some(1));
    assert_eq!(drop_index(&cells, 25, 5, 2), Some(1));
    assert_eq!(drop_index(&cells, 26, 5, 2), Some(2));
    assert_eq!(drop_index(&cells, 100, 5, 2), Some(2));
    assert_eq!(drop_index(&cells, 0, 50, 2), Some(2));
    assert_eq!(drop_index(&cells, 0, 50, 0), None);
}

#[test]
fn drop_index_middle_rounds_toward_zero() {
    // middle of -5..0 is -2 (toward zero), not -3
    let cells = vec![r(-5, 0, 0, 10)];
    assert_eq!(drop_index(&cells, -2, 5, 1), Some(0));
    assert_eq!(drop_index(&cells, -1, 5, 3), Some(3));
}

#[test]
fn client_aligned_rect_keeps_frame() {
    // window at (100,50)-(420,300); client origin on screen at (108,80);
    // client 300 x 212: frame left 8, top 30, right 12, bottom 8.
    let window = r(100, 50, 420, 300);
    let client = r(0, 0, 300, 212);
    let target = r(500, 400, 900, 700);
    let (x, y, w, h) = client_aligned_rect(window, 108, 80, client, target);
    assert_eq!((x, y, w, h), (492, 370, 420, 338));
    assert_eq!(x + 8, target.left);
    assert_eq!(y + 30, target.top);
    assert_eq!(x + w - 12, target.right);
    assert_eq!(y + h - 8, target.bottom);
}

#[test]
fn placement_error_is_target_minus_actual() {
    assert_eq!(placement_error(r(500, 400, 900, 700), 497, 401), (3, -1));
    assert_eq!(placement_error(r(500, 400, 900, 700), 500, 400), (0, 0));
}

#[test]
fn scroll_offset_none_when_visible() {
    // view: left 10, top 60, right 990, bottom 790
    assert_eq!(scroll_offset(r(100, 100, 200, 200), 20, 10, 1000, 800), None);
}

#[test]
fn scroll_offset_moves_just_enough() {
    assert_eq!(scroll_offset(r(-10, 100, 90, 200), 20, 10, 1000, 800), Some((20, 0)));
    assert_eq!(scroll_offset(r(100, 700, 200, 790), 20, 10, 1000, 800), Some((0, -22)));
    assert_eq!(scroll_offset(r(950, 30, 1050, 130), 20, 10, 1000, 800), Some((-60, 30)));
}

#[test]
fn scroll_offset_aligns_oversized_cell_to_view_start() {
    assert_eq!(scroll_offset(r(-500, 100, 1500, 200), 20, 10, 1000, 800), Some((510, 0)));
    assert_eq!(scroll_offset(r(100, -100, 200, 1000), 20, 10, 1000, 800), Some((0, 160)));
}

#[test]
fn scrolled_cell_lands_in_view() {
    let cell = r(900, 750, 1000, 800);
    let (dx, dy) = scroll_offset(cell, 20, 10, 1000, 800).unwrap();
    assert!(cell.left + dx >= 10 && cell.right + dx <= 990);
    assert!(cell.top + dy >= 60 && cell.bottom + 2 + 20 + dy <= 790);
}

#[test]
fn drop_past_last_cell_appends_at_end() {
    let cells = vec![r(0, 0, 100, 100), r(120, 0, 220, 100)];
    let drop = drop_index(&cells, 500, 50, 2).unwrap();
    assert_eq!(drop, 2);
    let mut shown = vec![7usize, 8];
    assert_eq!(move_cell(&mut shown, 0, drop), Some(1));
    assert_eq!(shown, vec![8, 7]);
}
