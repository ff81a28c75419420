use wincanvas::ordering::{
    apply_custom_order, filter_windows, move_cell, position_in, save_custom_order, update_filter,
    windows_to_hide,
};
use wincanvas::search::SearchState;

fn titles(v: &[&str]) -> Vec<String> {
    v.iter().map(|s| s.to_string()).collect()
}

#[test]
fn filter_keeps_matching_in_order() {
    let mut s = SearchState::new();
    let t = titles(&["Notepad", "Calculator", "notes.txt - Notepad", "Paint"]);
    assert_eq!(filter_windows(&s, &t), vec![0, 1, 2, 3]);
    s.push('n');
    s.push('o');
    s.push('t');
    assert_eq!(filter_windows(&s, &t), vec![0, 2]);
    s.push('z');
    assert_eq!(filter_windows(&s, &t), Vec::<usize>::new());
}

#[test]
fn position_in_is_first_or_len() {
    assert_eq!(position_in(&[5, 7, 5], 5), 0);
    assert_eq!(position_in(&[5, 7, 5], 7), 1);
    assert_eq!(position_in(&[5, 7, 5], 9), 3);
    assert_eq!(position_in(&[], 9), 0);
}

#[test]
fn save_custom_order_records_ids() {
    let ids = vec![100isize, 200, 300, 400];
    assert_eq!(save_custom_order(&[2, 0, 3], &ids), vec![300, 100, 400]);
}

#[test]
fn custom_order_puts_saved_first_and_others_last() {
    let ids = vec![100isize, 200, 300, 400, 500];
    let order = vec![400isize, 100];
    assert_eq!(apply_custom_order(&[0, 1, 2, 3, 4], &ids, &order), vec![3, 0, 1, 2, 4]);
}

#[test]
fn custom_order_ignores_unknown_saved_ids() {
    let ids = vec![100isize, 200, 300];
    let order = vec![999isize, 300];
    assert_eq!(apply_custom_order(&[0, 1, 2], &ids, &order), vec![2, 0, 1]);
}

#[test]
fn save_then_apply_is_identity() {
    let ids = vec![100isize, 200, 300, 400];
    let shown = vec![3usize, 1, 0];
    let order = save_custom_order(&shown, &ids);
    assert_eq!(apply_custom_order(&shown, &ids, &order), shown);
}

#[test]
fn move_cell_forward_and_back() {
    let mut v = vec![10usize, 11, 12, 13];
    // drop before cell 3: lands at 2
    assert_eq!(move_cell(&mut v, 0, 3), Some(2));
    assert_eq!(v, vec![11, 12, 10, 13]);
    // move it back: from 2, drop before cell 0
    assert_eq!(move_cell(&mut v, 2, 0), Some(0));
    assert_eq!(v, vec![10, 11, 12, 13]);
}

#[test]
fn move_cell_onto_itself_does_nothing() {
    let mut v = vec![1usize, 2, 3];
    assert_eq!(move_cell(&mut v, 1, 1), None);
    assert_eq!(v, vec![1, 2, 3]);
}

#[test]
fn move_cell_to_end() {
    let mut v = vec![1usize, 2, 3];
    assert_eq!(move_cell(&mut v, 0, 3), Some(2));
    assert_eq!(v, vec![2, 3, 1]);
}

#[test]
fn windows_to_hide_are_unshown_with_thumbnails() {
    let has = vec![true, true, false, true, true];
    assert_eq!(windows_to_hide(&has, &[1, 4]), vec![0, 3]);
    assert_eq!(windows_to_hide(&has, &[]), vec![0, 1, 3, 4]);
}

#[test]
fn update_filter_combines_filter_and_saved_order() {
    let mut s = SearchState::new();
    let t = titles(&["alpha", "beta", "alphabet", "gamma"]);
    let ids = vec![10isize, 20, 30, 40];
    assert_eq!(update_filter(&s, &t, &ids, &[]), vec![0, 1, 2, 3]);
    assert_eq!(update_filter(&s, &t, &ids, &[40, 20]), vec![3, 1, 0, 2]);
    s.push('a');
    s.push('l');
    assert_eq!(update_filter(&s, &t, &ids, &[30]), vec![2, 0]);
}
