use wincanvas::search::{contains_str, SearchState};

#[test]
fn new_search_is_inactive_and_matches_everything() {
    let s = SearchState::new();
    assert!(!s.is_active());
    assert!(s.matches("Anything at all"));
    assert!(s.matches(""));
}

#[test]
fn push_pop_clear_edit_the_query() {
    let mut s = SearchState::new();
    s.push('a');
    s.push('b');
    assert_eq!(s.query, "ab");
    assert!(s.is_active());
    s.pop();
    assert_eq!(s.query, "a");
    s.pop();
    assert_eq!(s.query, "");
    s.pop();
    assert_eq!(s.query, "");
    s.push('x');
    s.clear();
    assert_eq!(s.query, "");
    assert!(!s.is_active());
}

#[test]
fn matching_ignores_case() {
    let mut s = SearchState::new();
    for c in "WORLD".chars() {
        s.push(c);
    }
    assert!(s.matches("Hello world"));
    assert!(s.matches("hello WoRlD!"));
    assert!(!s.matches("Hello word"));
}

#[test]
fn matching_non_ascii_titles() {
    let mut s = SearchState::new();
    for c in "ÉTÉ".chars() {
        s.push(c);
    }
    assert!(s.matches("Un été chaud"));
    assert!(!s.matches("Un hiver"));
}

#[test]
fn contains_str_finds_runs() {
    assert!(contains_str("notepad", "pad"));
    assert!(contains_str("notepad", ""));
    assert!(contains_str("", ""));
    assert!(!contains_str("", "a"));
    assert!(!contains_str("pad", "notepad"));
    assert!(!contains_str("nopetad", "pad"));
}

#[test]
fn pop_undoes_push_on_values() {
    let mut s = SearchState::new();
    s.push('q');
    s.push('z');
    s.pop();
    assert_eq!(s.query, "q");
}

#[test]
fn search_bar_text() {
    let mut s = SearchState::new();
    assert_eq!(s.bar_text(), "Type to search windows...");
    s.push('n');
    s.push('o');
    assert_eq!(s.bar_text(), "Search: no");
}

#[test]
fn longer_needle_occurs_less() {
    assert!(contains_str("notepad++", "note"));
    assert!(contains_str("notepad++", "notepad"));
    assert!(!contains_str("notes", "notepad"));
    assert!(contains_str("notes", "note"));
}
