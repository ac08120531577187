use journal::entry_list::{Entry, EntryList, Key, Reaction};
use std::path::PathBuf;

fn entries(names: &[&str]) -> Vec<Entry> {
    names
        .iter()
        .map(|name| Entry { path: PathBuf::from("/notes").join(name), name: name.to_string() })
        .collect()
}

#[test]
fn a_new_list_selects_the_first_entry() {
    let list = EntryList::new(entries(&["a", "b", "c"]));
    assert_eq!(list.len(), 3);
    assert_eq!(list.state(), Some(0));
    assert_eq!(list.selected_entry().name, "a");
    assert_eq!(list.selected_entry().path, PathBuf::from("/notes/a"));
    assert_eq!(list.list(), vec!["a".to_string(), "b".to_string(), "c".to_string()]);
}

#[test]
fn an_empty_list_selects_index_zero() {
    let list = EntryList::new(Vec::new());
    assert_eq!(list.len(), 0);
    assert_eq!(list.state(), Some(0));
    assert_eq!(list.list(), Vec::<String>::new());
}

#[test]
fn select_next_goes_round() {
    let mut list = EntryList::new(entries(&["a", "b", "c"]));
    list.select_next();
    assert_eq!(list.state(), Some(1));
    list.select_next();
    assert_eq!(list.state(), Some(2));
    assert_eq!(list.selected_entry().name, "c");
    list.select_next();
    assert_eq!(list.state(), Some(0));
}

#[test]
fn select_prev_goes_round() {
    let mut list = EntryList::new(entries(&["a", "b", "c"]));
    list.select_prev();
    assert_eq!(list.state(), Some(2));
    assert_eq!(list.selected_entry().name, "c");
    list.select_prev();
    assert_eq!(list.state(), Some(1));
    list.select_prev();
    assert_eq!(list.state(), Some(0));
}

#[test]
fn a_single_entry_stays_selected() {
    let mut list = EntryList::new(entries(&["only"]));
    list.select_next();
    assert_eq!(list.state(), Some(0));
    list.select_prev();
    assert_eq!(list.state(), Some(0));
}

#[test]
fn next_and_prev_undo_each_other() {
    let mut list = EntryList::new(entries(&["a", "b", "c", "d"]));
    for _ in 0..4 {
        let before = list.state();
        list.select_next();
        list.select_prev();
        assert_eq!(list.state(), before);
        list.select_prev();
        list.select_next();
        assert_eq!(list.state(), before);
        list.select_next();
    }
}

#[test]
fn the_arrows_move_the_selection() {
    let mut list = EntryList::new(entries(&["a", "b"]));
    assert_eq!(list.handle_key(Key::Down, true), Reaction::Stay);
    assert_eq!(list.state(), Some(1));
    assert_eq!(list.handle_key(Key::Up, true), Reaction::Stay);
    assert_eq!(list.state(), Some(0));
    assert_eq!(list.handle_key(Key::Up, true), Reaction::Stay);
    assert_eq!(list.state(), Some(1));
}

#[test]
fn q_quits_and_enter_edits() {
    let mut list = EntryList::new(entries(&["a", "b"]));
    assert_eq!(list.handle_key(Key::Char('q'), true), Reaction::Quit);
    assert_eq!(list.handle_key(Key::Enter, true), Reaction::Edit);
    assert_eq!(list.handle_key(Key::Char('x'), true), Reaction::Stay);
    assert_eq!(list.handle_key(Key::Char('Q'), true), Reaction::Stay);
    assert_eq!(list.handle_key(Key::Other, true), Reaction::Stay);
    assert_eq!(list.state(), Some(0));
}

#[test]
fn only_a_key_press_counts() {
    let mut list = EntryList::new(entries(&["a", "b"]));
    assert_eq!(list.handle_key(Key::Char('q'), false), Reaction::Stay);
    assert_eq!(list.handle_key(Key::Enter, false), Reaction::Stay);
    assert_eq!(list.handle_key(Key::Down, false), Reaction::Stay);
    assert_eq!(list.handle_key(Key::Up, false), Reaction::Stay);
    assert_eq!(list.state(), Some(0));
}

#[test]
fn q_quits_an_empty_list() {
    let mut list = EntryList::new(Vec::new());
    assert_eq!(list.handle_key(Key::Char('q'), true), Reaction::Quit);
    assert_eq!(list.handle_key(Key::Other, true), Reaction::Stay);
}

#[test]
fn an_empty_list_cannot_handle_keys_that_need_an_entry() {
    let empty = EntryList::new(Vec::new());
    assert!(!empty.can_handle(Key::Up, true));
    assert!(!empty.can_handle(Key::Down, true));
    assert!(!empty.can_handle(Key::Enter, true));
    assert!(empty.can_handle(Key::Enter, false));
    assert!(empty.can_handle(Key::Char('q'), true));
    assert!(empty.can_handle(Key::Other, true));
    let list = EntryList::new(entries(&["a"]));
    assert!(list.can_handle(Key::Up, true));
    assert!(list.can_handle(Key::Down, true));
    assert!(list.can_handle(Key::Enter, true));
}
