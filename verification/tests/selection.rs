use riiman::thumb_grid::{
    find_position, shows_checkbox, wrap_index, GridSelection, ScrollTracker, SelectMode,
    SCROLL_COOLDOWN_MS,
};

fn sorted(mut v: Vec<u64>) -> Vec<u64> {
    v.sort();
    v
}

#[test]
fn new_selection_is_empty() {
    let s = GridSelection::new();
    assert!(s.get_selected_ids().is_empty());
    assert_eq!(None, s.get_first_selected_id());
    assert_eq!(SelectMode::Single, s.select_mode);
    assert_eq!("Single", SelectMode::Single.label());
    assert_eq!("Multiple", SelectMode::Multiple.label());
}

#[test]
fn exclusive_selection_keeps_one_item() {
    let mut s = GridSelection::new();
    s.toggle(1);
    s.toggle(2);
    assert_eq!(vec![1, 2], sorted(s.get_selected_ids()));
    s.select_exclusive(9);
    assert_eq!(vec![9], s.get_selected_ids());
    assert_eq!(Some(9), s.get_first_selected_id());
}

#[test]
fn toggling_twice_restores_the_selection() {
    let mut s = GridSelection::new();
    s.toggle(4);
    let before = sorted(s.get_selected_ids());
    s.toggle(7);
    s.toggle(7);
    assert_eq!(before, sorted(s.get_selected_ids()));
    assert!(!s.is_checked(7));
    assert!(s.is_checked(4));
    assert!(!s.is_checked(100));
}

#[test]
fn clicks_depend_on_the_mode() {
    let mut s = GridSelection::new();
    s.toggle(1);
    assert!(s.click(2, false));
    assert_eq!(vec![2], s.get_selected_ids());
    assert!(!s.click(3, true));
    assert_eq!(vec![2, 3], sorted(s.get_selected_ids()));
    s.select_mode = SelectMode::Multiple;
    assert!(!s.click(2, false));
    assert_eq!(vec![3], s.get_selected_ids());
}

#[test]
fn pruning_forgets_unlisted_items() {
    let mut s = GridSelection::new();
    s.toggle(1);
    s.toggle(2);
    s.toggle(3);
    s.prune(&[2, 3, 4], false);
    assert_eq!(vec![1, 2, 3], sorted(s.get_selected_ids()));
    s.prune(&[], true);
    assert_eq!(vec![1, 2, 3], sorted(s.get_selected_ids()));
    s.prune(&[2, 3, 4], true);
    assert_eq!(vec![2, 3], sorted(s.get_selected_ids()));
}

#[test]
fn wrapping_steps() {
    assert_eq!(1, wrap_index(0, 5, 1));
    assert_eq!(0, wrap_index(4, 5, 1));
    assert_eq!(4, wrap_index(0, 5, -1));
    assert_eq!(2, wrap_index(3, 5, -1));
    assert_eq!(0, wrap_index(0, 1, 1));
}

#[test]
fn positions() {
    assert_eq!(Some(1), find_position(&[5, 6, 6], 6));
    assert_eq!(None, find_position(&[5, 6], 7));
}

#[test]
fn tab_moves_to_the_next_thumbnail() {
    let mut s = GridSelection::new();
    s.select_exclusive(20);
    assert_eq!(Some(20), s.tab_candidate(Some(20)));
    assert_eq!(None, s.tab_candidate(Some(10)));
    let thumbs = [10, 20, 30];
    assert_eq!(Some(30), s.apply_tab(&thumbs, 20, false));
    assert_eq!(vec![30], s.get_selected_ids());
    assert_eq!(Some(30), s.middle_item);
    assert_eq!(Some(10), s.apply_tab(&thumbs, 30, false));
    assert_eq!(Some(30), s.apply_tab(&thumbs, 10, true));
    assert_eq!(None, s.apply_tab(&thumbs, 99, false));
    assert_eq!(vec![30], s.get_selected_ids());
}

#[test]
fn frame_end_follows_the_selection() {
    let mut s = GridSelection::new();
    s.finish_frame(Some(5), Some(6), None);
    assert_eq!(Some(5), s.middle_item);
    assert_eq!(Some(6), s.hovering_item);
    s.finish_frame(None, None, Some(2));
    assert_eq!(Some(5), s.middle_item);
    assert_eq!(Some(2), s.pressing_item);
    s.select_exclusive(8);
    s.finish_frame(Some(1), None, None);
    assert_eq!(Some(8), s.middle_item);
}

#[test]
fn scroll_goes_to_the_middle_item_then_cools_down() {
    let mut t = ScrollTracker::new();
    t.set_scroll = true;
    // another item: no scroll, and within no cooldown the view records it
    assert!(!t.visit_item_at(4, Some(7), false, true, true, 0, 10, 10));
    assert_eq!(Some(4), t.next_middle);
    // the middle item: scroll and start the cooldown
    assert!(t.visit_item_at(7, Some(7), false, true, true, 0, 20, 20));
    assert!(!t.set_scroll);
    assert_eq!(Some(20 + SCROLL_COOLDOWN_MS), t.cooldown_until_ms);
    assert_eq!(1520, 20 + SCROLL_COOLDOWN_MS);
}

#[test]
fn no_middle_item_is_recorded_during_the_cooldown() {
    let mut t = ScrollTracker::new();
    t.cooldown_until_ms = Some(1000);
    assert!(!t.visit_item_at(3, None, false, true, true, 0, 999, 999));
    assert_eq!(None, t.next_middle);
    assert!(!t.visit_item_at(3, None, false, true, true, 0, 1000, 1000));
    assert_eq!(Some(3), t.next_middle);
    // the first one found stays
    assert!(!t.visit_item_at(5, None, false, true, true, 0, 1001, 1001));
    assert_eq!(Some(3), t.next_middle);
}

#[test]
fn a_resize_scrolls_back_to_the_middle_item() {
    let mut t = ScrollTracker::new();
    assert!(!t.visit_item_at(2, Some(9), true, false, false, 0, 0, 0));
    assert!(t.visit_item_at(9, Some(9), true, false, false, 0, 0, 0));
    // without a scroll of the view nothing is recorded
    let mut u = ScrollTracker::new();
    assert!(!u.visit_item_at(2, None, false, false, true, 0, 5, 5));
    assert_eq!(None, u.next_middle);
    assert!(u.visit_item(9, Some(9), true, false, false));
    assert!(u.cooldown_until_ms.is_some());
}

#[test]
fn checkbox_shows_while_hovered_pressed_or_checked() {
    assert!(!shows_checkbox(false, false, false, false));
    assert!(shows_checkbox(true, false, false, false));
    assert!(shows_checkbox(false, true, false, false));
    assert!(shows_checkbox(false, false, true, false));
    assert!(shows_checkbox(false, false, false, true));
}

#[test]
fn middle_item_is_handed_over_once() {
    let mut t = ScrollTracker::new();
    assert!(!t.visit_item_at(6, None, false, true, true, 0, 0, 0));
    assert_eq!(Some(6), t.take_next_middle());
    assert_eq!(None, t.take_next_middle());
    t.request_scroll();
    assert!(t.set_scroll);
    assert!(t.visit_item_at(6, Some(6), false, false, false, 0, 0, 0));
}
