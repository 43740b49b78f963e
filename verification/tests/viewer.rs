use termlog::log_item::LogItem;
use termlog::log_list::{to_visual, Direction, JumpTarget, LogList, WrapPolicy};
use termlog::viewer::{rebuild, resolve_click, Viewer};

fn item(id: u128, raw: &str) -> LogItem {
    LogItem {
        id,
        time: String::new(),
        level: String::new(),
        origin: String::new(),
        tag: String::new(),
        content: raw.to_string(),
        raw_content: raw.to_string(),
        folded_count: 1,
    }
}

fn items(n: u128) -> Vec<LogItem> {
    (1..=n).map(|i| item(i, &format!("record {}", i))).collect()
}

fn ids(list: &[LogItem]) -> Vec<u128> {
    list.iter().map(|it| it.id).collect()
}

#[test]
fn visual_index_is_an_involution() {
    for n in 1..20usize {
        for i in 0..n {
            let v = to_visual(n, i);
            assert!(v < n);
            assert_eq!(v, n - 1 - i);
            assert_eq!(to_visual(n, v), i);
        }
    }
}

#[test]
fn new_list_has_no_selection() {
    let list = LogList::new(items(3));
    assert_eq!(list.selected(), None);
    assert_eq!(list.selected_id, None);
    assert_eq!(list.items.len(), 3);
}

#[test]
fn rows_count_from_the_newest_record() {
    let mut list = LogList::new(items(3));
    list.select_first();
    assert_eq!(list.selected_id, Some(3));
    assert_eq!(list.selected(), Some(0));
    list.select_last();
    assert_eq!(list.selected_id, Some(1));
    assert_eq!(list.selected(), Some(2));
}

#[test]
fn circular_selection_wraps_at_both_ends() {
    let mut list = LogList::new(items(3));
    list.select_next_circular();
    assert_eq!(list.selected(), Some(0));
    list.select_next_circular();
    list.select_next_circular();
    assert_eq!(list.selected(), Some(2));
    list.select_next_circular();
    assert_eq!(list.selected(), Some(0));
    list.select_previous_circular();
    assert_eq!(list.selected(), Some(2));
    let mut fresh = LogList::new(items(3));
    fresh.select_previous_circular();
    assert_eq!(fresh.selected(), Some(2));
}

#[test]
fn clamped_selection_stays_at_the_ends() {
    let mut list = LogList::new(items(3));
    list.select_previous();
    assert_eq!(list.selected(), Some(0));
    list.select_previous();
    assert_eq!(list.selected(), Some(0));
    list.select_next();
    list.select_next();
    assert_eq!(list.selected(), Some(2));
    list.select_next();
    assert_eq!(list.selected(), Some(2));
    let mut fresh = LogList::new(items(3));
    fresh.select_next();
    assert_eq!(fresh.selected(), Some(0));
}

#[test]
fn moving_in_an_empty_list_selects_nothing() {
    let mut list = LogList::new(Vec::new());
    list.select_next_circular();
    list.select_previous_circular();
    list.select_next();
    list.select_previous();
    list.select_first();
    list.select_last();
    list.move_selection(Direction::Next, WrapPolicy::Circular);
    list.jump(JumpTarget::Last);
    assert_eq!(list.selected(), None);
    assert_eq!(list.selected_id, None);
}

#[test]
fn selection_by_a_missing_id_counts_as_none() {
    let mut list = LogList::new(items(3));
    list.selected_id = Some(99);
    assert_eq!(list.selected(), None);
    list.select_next();
    assert_eq!(list.selected(), Some(0));
}

#[test]
fn select_row_rejects_rows_beyond_the_list() {
    let mut list = LogList::new(items(3));
    assert!(list.select_row(1));
    assert_eq!(list.selected_id, Some(2));
    assert!(!list.select_row(3));
    assert_eq!(list.selected_id, Some(2));
}

#[test]
fn rebuild_without_filter_shows_everything() {
    let store = items(4);
    assert_eq!(ids(&rebuild(&store, "")), vec![1, 2, 3, 4]);
}

#[test]
fn rebuild_filters_by_raw_content_case_aside() {
    let mut store = vec![item(1, "Network DOWN"), item(2, "disk ok"), item(3, "network up")];
    store[1].content = "network".to_string(); // derived fields play no part
    assert_eq!(ids(&rebuild(&store, "NETWORK")), vec![1, 3]);
    assert_eq!(ids(&rebuild(&store, "work d")), vec![1]);
    assert!(rebuild(&store, "absent").is_empty());
}

#[test]
fn contains_matches_case_aside() {
    let it = item(1, "Straße ÄB");
    assert!(it.contains("straße"));
    assert!(it.contains("äb"));
    assert!(it.contains(""));
    assert!(!it.contains("xyz"));
}

#[test]
fn new_viewer_follows_the_newest_record() {
    let v = Viewer::new();
    assert!(v.autoscroll);
    assert_eq!(v.scroll_offset, 0);
    assert!(v.raw_logs.is_empty());
    assert_eq!(v.displaying_logs.selected(), None);
}

#[test]
fn append_on_an_empty_store_never_fails() {
    let mut v = Viewer::new();
    v.append(Vec::new());
    assert_eq!(v.displaying_logs.selected(), None);
    assert_eq!(v.scroll_offset, 0);
    v.reconcile_after_append(Some(7), 0);
    assert_eq!(v.displaying_logs.selected_id, None);
}

#[test]
fn append_with_autoscroll_selects_the_newest_when_nothing_was_selected() {
    let mut v = Viewer::new();
    v.append(items(3));
    assert_eq!(v.displaying_logs.selected_id, Some(3));
    assert_eq!(v.displaying_logs.selected(), Some(0));
    assert_eq!(v.scroll_offset, 0);
    assert!(v.autoscroll);
}

#[test]
fn append_keeps_the_selected_record_selected() {
    let mut v = Viewer::new();
    v.append(items(3));
    v.displaying_logs.select_row(1);
    assert_eq!(v.displaying_logs.selected_id, Some(2));
    v.append(vec![item(4, "four"), item(5, "five")]);
    assert_eq!(v.displaying_logs.selected_id, Some(2));
    // its row moved with the records that came
    assert_eq!(v.displaying_logs.selected(), Some(3));
    assert_eq!(ids(&v.raw_logs), vec![1, 2, 3, 4, 5]);
}

#[test]
fn append_without_autoscroll_moves_the_view_with_the_records() {
    let mut v = Viewer::new();
    v.append(items(10));
    v.handle_log_item_scrolling(true, false, 20);
    assert!(!v.autoscroll);
    v.handle_logs_view_scrolling(true);
    v.handle_logs_view_scrolling(true);
    assert_eq!(v.scroll_offset, 2);
    v.append(vec![item(11, "a"), item(12, "b"), item(13, "c")]);
    assert_eq!(v.scroll_offset, 5);
    assert!(!v.autoscroll);
    assert_eq!(v.displaying_logs.selected_id, Some(9));
}

#[test]
fn append_with_autoscroll_leaves_the_view_and_sets_the_flag_anew() {
    let mut v = Viewer::new();
    v.append(items(10));
    assert!(v.autoscroll);
    assert_eq!(v.displaying_logs.selected_id, Some(10));
    v.handle_logs_view_scrolling(true);
    assert_eq!(v.scroll_offset, 1);
    // the selected record stays selected; it is no longer the newest
    v.append(vec![item(11, "a")]);
    assert_eq!(v.displaying_logs.selected_id, Some(10));
    assert_eq!(v.displaying_logs.selected(), Some(1));
    assert_eq!(v.scroll_offset, 1);
    assert!(!v.autoscroll);
    // nothing arrived: the newest record is still selected
    let mut w = Viewer::new();
    w.append(items(3));
    w.append(Vec::new());
    assert!(w.autoscroll);
}

#[test]
fn lost_selection_is_cleared_without_autoscroll() {
    let mut v = Viewer::new();
    v.append(vec![item(1, "alpha"), item(2, "beta"), item(3, "gamma"), item(4, "alpha two")]);
    v.handle_logs_view_scrolling(true);
    v.displaying_logs.select_row(2); // beta
    v.update_autoscroll_state();
    assert!(!v.autoscroll);
    assert_eq!(v.displaying_logs.selected_id, Some(2));
    v.filter_input = "alpha".to_string();
    v.apply_filter();
    assert_eq!(ids(&v.displaying_logs.items), vec![1, 4]);
    assert_eq!(v.displaying_logs.selected_id, None);
    assert_eq!(v.displaying_logs.selected(), None);
    assert_eq!(v.scroll_offset, 1);
    assert!(!v.autoscroll);
}

#[test]
fn lost_selection_moves_to_the_newest_with_autoscroll() {
    let mut v = Viewer::new();
    v.append(vec![item(1, "alpha"), item(2, "beta"), item(3, "gamma"), item(4, "alpha two")]);
    v.displaying_logs.select_row(1); // gamma
    assert!(v.autoscroll);
    v.filter_input = "alpha".to_string();
    v.apply_filter();
    assert_eq!(v.displaying_logs.selected_id, Some(4));
    assert_eq!(v.displaying_logs.selected(), Some(0));
    assert!(v.autoscroll);
}

#[test]
fn filter_keeps_a_selected_record_that_passes() {
    let mut v = Viewer::new();
    v.append(vec![item(1, "alpha"), item(2, "beta"), item(3, "gamma"), item(4, "alpha two")]);
    v.displaying_logs.select_row(3); // alpha, the oldest
    v.filter_input = "ALPHA".to_string();
    v.apply_filter();
    assert_eq!(v.displaying_logs.selected_id, Some(1));
    assert_eq!(v.displaying_logs.selected(), Some(1));
    assert!(!v.autoscroll);
    v.exit_filter_mode();
    assert_eq!(v.filter_input, "");
    assert_eq!(v.displaying_logs.items.len(), 4);
    assert_eq!(v.displaying_logs.selected_id, Some(1));
    assert_eq!(v.displaying_logs.selected(), Some(3));
    assert!(!v.autoscroll);
}

#[test]
fn leaving_the_filter_sets_autoscroll_from_the_selection() {
    let mut v = Viewer::new();
    v.append(vec![item(1, "alpha"), item(2, "beta")]);
    v.displaying_logs.select_row(1);
    v.update_autoscroll_state();
    assert!(!v.autoscroll);
    v.displaying_logs.select_row(0);
    v.filter_input = "beta".to_string();
    v.exit_filter_mode();
    assert_eq!(v.displaying_logs.selected_id, Some(2));
    assert!(v.autoscroll);
}

#[test]
fn autoscroll_follows_the_selection() {
    let mut v = Viewer::new();
    v.update_autoscroll_state();
    assert!(!v.autoscroll); // nothing selected
    v.append(items(3));
    v.displaying_logs.select_row(0);
    v.update_autoscroll_state();
    assert!(v.autoscroll);
    v.displaying_logs.select_row(2);
    v.update_autoscroll_state();
    assert!(!v.autoscroll);
    v.displaying_logs.selected_id = Some(99);
    v.update_autoscroll_state();
    assert!(!v.autoscroll);
}

#[test]
fn filter_that_shows_nothing_clears_everything() {
    let mut v = Viewer::new();
    v.append(items(5));
    v.filter_input = "no such text".to_string();
    v.apply_filter();
    assert!(v.displaying_logs.items.is_empty());
    assert_eq!(v.displaying_logs.selected_id, None);
    assert_eq!(v.scroll_offset, 0);
    assert_eq!(v.scrollbar_summary(), (1, 0));
    assert_eq!(v.raw_logs.len(), 5);
}

#[test]
fn clear_empties_store_and_display() {
    let mut v = Viewer::new();
    v.append(items(5));
    v.filter_input = "record".to_string();
    v.clear();
    assert!(v.raw_logs.is_empty());
    assert!(v.displaying_logs.items.is_empty());
    assert_eq!(v.displaying_logs.selected_id, None);
    assert_eq!(v.filter_input, "");
    assert_eq!(v.scroll_offset, 0);
    assert!(v.autoscroll); // as it was
    let mut w = Viewer::new();
    w.append(items(5));
    w.handle_log_item_scrolling(true, false, 5);
    assert!(!w.autoscroll);
    w.clear();
    assert!(!w.autoscroll);
}

#[test]
fn selection_is_scrolled_into_view_with_padding() {
    let mut v = Viewer::new();
    v.append(items(20));
    // viewport of 5 rows shows rows 0..=4; the padded window is rows 1..=3
    v.displaying_logs.select_row(3);
    v.ensure_selection_visible(5);
    assert_eq!(v.scroll_offset, 0);
    v.displaying_logs.select_row(4);
    v.ensure_selection_visible(5);
    assert_eq!(v.scroll_offset, 1);
    v.displaying_logs.select_row(10);
    v.ensure_selection_visible(5);
    assert_eq!(v.scroll_offset, 7);
    v.displaying_logs.select_row(7);
    v.ensure_selection_visible(5);
    assert_eq!(v.scroll_offset, 6);
    v.displaying_logs.select_row(0);
    v.ensure_selection_visible(5);
    assert_eq!(v.scroll_offset, 0);
}

#[test]
fn scrolling_the_selection_into_view_leaves_autoscroll() {
    let mut v = Viewer::new();
    v.append(items(20));
    v.displaying_logs.select_row(1);
    v.update_autoscroll_state();
    assert!(!v.autoscroll);
    v.scroll_offset = 3;
    v.ensure_selection_visible(5);
    assert_eq!(v.scroll_offset, 0);
    assert!(!v.autoscroll);
    v.autoscroll = true;
    v.displaying_logs.select_row(10);
    v.ensure_selection_visible(5);
    assert_eq!(v.scroll_offset, 7);
    assert!(v.autoscroll);
}

#[test]
fn scroll_offset_stays_inside_the_list_for_every_height() {
    for len in 0..6u128 {
        for height in 0..8usize {
            for row in 0..(len as usize + 1) {
                for start in 0..8usize {
                    let mut v = Viewer::new();
                    v.append(items(len));
                    v.scroll_offset = start;
                    v.displaying_logs.select_row(row);
                    v.ensure_selection_visible(height);
                    let last = if len > 0 { len as usize - 1 } else { 0 };
                    assert!(v.scroll_offset <= last);
                    if let Some(sel) = v.displaying_logs.selected() {
                        assert!(v.scroll_offset <= sel);
                        if height >= 1 {
                            assert!(sel < v.scroll_offset + height);
                        }
                    }
                }
            }
        }
    }
}

#[test]
fn degenerate_viewports_do_not_fail() {
    let mut v = Viewer::new();
    v.append(items(4));
    v.displaying_logs.select_row(2);
    v.ensure_selection_visible(0);
    assert_eq!(v.scroll_offset, 2);
    v.displaying_logs.select_row(3);
    v.ensure_selection_visible(1);
    assert_eq!(v.scroll_offset, 3);
    let mut empty = Viewer::new();
    empty.scroll_offset = 9;
    empty.ensure_selection_visible(0);
    assert_eq!(empty.scroll_offset, 0);
}

#[test]
fn click_maps_screen_rows_to_list_rows() {
    assert_eq!(resolve_click(7, 3, 5, 10), Some(5));
    assert_eq!(resolve_click(5, 0, 5, 1), Some(0));
    assert_eq!(resolve_click(4, 0, 5, 10), None); // above the viewport
    assert_eq!(resolve_click(12, 3, 5, 10), None); // beyond the last record
    assert_eq!(resolve_click(5, 0, 5, 0), None);
    assert_eq!(resolve_click(usize::MAX, usize::MAX, 0, 10), None);
}

#[test]
fn click_beyond_the_content_leaves_the_selection() {
    let mut v = Viewer::new();
    v.append(items(3));
    v.displaying_logs.select_row(1);
    assert!(v.autoscroll);
    assert!(!v.click(9, 2));
    assert_eq!(v.displaying_logs.selected_id, Some(2));
    assert!(!v.click(1, 2));
    assert_eq!(v.displaying_logs.selected_id, Some(2));
    assert!(v.autoscroll); // a click that lies on no record changes nothing
    assert!(v.click(4, 2));
    assert_eq!(v.displaying_logs.selected_id, Some(1));
    assert_eq!(v.displaying_logs.selected(), Some(2));
    assert_eq!(v.scroll_offset, 0);
    assert!(!v.autoscroll);
    assert!(v.click(2, 2));
    assert_eq!(v.displaying_logs.selected(), Some(0));
    assert!(v.autoscroll);
}

#[test]
fn wheel_scrolls_between_first_and_last_row() {
    let mut v = Viewer::new();
    v.append(items(3));
    v.handle_logs_view_scrolling(false);
    assert_eq!(v.scroll_offset, 0);
    assert!(v.autoscroll);
    v.handle_logs_view_scrolling(true);
    v.handle_logs_view_scrolling(true);
    v.handle_logs_view_scrolling(true);
    assert_eq!(v.scroll_offset, 2);
    assert!(v.autoscroll); // the wheel does not touch it
    v.handle_logs_view_scrolling(false);
    assert_eq!(v.scroll_offset, 1);
    assert_eq!(v.scrollbar_summary(), (3, 1));
}

#[test]
fn moving_the_selection_scrolls_it_into_view() {
    let mut v = Viewer::new();
    v.append(items(10));
    for _ in 0..6 {
        v.handle_log_item_scrolling(true, true, 4);
    }
    assert_eq!(v.displaying_logs.selected(), Some(6));
    assert_eq!(v.scroll_offset, 4);
    assert!(!v.autoscroll);
    v.jump(JumpTarget::First, 4);
    assert_eq!(v.displaying_logs.selected(), Some(0));
    assert_eq!(v.scroll_offset, 0);
    assert!(v.autoscroll);
    v.jump(JumpTarget::Last, 4);
    assert_eq!(v.displaying_logs.selected(), Some(9));
    assert_eq!(v.scroll_offset, 7);
    v.handle_log_item_scrolling(true, true, 4);
    assert_eq!(v.displaying_logs.selected(), Some(0));
    v.handle_log_item_scrolling(false, false, 4);
    assert_eq!(v.displaying_logs.selected(), Some(0));
}

#[test]
fn selected_item_is_the_record_at_the_selected_row() {
    let mut v = Viewer::new();
    assert!(v.selected_item().is_none());
    v.append(items(3));
    v.displaying_logs.select_row(2);
    assert_eq!(v.selected_item().unwrap().id, 1);
}

#[test]
fn a_wider_filter_moves_the_view_with_the_rows_it_lets_in() {
    let mut v = Viewer::new();
    v.append(vec![
        item(1, "ax"),
        item(2, "b"),
        item(3, "cx"),
        item(4, "d"),
        item(5, "e"),
        item(6, "fx"),
    ]);
    v.displaying_logs.select_row(5);
    v.update_autoscroll_state();
    assert!(!v.autoscroll);
    v.filter_input = "x".to_string();
    v.apply_filter();
    assert_eq!(v.displaying_logs.items.len(), 3);
    assert_eq!(v.scroll_offset, 0);
    v.scroll_offset = 1;
    v.filter_input = String::new();
    v.apply_filter();
    assert_eq!(v.displaying_logs.items.len(), 6);
    assert_eq!(v.scroll_offset, 4);
    // a narrower filter only brings the offset back inside the list
    v.filter_input = "x".to_string();
    v.apply_filter();
    assert_eq!(v.scroll_offset, 2);
    // leaving the filter leaves the offset
    v.scroll_offset = 1;
    v.exit_filter_mode();
    assert_eq!(v.displaying_logs.items.len(), 6);
    assert_eq!(v.scroll_offset, 1);
}
