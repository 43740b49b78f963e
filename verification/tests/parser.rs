use termlog::log_item::LogItem;
use termlog::log_parser::{
    begins_with_header, cut_spans, drop_through, item_with_id, junk, parse_structured,
    process_bytes, process_delta, process_delta_positioned, remove_inline_headers, restore_offset,
    split_captured, split_header, strip_leading_header, Positioned,
};
use termlog::sorting::sort_by_position;
use termlog::special_events::{
    marker_lines, synthetic_events, EventMatcher, MatchedEvent, PauseMatcher, ResumeMatcher,
};

fn event(start: usize, end: usize) -> MatchedEvent {
    MatchedEvent { span: start..end, item: LogItem::synthetic("x") }
}

#[test]
fn leading_header_is_removed() {
    let delta = "[2024-05-01 10:20:30.123] [INFO]\n## 2024-05-01 10:20:30 hello";
    assert_eq!(strip_leading_header(delta), "## 2024-05-01 10:20:30 hello");
}

#[test]
fn text_without_leading_header_is_unchanged() {
    assert_eq!(strip_leading_header("plain text"), "plain text");
    assert_eq!(strip_leading_header(""), "");
    // a header that is not at the beginning is not a leading header
    let later = "x [2024-05-01 10:20:30.123] [INFO] y";
    assert_eq!(strip_leading_header(later), later);
}

#[test]
fn stripping_twice_equals_stripping_once() {
    let delta = "[2024-05-01 10:20:30.123] [WARN]   \nbody [x]";
    let once = strip_leading_header(delta);
    assert_eq!(once, "body [x]");
    assert_eq!(strip_leading_header(once), once);
}

#[test]
fn two_leading_headers_need_two_passes() {
    let delta = "[2024-05-01 10:20:30.123] [INFO] [2024-05-01 10:20:30.456] [WARN] x";
    let once = strip_leading_header(delta);
    assert_eq!(once, "[2024-05-01 10:20:30.456] [WARN] x");
    assert_eq!(strip_leading_header(once), "x");
}

#[test]
fn inline_headers_are_removed_everywhere() {
    let text = "a [2024-05-01 10:20:30.123] [INFO] b\n[2024-05-01 10:20:31.000] [ERROR]\nc";
    assert_eq!(remove_inline_headers(text), "a b\nc");
    assert_eq!(remove_inline_headers("nothing here"), "nothing here");
}

#[test]
fn content_header_is_decomposed() {
    let (origin, level, tag, message) = split_header("[ORIGIN] ERROR ## [TAG] failed\nretry");
    assert_eq!(origin, "ORIGIN");
    assert_eq!(level, "ERROR");
    assert_eq!(tag, "TAG");
    assert_eq!(message, "failed\nretry");
}

#[test]
fn content_header_tolerates_leading_marks() {
    let (origin, level, tag, message) = split_header("\u{feff}\u{1} \t[app] INFO ## [net]  up ");
    assert_eq!(origin, "app");
    assert_eq!(level, "INFO");
    assert_eq!(tag, "net");
    assert_eq!(message, "up");
}

#[test]
fn body_of_another_shape_is_its_own_message() {
    let (origin, level, tag, message) = split_header("  just some text  ");
    assert_eq!(origin, "");
    assert_eq!(level, "");
    assert_eq!(tag, "");
    assert_eq!(message, "just some text");
}

#[test]
fn block_gives_time_and_trimmed_body() {
    let item = parse_structured("## 2024-05-01 10:20:30   [a] INFO ## [b] hi \n").unwrap();
    assert_eq!(item.time, "2024-05-01 10:20:30");
    assert_eq!(item.content, "[a] INFO ## [b] hi");
    assert_eq!(item.raw_content, "[a] INFO ## [b] hi");
    assert_eq!(item.level, "");
    assert_eq!(item.folded_count, 1);
}

#[test]
fn block_of_another_shape_gives_nothing() {
    assert!(parse_structured("2024-05-01 10:20:30 no marker").is_none());
    assert!(parse_structured(" ## 2024-05-01 10:20:30 marker not first").is_none());
    assert!(parse_structured("").is_none());
}

#[test]
fn adjacent_pause_lines_give_one_record() {
    let text = "first onPause here\nsecond ONPAUSE there\n";
    let events = PauseMatcher.capture(text);
    assert_eq!(events.len(), 1);
    assert_eq!(events[0].span, 0..text.len());
    assert_eq!(events[0].item.content, "DYEH PAUSE");
    assert_eq!(events[0].item.raw_content, "DYEH PAUSE");
    assert_eq!(events[0].item.time, "");
    let items = process_delta(text);
    assert_eq!(items.len(), 1);
    assert_eq!(items[0].content, "DYEH PAUSE");
}

#[test]
fn pause_lines_apart_give_two_records() {
    let text = "onpause\nsomething else\n\nonpause again";
    let events = PauseMatcher.capture(text);
    assert_eq!(events.len(), 2);
    assert_eq!(events[0].span, 0..8);
    assert_eq!(events[1].span, 24..text.len());
}

#[test]
fn pause_lines_one_byte_apart_are_joined() {
    // the first range ends behind its line break at 8; the second line is one byte long
    let text = "onpause\n\nonpause";
    let events = PauseMatcher.capture(text);
    assert_eq!(events.len(), 1);
    assert_eq!(events[0].span, 0..text.len());
}

#[test]
fn resume_marker_needs_the_call() {
    assert_eq!(ResumeMatcher.capture("onresume").len(), 0);
    let events = ResumeMatcher.capture("x\ncall bef_effect_onResume_imp  (1)\ny");
    assert_eq!(events.len(), 1);
    assert_eq!(events[0].span, 2..36);
    assert_eq!(events[0].item.content, "DYEH RESUME");
}

#[test]
fn event_ids_differ() {
    let events = PauseMatcher.capture("onpause\nx\n\nonpause");
    assert_eq!(events.len(), 2);
    assert_ne!(events[0].item.id, events[1].item.id);
}

#[test]
fn empty_delta_gives_no_records() {
    assert!(process_delta("").is_empty());
    assert!(process_delta("   \n\t ").is_empty());
    assert!(process_delta("[2024-05-01 10:20:30.123] [INFO]\n").is_empty());
}

#[test]
fn text_without_marker_gives_no_structured_record() {
    assert!(process_delta("some leftover text\nwithout any marker").is_empty());
}

#[test]
fn structured_records_come_in_text_order() {
    let delta = "[2024-05-01 10:20:30.123] [INFO]\n\
                 ## 2024-05-01 10:20:30 [core] INFO ## [boot] started\n\
                 [2024-05-01 10:20:31.000] [ERROR]\n\
                 ## 2024-05-01 10:20:31 [net] ERROR ## [sock] failed\nretry\n\
                 ## 2024-05-01 10:20:32 free text";
    let items = process_delta(delta);
    assert_eq!(items.len(), 3);
    assert_eq!(items[0].time, "2024-05-01 10:20:30");
    assert_eq!(items[0].origin, "core");
    assert_eq!(items[0].level, "INFO");
    assert_eq!(items[0].tag, "boot");
    assert_eq!(items[0].content, "started");
    assert_eq!(items[0].raw_content, "[core] INFO ## [boot] started");
    assert_eq!(items[1].origin, "net");
    assert_eq!(items[1].level, "ERROR");
    assert_eq!(items[1].tag, "sock");
    assert_eq!(items[1].content, "failed\nretry");
    assert_eq!(items[2].time, "2024-05-01 10:20:32");
    assert_eq!(items[2].origin, "");
    assert_eq!(items[2].content, "free text");
    assert!(items.iter().all(|it| it.folded_count == 1));
    assert_ne!(items[0].id, items[1].id);
    assert_ne!(items[1].id, items[2].id);
}

#[test]
fn events_are_carved_out_and_merged_in_order() {
    let delta = "## 2024-05-01 10:20:30 [a] INFO ## [t] one\n\
                 host says onPause now\n\
                 ## 2024-05-01 10:20:31 [a] INFO ## [t] two\n\
                 bef_effect_onResume_imp(ctx)\n\
                 ## 2024-05-01 10:20:32 [a] INFO ## [t] three";
    let items = process_delta_positioned(delta);
    let contents: Vec<&str> = items.iter().map(|p| p.item.content.as_str()).collect();
    assert_eq!(contents, vec!["one", "DYEH PAUSE", "two", "DYEH RESUME", "three"]);
    // the lines of the events are not part of the records around them
    assert_eq!(items[0].item.raw_content, "[a] INFO ## [t] one");
    assert_eq!(items[2].item.raw_content, "[a] INFO ## [t] two");
    // offsets are those of the cleaned delta and never decrease
    let offsets: Vec<usize> = items.iter().map(|p| p.pos).collect();
    assert_eq!(offsets[0], 0);
    assert_eq!(offsets[1], delta.find("host").unwrap());
    assert_eq!(offsets[2], delta.find("## 2024-05-01 10:20:31").unwrap());
    assert_eq!(offsets[3], delta.find("bef_").unwrap());
    assert_eq!(offsets[4], delta.find("## 2024-05-01 10:20:32").unwrap());
    assert!(offsets.windows(2).all(|w| w[0] <= w[1]));
}

#[test]
fn pause_and_resume_on_one_line_give_both_records() {
    let items = process_delta("onpause then bef_effect_onresume_imp(");
    let contents: Vec<&str> = items.iter().map(|it| it.content.as_str()).collect();
    assert_eq!(contents, vec!["DYEH PAUSE", "DYEH RESUME"]);
}

#[test]
fn text_beyond_ascii_is_sliced_between_characters() {
    let delta = "## 2024-05-01 10:20:30 [örigin] WARN ## [täg] größer \u{fffd} ok\nonpause ü\n## 2024-05-01 10:20:31 z";
    let items = process_delta(delta);
    assert_eq!(items.len(), 3);
    assert_eq!(items[0].origin, "örigin");
    assert_eq!(items[0].tag, "täg");
    assert_eq!(items[0].content, "größer \u{fffd} ok");
    assert_eq!(items[1].content, "DYEH PAUSE");
    assert_eq!(items[2].content, "z");
}

#[test]
fn junk_is_whitespace_marks_and_control_codes() {
    assert!(junk(' '));
    assert!(junk('\n'));
    assert!(junk('\u{3000}'));
    assert!(junk('\u{feff}'));
    assert!(junk('\u{1}'));
    assert!(junk('\u{9f}'));
    assert!(!junk('['));
    assert!(!junk('a'));
}

#[test]
fn text_behind_a_match_is_kept() {
    assert_eq!(drop_through("header body", Some((0, 7))), "body");
    assert_eq!(drop_through("header body", Some((0, 11))), "");
    assert_eq!(drop_through("header body", None), "header body");
}

#[test]
fn groups_that_took_no_part_are_empty() {
    let caps = Some(vec![Some((0, 9)), Some((1, 2)), None, Some((7, 9))]);
    let (origin, level, tag, message) = split_captured("[a] X [b ]", &caps);
    assert_eq!(origin, "a");
    assert_eq!(level, "");
    assert_eq!(tag, "b");
    assert_eq!(message, "");
    let (origin, _, _, message) = split_captured("  plain  ", &None);
    assert_eq!(origin, "");
    assert_eq!(message, "plain");
}

#[test]
fn matches_are_widened_to_lines_and_joined() {
    //          0123 4567 89
    let text = "ab\ncd\nef\n\ngh";
    // matches in lines 1 and 2 touch; the match in the last line stands apart
    let spans = marker_lines(text, &vec![(0, 1), (4, 5), (11, 12)]);
    assert_eq!(spans, vec![0..6, 10..12]);
    // a range that begins one byte behind the last one is joined to it
    let spans = marker_lines(text, &vec![(0, 1), (7, 8)]);
    assert_eq!(spans, vec![0..3, 6..9]);
    let spans = marker_lines("a\n\nb", &vec![(0, 1), (3, 4)]);
    assert_eq!(spans, vec![0..4]);
    assert!(marker_lines(text, &Vec::new()).is_empty());
}

#[test]
fn every_range_gives_one_record() {
    let events = synthetic_events(vec![0..3, 5..9], "LABEL");
    assert_eq!(events.len(), 2);
    assert_eq!(events[1].span, 5..9);
    assert_eq!(events[1].item.content, "LABEL");
    assert_eq!(events[1].item.raw_content, "LABEL");
    assert_eq!(events[1].item.folded_count, 1);
}

#[test]
fn ranges_are_taken_out_from_left_to_right() {
    //          0123 4567 89ab
    let text = "abc\ndef\nghi\n";
    assert_eq!(cut_spans(text, &vec![event(4, 8)]), "abc\nghi\n");
    assert_eq!(cut_spans(text, &vec![event(0, 4), event(8, 12)]), "def\n");
    // ranges that overlap are taken out once
    assert_eq!(cut_spans(text, &vec![event(0, 8), event(4, 8), event(4, 12)]), "");
    assert_eq!(cut_spans(text, &Vec::new()), text);
    assert_eq!(cut_spans("", &Vec::new()), "");
}

#[test]
fn offsets_are_restored_behind_what_was_taken_out() {
    let text = "abc\ndef\nghi\n";
    let events = vec![event(4, 8)];
    assert_eq!(restore_offset(text, &events, 0), 0);
    assert_eq!(restore_offset(text, &events, 3), 3);
    assert_eq!(restore_offset(text, &events, 4), 8);
    assert_eq!(restore_offset(text, &events, 7), 11);
    // offsets behind the end give the end
    assert_eq!(restore_offset(text, &events, 8), 12);
    assert_eq!(restore_offset(text, &events, 99), 12);
    let two = vec![event(0, 4), event(2, 8)];
    assert_eq!(restore_offset(text, &two, 0), 8);
    assert_eq!(restore_offset(text, &Vec::new(), 5), 5);
}

#[test]
fn sorting_by_offset_is_stable() {
    let at = |pos: usize, name: &str| Positioned { pos, item: LogItem::synthetic(name) };
    let sorted = sort_by_position(vec![at(5, "a"), at(1, "b"), at(5, "c"), at(0, "d"), at(1, "e")]);
    let names: Vec<&str> = sorted.iter().map(|p| p.item.content.as_str()).collect();
    assert_eq!(names, vec!["d", "b", "e", "a", "c"]);
    let offsets: Vec<usize> = sorted.iter().map(|p| p.pos).collect();
    assert_eq!(offsets, vec![0, 1, 1, 5, 5]);
    assert!(sort_by_position(Vec::<Positioned>::new()).is_empty());
}

#[test]
fn leading_header_is_recognised() {
    assert!(begins_with_header("[2024-05-01 10:20:30.123] [INFO]\nbody"));
    assert!(!begins_with_header("body [2024-05-01 10:20:30.123] [INFO]"));
    assert!(!begins_with_header("[2024-05-01 10:20:30] [INFO]")); // no milliseconds
    assert!(!begins_with_header(""));
}

#[test]
fn removing_headers_only_takes_text_away() {
    let text = "a [2024-05-01 10:20:30.123] [INFO] b [2024-05-01 10:20:31.000] [WARN]\n\nc";
    let cleaned = remove_inline_headers(text);
    assert_eq!(cleaned, "a b c");
    assert!(cleaned.len() <= text.len());
    assert_eq!(remove_inline_headers("a $1 [x] b"), "a $1 [x] b");
    assert_eq!(remove_inline_headers(""), "");
}

#[test]
fn block_record_takes_the_identity_it_is_given() {
    let caps = Some(vec![Some((0, 26)), Some((3, 22)), Some((23, 26))]);
    let item = item_with_id("## 2024-05-01 10:20:30 abc", &caps, 17).unwrap();
    assert_eq!(item.id, 17);
    assert_eq!(item.time, "2024-05-01 10:20:30");
    assert_eq!(item.content, "abc");
    assert!(item_with_id("no marker", &None, 17).is_none());
}

#[test]
fn bytes_are_read_even_where_they_are_no_text() {
    assert!(process_bytes(b"").is_empty());
    let items = process_bytes(b"## 2024-05-01 10:20:30 [a] INFO ## [t] one");
    assert_eq!(items.len(), 1);
    assert_eq!(items[0].content, "one");
    // an invalid byte is read as the replacement character
    let items = process_bytes(b"## 2024-05-01 10:20:30 [a] INFO ## [t] x\xffy");
    assert_eq!(items.len(), 1);
    assert_eq!(items[0].content, "x\u{fffd}y");
}
