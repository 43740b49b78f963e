use termlog::content_line_maker::wrap_content_to_lines;

#[test]
fn test_empty_content() {
    let result = wrap_content_to_lines("", 10);
    assert_eq!(result.len(), 0);
}

#[test]
fn test_zero_width() {
    let result = wrap_content_to_lines("hello", 0);
    assert_eq!(result.len(), 0);
}

#[test]
fn test_short_content() {
    let result = wrap_content_to_lines("hello", 10);
    assert_eq!(result.len(), 1);
    assert_eq!(result[0].to_string(), "hello");
}

#[test]
fn test_exact_width() {
    let result = wrap_content_to_lines("hello", 5);
    assert_eq!(result.len(), 1);
    assert_eq!(result[0].to_string(), "hello");
}

#[test]
fn test_long_content() {
    let result = wrap_content_to_lines("hello world", 5);
    assert_eq!(result.len(), 3);
    assert_eq!(result[0].to_string(), "hello");
    assert_eq!(result[1].to_string(), " worl");
    assert_eq!(result[2].to_string(), "d");
}

#[test]
fn test_newline_handling() {
    let result = wrap_content_to_lines("hello\nworld", 10);
    assert_eq!(result.len(), 2);
    assert_eq!(result[0].to_string(), "hello");
    assert_eq!(result[1].to_string(), "world");
}

#[test]
fn test_multiple_newlines() {
    let result = wrap_content_to_lines("hello\n\nworld", 10);
    assert_eq!(result.len(), 3);
    assert_eq!(result[0].to_string(), "hello");
    assert_eq!(result[1].to_string(), "");
    assert_eq!(result[2].to_string(), "world");
}

#[test]
fn test_very_long_content() {
    let result = wrap_content_to_lines("this is a very long line that needs to be wrapped", 10);
    assert_eq!(result.len(), 5);
    assert_eq!(result[0].to_string(), "this is a ");
    assert_eq!(result[1].to_string(), "very long ");
    assert_eq!(result[2].to_string(), "line that ");
    assert_eq!(result[3].to_string(), "needs to b");
    assert_eq!(result[4].to_string(), "e wrapped");
}

#[test]
fn trailing_newline_adds_no_line() {
    let result = wrap_content_to_lines("ab\n", 10);
    assert_eq!(result, vec!["ab".to_string()]);
}

#[test]
fn wide_characters_count_by_their_bytes() {
    // each of these characters takes two bytes: two of them fill a line of four
    let result = wrap_content_to_lines("ääää", 4);
    assert_eq!(result, vec!["ää".to_string(), "ää".to_string()]);
    // a line that steps over the width without meeting it is not ended
    let result = wrap_content_to_lines("aää", 2);
    assert_eq!(result, vec!["aää".to_string()]);
}
