use ube_core::text::{compute_text_lines, max_line_width, TextLine};

/// Measures every character at the same advance.
fn measured(text: &str, advance: i32) -> Vec<(char, i32)> {
    text.chars().map(|c| (c, advance)).collect()
}

fn strings(lines: &Vec<TextLine>) -> Vec<String> {
    lines.iter().map(|l| l.chars.iter().map(|g| g.0).collect()).collect()
}

fn widths(lines: &Vec<TextLine>) -> Vec<i64> {
    lines.iter().map(|l| l.width).collect()
}

#[test]
fn hello_world_wraps_into_two_lines() {
    let lines = compute_text_lines(&measured("Hello World", 16), Some(60));
    assert_eq!(strings(&lines), vec!["Hello", "World"]);
    assert_eq!(widths(&lines), vec![80, 80]);
}

#[test]
fn without_a_budget_nothing_wraps() {
    let lines = compute_text_lines(&measured("the quick brown fox", 10), None);
    assert_eq!(strings(&lines), vec!["the quick brown fox"]);
    assert_eq!(widths(&lines), vec![190]);
}

#[test]
fn words_fill_a_line_up_to_the_budget() {
    let glyphs = measured("aa bb cc dd", 10);
    assert_eq!(strings(&compute_text_lines(&glyphs, Some(50))), vec!["aa bb", "cc dd"]);
    assert_eq!(strings(&compute_text_lines(&glyphs, Some(49))), vec!["aa", "bb", "cc", "dd"]);
    assert_eq!(strings(&compute_text_lines(&glyphs, Some(80))), vec!["aa bb cc", "dd"]);
    assert_eq!(strings(&compute_text_lines(&glyphs, Some(110))), vec!["aa bb cc dd"]);
    assert_eq!(strings(&compute_text_lines(&glyphs, Some(109))), vec!["aa bb cc", "dd"]);
}

#[test]
fn a_word_wider_than_the_budget_stays_whole() {
    let lines = compute_text_lines(&measured("incomprehensible of", 10), Some(30));
    assert_eq!(strings(&lines), vec!["incomprehensible", "of"]);
    assert_eq!(widths(&lines), vec![160, 20]);
    let lines = compute_text_lines(&measured("x", 10), Some(0));
    assert_eq!(strings(&lines), vec!["x"]);
}

#[test]
fn line_feeds_always_break() {
    assert_eq!(strings(&compute_text_lines(&measured("ab\ncd", 1), None)), vec!["ab", "cd"]);
    assert_eq!(strings(&compute_text_lines(&measured("ab\r\ncd", 1), None)), vec!["ab", "cd"]);
    assert_eq!(strings(&compute_text_lines(&measured("a\n\nb", 1), None)), vec!["a", "", "b"]);
    assert_eq!(strings(&compute_text_lines(&measured("a b\nc d", 10), Some(1000))), vec!["a b", "c d"]);
}

#[test]
fn the_last_line_feed_adds_no_line() {
    assert_eq!(strings(&compute_text_lines(&measured("ab\n", 1), None)), vec!["ab"]);
    assert_eq!(strings(&compute_text_lines(&measured("ab\r\n", 1), None)), vec!["ab"]);
    assert_eq!(strings(&compute_text_lines(&measured("\n", 1), None)), vec![""]);
    assert_eq!(strings(&compute_text_lines(&measured("\n\n", 1), None)), vec!["", ""]);
    assert_eq!(strings(&compute_text_lines(&measured("ab\r", 1), None)), vec!["ab\r"]);
    assert_eq!(strings(&compute_text_lines(&measured("a\rb\n", 1), None)), vec!["a\rb"]);
}

#[test]
fn no_text_has_no_lines() {
    let lines = compute_text_lines(&vec![], Some(100));
    assert!(lines.is_empty());
    assert_eq!(max_line_width(&lines), 0);
}

#[test]
fn spaces_in_a_row_are_kept() {
    let lines = compute_text_lines(&measured("a  b", 10), None);
    assert_eq!(strings(&lines), vec!["a  b"]);
    assert_eq!(widths(&lines), vec![40]);
    // the space that breaks is dropped; one that starts an empty line stays
    let lines = compute_text_lines(&measured("a  b", 10), Some(15));
    assert_eq!(strings(&lines), vec!["a", " b"]);
    assert_eq!(widths(&lines), vec![10, 20]);
    let lines = compute_text_lines(&measured(" a", 10), Some(5));
    assert_eq!(strings(&lines), vec![" a"]);
}

#[test]
fn advances_differ_by_character() {
    let glyphs = vec![('i', 4), ('W', 20), (' ', 6), ('W', 20), ('i', 4), (' ', 6), ('i', 4)];
    let lines = compute_text_lines(&glyphs, Some(50));
    assert_eq!(strings(&lines), vec!["iW", "Wi i"]);
    assert_eq!(widths(&lines), vec![24, 34]);
    assert_eq!(lines[1].chars, vec![('W', 20), ('i', 4), (' ', 6), ('i', 4)]);
    assert_eq!(max_line_width(&lines), 34);
}

#[test]
fn negative_advances_are_summed_as_they_are() {
    let glyphs = vec![('a', 10), ('b', -4), (' ', 3), ('c', 10)];
    let lines = compute_text_lines(&glyphs, Some(18));
    assert_eq!(strings(&lines), vec!["ab", "c"]);
    assert_eq!(widths(&lines), vec![6, 10]);
    let lines = compute_text_lines(&glyphs, Some(19));
    assert_eq!(strings(&lines), vec!["ab c"]);
    assert_eq!(widths(&lines), vec![19]);
}

#[test]
fn the_widest_line_gives_the_block_its_width() {
    let lines = compute_text_lines(&measured("a\nbbbb\ncc", 7), None);
    assert_eq!(max_line_width(&lines), 28);
    let lines = compute_text_lines(&measured("a", -7), None);
    assert_eq!(max_line_width(&lines), 0);
}
