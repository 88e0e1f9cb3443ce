use wordcount::lines::{line_number_at, split_lines};
use wordcount::metrics::metrics_of_text;

#[test]
fn terminated_lines_are_counted() {
    let text: String = (0..7).map(|i| format!("row {}\n", i)).collect();
    assert_eq!(split_lines(&text).len(), 7);
    assert_eq!(metrics_of_text(&text).lines, 7);
}

#[test]
fn empty_text_has_no_counts() {
    assert!(split_lines("").is_empty());
    let m = metrics_of_text("");
    assert_eq!((m.lines, m.words, m.chars), (0, 0, 0));
}

#[test]
fn hello_world_text() {
    let m = metrics_of_text("hello world\n");
    assert_eq!((m.lines, m.words, m.chars), (1, 2, 12));
}

#[test]
fn split_strips_terminators() {
    assert_eq!(split_lines("a\nb\r\n\nc"), vec!["a", "b", "", "c"]);
    assert_eq!(split_lines("\n"), vec![""]);
    assert_eq!(split_lines("x\r"), vec!["x\r"]);
    assert_eq!(split_lines("only\r\r\n"), vec!["only\r"]);
}

#[test]
fn last_line_without_terminator_still_counts_one_more() {
    let m = metrics_of_text("hello world");
    assert_eq!((m.lines, m.words, m.chars), (1, 2, 12));
    let m = metrics_of_text("a   b\ncd");
    assert_eq!((m.lines, m.words, m.chars), (2, 3, 6 + 3));
}

#[test]
fn crlf_lines_lose_both_terminator_bytes() {
    let m = metrics_of_text("ab\r\ncd\r\n");
    assert_eq!((m.lines, m.words, m.chars), (2, 2, 6));
}

#[test]
fn line_numbers_of_offsets() {
    let bytes = b"first\nsecond\n\xffthird".to_vec();
    assert_eq!(line_number_at(&bytes, 0), 1);
    assert_eq!(line_number_at(&bytes, 5), 1);
    assert_eq!(line_number_at(&bytes, 6), 2);
    assert_eq!(line_number_at(&bytes, 13), 3);
    assert_eq!(line_number_at(&bytes, bytes.len()), 3);
    assert_eq!(line_number_at(&Vec::new(), 0), 1);
}
