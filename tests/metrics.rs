use wordcount::metrics::{count_words, get_metrics};

fn lines_of(texts: &[&str]) -> Vec<String> {
    texts.iter().map(|t| t.to_string()).collect()
}

#[test]
fn line_count_is_number_of_lines() {
    let m = get_metrics(&lines_of(&["one", "two", "", "four"]));
    assert_eq!(m.lines, 4);
    let many: Vec<String> = (0..100).map(|i| format!("line {}", i)).collect();
    assert_eq!(get_metrics(&many).lines, 100);
}

#[test]
fn empty_file_has_no_counts() {
    let m = get_metrics(&Vec::new());
    assert_eq!((m.lines, m.words, m.chars), (0, 0, 0));
}

#[test]
fn hello_world_counts() {
    let m = get_metrics(&lines_of(&["hello world"]));
    assert_eq!(m.lines, 1);
    assert_eq!(m.words, 2);
    assert_eq!(m.chars, 12);
}

#[test]
fn consecutive_spaces_make_one_separator() {
    assert_eq!(count_words("a   b"), 2);
    let m = get_metrics(&lines_of(&["a   b"]));
    assert_eq!((m.lines, m.words, m.chars), (1, 2, 6));
}

#[test]
fn words_of_edge_lines() {
    assert_eq!(count_words(""), 0);
    assert_eq!(count_words("   "), 0);
    assert_eq!(count_words("word"), 1);
    assert_eq!(count_words("  lead and trail  "), 3);
    assert_eq!(count_words("tab\tseparated\twords"), 3);
}

#[test]
fn unicode_white_space_separates_words() {
    let spaces = [
        '\u{9}', '\u{a}', '\u{b}', '\u{c}', '\u{d}', ' ', '\u{85}', '\u{a0}', '\u{1680}',
        '\u{2000}', '\u{2001}', '\u{2002}', '\u{2003}', '\u{2004}', '\u{2005}', '\u{2006}',
        '\u{2007}', '\u{2008}', '\u{2009}', '\u{200a}', '\u{2028}', '\u{2029}', '\u{202f}',
        '\u{205f}', '\u{3000}',
    ];
    for c in spaces {
        assert_eq!(count_words(&format!("a{}b", c)), 2);
    }
    for c in ['\u{200b}', '\u{feff}', '\u{180e}', 'x', '\u{8}', '\u{e}'] {
        assert_eq!(count_words(&format!("a{}b", c)), 1);
    }
}

#[test]
fn chars_count_bytes_and_terminators() {
    let m = get_metrics(&lines_of(&["h\u{e9}llo", "", "\u{1f600}"]));
    assert_eq!(m.lines, 3);
    assert_eq!(m.words, 2);
    assert_eq!(m.chars, 7 + 1 + 5);
}

#[test]
fn totals_add_up_over_lines() {
    let m = get_metrics(&lines_of(&["the quick brown", " fox  jumps", "over"]));
    assert_eq!(m.lines, 3);
    assert_eq!(m.words, 6);
    assert_eq!(m.chars, 16 + 12 + 5);
}
