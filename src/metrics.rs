use vstd::prelude::*;
use crate::lines::{lines_of, split_lines, views};

verus! {

/// The characters with Unicode's `White_Space` property.
pub open spec fn is_space(c: char) -> bool {
    ('\u{9}' <= c && c <= '\u{d}') || c == ' ' || c == '\u{85}' || c == '\u{a0}'
        || c == '\u{1680}' || ('\u{2000}' <= c && c <= '\u{200a}') || c == '\u{2028}'
        || c == '\u{2029}' || c == '\u{202f}' || c == '\u{205f}' || c == '\u{3000}'
}

/// Tests a character for the `White_Space` property.
fn is_white(c: char) -> (r: bool)
    ensures
        r == is_space(c),
{
    ('\u{9}' <= c && c <= '\u{d}') || c == ' ' || c == '\u{85}' || c == '\u{a0}'
        || c == '\u{1680}' || ('\u{2000}' <= c && c <= '\u{200a}') || c == '\u{2028}'
        || c == '\u{2029}' || c == '\u{202f}' || c == '\u{205f}' || c == '\u{3000}'
}

/// Position `i` of `s` opens a word: a non-space that follows a space or the start.
pub open spec fn starts_word(s: Seq<char>, i: int) -> bool {
    !is_space(s[i]) && (i == 0 || is_space(s[i - 1]))
}

/// The number of words of `s`, that is of its maximal runs of non-space characters,
/// counted by the positions at which they start.
pub open spec fn word_count(s: Seq<char>) -> nat
    decreases s.len(),
{
    if s.len() == 0 {
        0
    } else {
        word_count(s.drop_last()) + if starts_word(s, s.len() - 1) {
            1nat
        } else {
            0nat
        }
    }
}

/// A text never has more words than characters.
pub proof fn lemma_word_count_bound(s: Seq<char>)
    ensures
        word_count(s) <= s.len(),
    decreases s.len(),
{
    if s.len() > 0 {
        lemma_word_count_bound(s.drop_last());
    }
}

/// The number of bytes of the UTF-8 encoding of `s`.
pub open spec fn byte_len(s: Seq<char>) -> nat {
    vstd::utf8::encode_utf8(s).len()
}

/// Each character takes at least one byte.
pub proof fn lemma_byte_len_bound(s: Seq<char>)
    ensures
        s.len() <= byte_len(s),
    decreases s.len(),
{
    if s.len() > 0 {
        lemma_byte_len_bound(s.drop_first());
    }
}

/// The byte length of a line, which is at most `usize::MAX`.
fn line_bytes(line: &str) -> (r: usize)
    ensures
        r == byte_len(line@),
        line@.len() <= usize::MAX,
{
    proof {
        lemma_byte_len_bound(line@);
    }
    line.as_bytes().len()
}

/// Counts the words of one line, splitting on runs of white space.
pub fn count_words(line: &str) -> (n: usize)
    ensures
        n == word_count(line@),
{
    // what bounds the count below
    let _ = line_bytes(line);
    let mut n: usize = 0;
    let mut after_space: bool = true;
    for c in it: line.chars()
        invariant
            it.seq() == line@,
            line@.len() <= usize::MAX,
            n == word_count(line@.subrange(0, it.index() as int)),
            n <= it.index(),
            after_space == (it.index() == 0 || is_space(line@[it.index() - 1])),
    {
        let ghost i = it.index();
        assert(line@.subrange(0, i + 1).drop_last() =~= line@.subrange(0, i as int));
        let space = is_white(c);
        if !space && after_space {
            n = n + 1;
        }
        after_space = space;
    }
    assert(line@.subrange(0, line@.len() as int) =~= line@);
    n
}

/// A space put beside another space adds no word: a run of spaces separates two words however
/// long it is.
pub proof fn lemma_space_run(s: Seq<char>, i: int, c: char)
    requires
        0 < i <= s.len(),
        is_space(s[i - 1]),
        is_space(c),
    ensures
        word_count(s.insert(i, c)) == word_count(s),
    decreases s.len(),
{
    let t = s.insert(i, c);
    if i == s.len() {
        assert(t.drop_last() =~= s);
    } else {
        lemma_space_run(s.drop_last(), i, c);
        assert(t.drop_last() =~= s.drop_last().insert(i, c));
        assert(t.last() == s.last());
        assert(t[t.len() - 2] == if i == s.len() - 1 { c } else { s[s.len() - 2] });
    }
}

/// The tallies of one file: its lines, words and characters.
pub struct Metrics {
    pub chars: u128,
    pub words: u128,
    pub lines: u128,
}

/// The words of all lines together.
pub open spec fn total_words(lines: Seq<Seq<char>>) -> nat
    decreases lines.len(),
{
    if lines.len() == 0 {
        0
    } else {
        total_words(lines.drop_last()) + word_count(lines.last())
    }
}

/// The characters of all lines together: each line's byte length, plus one for the
/// terminator that was taken off it.
pub open spec fn total_chars(lines: Seq<Seq<char>>) -> nat
    decreases lines.len(),
{
    if lines.len() == 0 {
        0
    } else {
        total_chars(lines.drop_last()) + byte_len(lines.last()) + 1
    }
}

/// Scans the lines of a file, whose terminators were taken off, and tallies them.
pub fn get_metrics(lines: &Vec<String>) -> (m: Metrics)
    ensures
        m.lines == lines@.len(),
        m.words == total_words(views(lines@)),
        m.chars == total_chars(views(lines@)),
{
    let ghost texts = views(lines@);
    let ghost cap: int = usize::MAX as int + 1;
    let mut chars: u128 = 0;
    let mut words: u128 = 0;
    let mut count: u128 = 0;
    let mut i: usize = 0;
    while i < lines.len()
        invariant
            i <= lines@.len(),
            texts == views(lines@),
            cap == usize::MAX as int + 1,
            count == i,
            words == total_words(texts.subrange(0, i as int)),
            chars == total_chars(texts.subrange(0, i as int)),
            words <= chars,
            chars <= i * cap,
        decreases lines@.len() - i,
    {
        let line = lines[i].as_str();
        let len = line_bytes(line);
        let n = count_words(line);
        assert(texts.subrange(0, i + 1).drop_last() =~= texts.subrange(0, i as int));
        assert(texts[i as int] == line@);
        proof {
            lemma_byte_len_bound(line@);
            lemma_word_count_bound(line@);
            assert(i < usize::MAX);
            assert(chars + len + 1 <= (i + 1) * cap) by (nonlinear_arith)
                requires
                    chars <= i * cap,
                    len + 1 <= cap,
            ;
            assert((i + 1) * cap <= usize::MAX as int * cap) by (nonlinear_arith)
                requires
                    i + 1 <= usize::MAX,
                    cap > 0,
            ;
            assert(usize::MAX as int * cap <= u128::MAX) by (nonlinear_arith)
                requires
                    usize::MAX <= u64::MAX,
                    cap == usize::MAX as int + 1,
            ;
        }
        chars = chars + len as u128 + 1;
        words = words + n as u128;
        count = count + 1;
        i = i + 1;
    }
    assert(texts.subrange(0, i as int) =~= texts);
    Metrics { chars, words, lines: count }
}

/// Tallies a text: its lines as a line-oriented reader reads them, and their words and
/// characters.
pub fn metrics_of_text(text: &str) -> (m: Metrics)
    ensures
        m.lines == lines_of(text@).len(),
        m.words == total_words(lines_of(text@)),
        m.chars == total_chars(lines_of(text@)),
{
    get_metrics(&split_lines(text))
}

} // verus!
