use vstd::prelude::*;

verus! {

/// A line without the carriage return that ended it, if one did.
pub open spec fn strip_cr(l: Seq<char>) -> Seq<char> {
    if l.len() > 0 && l.last() == '\r' {
        l.drop_last()
    } else {
        l
    }
}

/// The lines that a text has completed, and the part of a line that follows them: a line
/// feed completes the current line, less a carriage return just before it.
pub open spec fn line_scan(t: Seq<char>) -> (Seq<Seq<char>>, Seq<char>)
    decreases t.len(),
{
    if t.len() == 0 {
        (Seq::empty(), Seq::empty())
    } else {
        let (done, cur) = line_scan(t.drop_last());
        if t.last() == '\n' {
            (done.push(strip_cr(cur)), Seq::empty())
        } else {
            (done, cur.push(t.last()))
        }
    }
}

/// The lines of a text, read as a line-oriented reader reads them: those that a line feed
/// ends, then the rest if it is not empty.
pub open spec fn lines_of(t: Seq<char>) -> Seq<Seq<char>> {
    let (done, cur) = line_scan(t);
    if cur.len() == 0 {
        done
    } else {
        done.push(cur)
    }
}

/// The text of lines each followed by a line feed.
pub open spec fn terminated(ls: Seq<Seq<char>>) -> Seq<char>
    decreases ls.len(),
{
    if ls.len() == 0 {
        Seq::empty()
    } else {
        terminated(ls.drop_last()) + ls.last() + seq!['\n']
    }
}

/// Relies on `String::push`, which appends the character.
#[verifier::external_body]
pub(crate) fn push_char(s: &mut String, c: char)
    ensures
        final(s)@ == old(s)@.push(c),
{
    s.push(c)
}

/// Relies on `String::pop`, which takes off the last character, if there is one.
#[verifier::external_body]
fn pop_char(s: &mut String) -> (r: Option<char>)
    ensures
        old(s)@.len() == 0 ==> r is None && final(s)@ == old(s)@,
        old(s)@.len() > 0 ==> r == Some(old(s)@.last()) && final(s)@ == old(s)@.drop_last(),
{
    s.pop()
}

/// The contents of a sequence of strings.
pub open spec fn views(v: Seq<String>) -> Seq<Seq<char>> {
    v.map_values(|l: String| l@)
}

/// Splits a text into its lines, taking off each line's terminator.
pub fn split_lines(text: &str) -> (r: Vec<String>)
    ensures
        views(r@) == lines_of(text@),
{
    let mut done: Vec<String> = Vec::new();
    let mut cur = String::new();
    let mut last_cr: bool = false;
    for c in it: text.chars()
        invariant
            it.seq() == text@,
            views(done@) == line_scan(text@.subrange(0, it.index() as int)).0,
            cur@ == line_scan(text@.subrange(0, it.index() as int)).1,
            last_cr == (cur@.len() > 0 && cur@.last() == '\r'),
    {
        let ghost i = it.index();
        assert(text@.subrange(0, i + 1).drop_last() =~= text@.subrange(0, i as int));
        if c == '\n' {
            if last_cr {
                let _ = pop_char(&mut cur);
            }
            let line = cur;
            assert(views(done@.push(line)) =~= views(done@).push(line@));
            done.push(line);
            cur = String::new();
            last_cr = false;
        } else {
            push_char(&mut cur, c);
            last_cr = c == '\r';
        }
    }
    assert(text@.subrange(0, text@.len() as int) =~= text@);
    if !cur.as_str().is_empty() {
        assert(views(done@.push(cur)) =~= views(done@).push(cur@));
        done.push(cur);
    }
    done
}

/// A part of a line that holds no line feed extends the current line and completes none.
proof fn lemma_scan_extend(t: Seq<char>, l: Seq<char>)
    requires
        !l.contains('\n'),
    ensures
        line_scan(t + l) == (line_scan(t).0, line_scan(t).1 + l),
    decreases l.len(),
{
    if l.len() == 0 {
        assert(t + l =~= t);
        assert(line_scan(t).1 + l =~= line_scan(t).1);
    } else {
        let k = l.drop_last();
        assert(!k.contains('\n')) by {
            if k.contains('\n') {
                let j = choose|j: int| 0 <= j < k.len() && k[j] == '\n';
                assert(l[j] == '\n');
            }
        }
        assert(l.last() != '\n') by {
            assert(l[l.len() - 1] == l.last());
        }
        lemma_scan_extend(t, k);
        assert((t + l).drop_last() =~= t + k);
        assert((line_scan(t).1 + k).push(l.last()) =~= line_scan(t).1 + l);
    }
}

/// Lines that each end in a line feed are read back as they were, less a carriage return
/// at their end; in particular a text of `n` such lines has `n` lines.
pub proof fn lemma_terminated_lines(ls: Seq<Seq<char>>)
    requires
        forall|i: int| 0 <= i < ls.len() ==> !(#[trigger] ls[i]).contains('\n'),
    ensures
        lines_of(terminated(ls)) == ls.map_values(|l: Seq<char>| strip_cr(l)),
        lines_of(terminated(ls)).len() == ls.len(),
    decreases ls.len(),
{
    let stripped = ls.map_values(|l: Seq<char>| strip_cr(l));
    if ls.len() == 0 {
        assert(stripped =~= Seq::<Seq<char>>::empty());
    } else {
        let rest = ls.drop_last();
        lemma_terminated_lines(rest);
        let t = terminated(rest) + ls.last();
        assert(ls.last() == ls[ls.len() - 1]);
        lemma_scan_extend(terminated(rest), ls.last());
        assert(Seq::<char>::empty() + ls.last() =~= ls.last());
        assert((t + seq!['\n']).drop_last() =~= t);
        assert(rest.map_values(|l: Seq<char>| strip_cr(l)).push(strip_cr(ls.last())) =~= stripped);
    }
}

/// The number of line feeds in `b`.
pub open spec fn newlines(b: Seq<u8>) -> nat
    decreases b.len(),
{
    if b.len() == 0 {
        0
    } else {
        newlines(b.drop_last()) + if b.last() == 10u8 {
            1nat
        } else {
            0nat
        }
    }
}

/// The number, counted from 1, of the line in which byte `offset` of `bytes` stands.
pub fn line_number_at(bytes: &Vec<u8>, offset: usize) -> (r: u128)
    requires
        offset <= bytes@.len(),
    ensures
        r == 1 + newlines(bytes@.subrange(0, offset as int)),
{
    let mut n: u128 = 1;
    let mut i: usize = 0;
    while i < offset
        invariant
            i <= offset <= bytes@.len(),
            n == 1 + newlines(bytes@.subrange(0, i as int)),
            n <= 1 + i,
        decreases offset - i,
    {
        assert(bytes@.subrange(0, i + 1).drop_last() =~= bytes@.subrange(0, i as int));
        if bytes[i] == 10u8 {
            n = n + 1;
        }
        i = i + 1;
    }
    n
}

} // verus!
