//! Text as sequences of characters: searching, and conversion between strings
//! and character vectors.

use vstd::prelude::*;
use vstd::std_specs::iter::IteratorSpec;

verus! {

/// `pat` stands in `text` at position `at`.
pub open spec fn occurs_at(text: Seq<char>, pat: Seq<char>, at: int) -> bool {
    &&& 0 <= at
    &&& at + pat.len() <= text.len()
    &&& text.subrange(at, at + pat.len()) == pat
}

/// `pat` stands somewhere in `text`. The empty pattern stands in every text.
pub open spec fn contains(text: Seq<char>, pat: Seq<char>) -> bool {
    exists|at: int| occurs_at(text, pat, at)
}

/// The view of a text that may be absent.
pub open spec fn text_of(text: Option<String>) -> Option<Seq<char>> {
    match text {
        Some(text) => Some(text@),
        None => None,
    }
}

/// The view of a borrowed text that may be absent.
pub open spec fn str_of(text: Option<&str>) -> Option<Seq<char>> {
    match text {
        Some(text) => Some(text@),
        None => None,
    }
}

/// The characters of `s`, in order.
pub fn to_chars(s: &str) -> (out: Vec<char>)
    ensures
        out@ == s@,
{
    broadcast use vstd::string::group_string_axioms;

    let mut out: Vec<char> = Vec::new();
    let mut it = s.chars();
    loop
        invariant
            it.obeys_prophetic_iter_laws(),
            it.decrease() is Some,
            out@ + it.remaining() == s@,
        ensures
            out@ == s@,
        decreases it.decrease()->0,
    {
        match it.next() {
            Some(c) => {
                out.push(c);
            },
            None => {
                assert(out@ =~= out@ + it.remaining());
                break ;
            },
        }
    }
    out
}

/// `String::push` of std: the string grows by the one character at its end.
pub assume_specification[ String::push ](s: &mut String, ch: char)
    ensures
        final(s)@ == old(s)@.push(ch),
;

/// The string that holds the characters of `chars`, in order.
pub fn from_chars(chars: &Vec<char>) -> (out: String)
    ensures
        out@ == chars@,
{
    let mut out = String::new();
    let mut i: usize = 0;
    while i < chars.len()
        invariant
            i <= chars.len(),
            out@ == chars@.take(i as int),
        decreases chars.len() - i,
    {
        out.push(chars[i]);
        assert(chars@.take(i + 1) =~= chars@.take(i as int).push(chars@[i as int]));
        i += 1;
    }
    assert(chars@.take(i as int) =~= chars@);
    out
}

/// Whether `pat` stands in `text` at position `at`.
pub fn matches_at(text: &Vec<char>, pat: &Vec<char>, at: usize) -> (found: bool)
    requires
        at + pat.len() <= text.len(),
    ensures
        found == occurs_at(text@, pat@, at as int),
{
    let mut k: usize = 0;
    while k < pat.len()
        invariant
            k <= pat.len(),
            at + pat.len() <= text.len(),
            forall|j: int| 0 <= j < k ==> text@[at + j] == pat@[j],
        decreases pat.len() - k,
    {
        if text[at + k] != pat[k] {
            assert(text@.subrange(at as int, at + pat.len())[k as int] != pat@[k as int]);
            return false;
        }
        k += 1;
    }
    assert(text@.subrange(at as int, at + pat.len()) =~= pat@);
    true
}

/// Whether `pat` stands somewhere in `text`.
pub fn find(text: &Vec<char>, pat: &Vec<char>) -> (found: bool)
    ensures
        found == contains(text@, pat@),
{
    if pat.len() > text.len() {
        return false;
    }
    let last: usize = text.len() - pat.len();
    let mut at: usize = 0;
    loop
        invariant
            at <= last,
            last + pat.len() == text.len(),
            forall|j: int| 0 <= j < at ==> !occurs_at(text@, pat@, j),
        decreases last - at,
    {
        if matches_at(text, pat, at) {
            return true;
        }
        if at == last {
            return false;
        }
        at += 1;
    }
}

/// The characters of `text` from position `from` up to, not including, `to`.
pub fn copy_range(text: &Vec<char>, from: usize, to: usize) -> (out: Vec<char>)
    requires
        from <= to <= text.len(),
    ensures
        out@ == text@.subrange(from as int, to as int),
{
    let mut out: Vec<char> = Vec::new();
    let mut i: usize = from;
    while i < to
        invariant
            from <= i <= to <= text.len(),
            out@ == text@.subrange(from as int, i as int),
        decreases to - i,
    {
        out.push(text[i]);
        assert(text@.subrange(from as int, i + 1) =~= text@.subrange(from as int, i as int).push(
            text@[i as int],
        ));
        i += 1;
    }
    out
}

/// Puts the characters of `more` at the end of `out`.
pub fn push_all(out: &mut Vec<char>, more: &Vec<char>)
    ensures
        final(out)@ == old(out)@ + more@,
{
    let mut i: usize = 0;
    while i < more.len()
        invariant
            i <= more.len(),
            out@ == old(out)@ + more@.take(i as int),
        decreases more.len() - i,
    {
        out.push(more[i]);
        assert(more@.take(i + 1) =~= more@.take(i as int).push(more@[i as int]));
        i += 1;
    }
    assert(more@.take(i as int) =~= more@);
}

/// The views of the vectors of `lines`, in order.
pub open spec fn views(lines: Seq<Vec<char>>) -> Seq<Seq<char>> {
    Seq::new(lines.len(), |i: int| lines[i]@)
}

/// The position of the first line feed of `text` at or after `from`, or the
/// length of `text` where there is none.
pub open spec fn line_end(text: Seq<char>, from: int) -> int
    decreases text.len() - from,
{
    if from < 0 || from >= text.len() {
        text.len() as int
    } else if text[from] == '\n' {
        from
    } else {
        line_end(text, from + 1)
    }
}

/// A line ends at or after its start, and within the text.
pub proof fn lemma_line_end_bounds(text: Seq<char>, from: int)
    requires
        0 <= from <= text.len(),
    ensures
        from <= line_end(text, from) <= text.len(),
        forall|j: int| from <= j < line_end(text, from) ==> text[j] != '\n',
        line_end(text, from) < text.len() ==> text[line_end(text, from)] == '\n',
    decreases text.len() - from,
{
    if from < text.len() && text[from] != '\n' {
        lemma_line_end_bounds(text, from + 1);
    }
}

/// `line` without the one carriage return at its end, if it has one.
pub open spec fn strip_cr(line: Seq<char>) -> Seq<char> {
    if line.len() > 0 && line.last() == '\r' {
        line.drop_last()
    } else {
        line
    }
}

/// The lines of `text` that begin at or after `from`, where `from` is the
/// start of a line.
///
/// A line ends at a line feed, which does not belong to it, and neither does
/// one carriage return just before that line feed. What follows the last
/// line feed is a line of its own if it is not empty, and keeps a carriage
/// return at its end.
pub open spec fn lines_from(text: Seq<char>, from: int) -> Seq<Seq<char>>
    decreases text.len() - from,
{
    if from < 0 || from >= text.len() {
        Seq::empty()
    } else {
        let end = line_end(text, from);
        if end >= text.len() {
            seq![text.subrange(from, text.len() as int)]
        } else {
            proof {
                lemma_line_end_bounds(text, from);
            }
            seq![strip_cr(text.subrange(from, end))] + lines_from(text, end + 1)
        }
    }
}

/// The lines of `text`, as `str::lines` of std yields them.
pub open spec fn lines_of(text: Seq<char>) -> Seq<Seq<char>> {
    lines_from(text, 0)
}

/// Where no line feed stands from `from` up to `to`, and `to` is the end of
/// the text or holds a line feed, the line that starts at `from` ends at `to`.
pub proof fn lemma_line_end(text: Seq<char>, from: int, to: int)
    requires
        0 <= from <= to <= text.len(),
        forall|j: int| from <= j < to ==> text[j] != '\n',
        to == text.len() || text[to] == '\n',
    ensures
        line_end(text, from) == to,
    decreases to - from,
{
    if from < to {
        lemma_line_end(text, from + 1, to);
    }
}

/// No line feed stands in `text`.
pub open spec fn one_line(text: Seq<char>) -> bool {
    forall|i: int| 0 <= i < text.len() ==> text[i] != '\n'
}

/// `line` is a stretch of `text`.
pub open spec fn is_piece(line: Seq<char>, text: Seq<char>) -> bool {
    exists|from: int, to: int|
        0 <= from <= to <= text.len() && line == #[trigger] text.subrange(from, to)
}

/// A line of the second of two texts ends where it ends in that text alone,
/// moved by the length of the first.
pub proof fn lemma_line_end_shift(a: Seq<char>, b: Seq<char>, k: int)
    requires
        0 <= k <= b.len(),
    ensures
        line_end(a + b, a.len() + k) == a.len() + line_end(b, k),
    decreases b.len() - k,
{
    if k < b.len() {
        assert((a + b)[a.len() + k] == b[k]);
        if b[k] != '\n' {
            lemma_line_end_shift(a, b, k + 1);
        }
    }
}

/// The lines of the second of two texts are its lines in that text alone.
pub proof fn lemma_lines_from_shift(a: Seq<char>, b: Seq<char>, k: int)
    requires
        0 <= k <= b.len(),
    ensures
        lines_from(a + b, a.len() + k) == lines_from(b, k),
    decreases b.len() - k,
{
    if k < b.len() {
        lemma_line_end_shift(a, b, k);
        lemma_line_end_bounds(b, k);
        let end = line_end(b, k);
        assert((a + b).subrange(a.len() + k, a.len() + end) =~= b.subrange(k, end));
        if end < b.len() {
            lemma_lines_from_shift(a, b, end + 1);
        }
    }
}

/// Where the first of two texts is empty or ends in a line feed, the lines
/// of the two together are the lines of the first and then those of the
/// second.
pub proof fn lemma_lines_from_concat(a: Seq<char>, b: Seq<char>, from: int)
    requires
        0 <= from <= a.len(),
        a.len() == 0 || a.last() == '\n',
    ensures
        lines_from(a + b, from) == lines_from(a, from) + lines_from(b, 0),
    decreases a.len() - from,
{
    if from == a.len() {
        lemma_lines_from_shift(a, b, 0);
        assert(lines_from(a, from) + lines_from(b, 0) =~= lines_from(b, 0));
    } else {
        lemma_line_end_bounds(a, from);
        let end = line_end(a, from);
        assert(end < a.len());
        assert forall|j: int| from <= j < end implies (a + b)[j] != '\n' by {
            assert((a + b)[j] == a[j]);
        }
        assert((a + b)[end] == a[end]);
        lemma_line_end(a + b, from, end);
        assert((a + b).subrange(from, end) =~= a.subrange(from, end));
        lemma_lines_from_concat(a, b, end + 1);
        assert(lines_from(a + b, from) =~= lines_from(a, from) + lines_from(b, 0));
    }
}

/// Where the first of two texts is empty or ends in a line feed, the lines
/// of the two together are the lines of the first and then those of the
/// second.
pub proof fn lemma_lines_of_concat(a: Seq<char>, b: Seq<char>)
    requires
        a.len() == 0 || a.last() == '\n',
    ensures
        lines_of(a + b) == lines_of(a) + lines_of(b),
{
    lemma_lines_from_concat(a, b, 0);
}

/// Every line of a text is one line, and a stretch of the text.
pub proof fn lemma_lines_from_are_pieces(text: Seq<char>, from: int)
    requires
        0 <= from <= text.len(),
    ensures
        forall|k: int|
            0 <= k < lines_from(text, from).len() ==> one_line(#[trigger] lines_from(text, from)[k])
                && is_piece(lines_from(text, from)[k], text),
    decreases text.len() - from,
{
    if from < text.len() {
        lemma_line_end_bounds(text, from);
        let end = line_end(text, from);
        let lines = lines_from(text, from);
        if end >= text.len() {
            let line = text.subrange(from, text.len() as int);
            assert(lines[0] == line);
            assert(is_piece(line, text));
        } else {
            lemma_lines_from_are_pieces(text, end + 1);
            let whole = text.subrange(from, end);
            let line = strip_cr(whole);
            let rest = lines_from(text, end + 1);
            if whole.len() > 0 && whole.last() == '\r' {
                assert(line =~= text.subrange(from, end - 1));
            }
            assert(is_piece(line, text));
            assert forall|k: int| 0 <= k < lines.len() implies one_line(#[trigger] lines[k])
                && is_piece(lines[k], text) by {
                if k > 0 {
                    assert(lines[k] == rest[k - 1]);
                }
            }
        }
    }
}

/// Every line of a text is one line, and a stretch of the text.
pub proof fn lemma_lines_are_pieces(text: Seq<char>)
    ensures
        forall|k: int|
            0 <= k < lines_of(text).len() ==> one_line(#[trigger] lines_of(text)[k]) && is_piece(
                lines_of(text)[k],
                text,
            ),
{
    lemma_lines_from_are_pieces(text, 0);
}

/// What stands in a stretch of a text stands in the text.
pub proof fn lemma_piece_contains(line: Seq<char>, text: Seq<char>, pat: Seq<char>)
    requires
        is_piece(line, text),
        contains(line, pat),
    ensures
        contains(text, pat),
{
    let (from, to) = choose|from: int, to: int|
        0 <= from <= to <= text.len() && line == #[trigger] text.subrange(from, to);
    let at = choose|at: int| occurs_at(line, pat, at);
    assert(text.subrange(from + at, from + at + pat.len()) =~= line.subrange(at, at + pat.len()));
    assert(occurs_at(text, pat, from + at));
}

/// The lines of `text`.
pub fn split_lines(text: &Vec<char>) -> (lines: Vec<Vec<char>>)
    ensures
        views(lines@) == lines_of(text@),
{
    let mut lines: Vec<Vec<char>> = Vec::new();
    let mut start: usize = 0;
    let mut i: usize = 0;
    assert(views(lines@) + lines_from(text@, 0) =~= lines_of(text@));
    while i < text.len()
        invariant
            start <= i <= text.len(),
            forall|j: int| start <= j < i ==> text@[j] != '\n',
            views(lines@) + lines_from(text@, start as int) == lines_of(text@),
        decreases text.len() - i,
    {
        if text[i] == '\n' {
            let mut end: usize = i;
            if end > start && text[end - 1] == '\r' {
                end -= 1;
            }
            let line = copy_range(text, start, end);
            proof {
                lemma_line_end(text@, start as int, i as int);
                assert(line@ == strip_cr(text@.subrange(start as int, i as int)));
                assert(views(lines@.push(line)) =~= views(lines@).push(line@));
                assert(views(lines@.push(line)) + lines_from(text@, i + 1) =~= views(lines@)
                    + lines_from(text@, start as int));
            }
            lines.push(line);
            start = i + 1;
        }
        i += 1;
    }
    if start < text.len() {
        let line = copy_range(text, start, text.len());
        proof {
            lemma_line_end(text@, start as int, text@.len() as int);
            assert(views(lines@.push(line)) =~= views(lines@).push(line@));
        }
        lines.push(line);
    }
    assert(views(lines@) =~= lines_of(text@));
    lines
}

} // verus!
