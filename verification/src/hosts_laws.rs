//! What holds of the hosts file's text after the block is put in or taken
//! out.

use crate::hosts::{
    block_base, block_entries, block_lines, blocked, blocked_domains, collapse_tail, has_block,
    join_lines, kept_lines, lemma_join_concat, lemma_join_one, redirects, strip_blocks, unblocked,
    MARKER_END, MARKER_START, REDIRECT_PREFIX,
};
use crate::text::{
    contains, lemma_line_end, lemma_lines_are_pieces, lemma_lines_from_shift,
    lemma_lines_of_concat, lemma_piece_contains, lines_from, lines_of, occurs_at, one_line,
    strip_cr,
};
use vstd::prelude::*;

verus! {

/// What stands in the beginning of a text stands in the text.
pub proof fn lemma_contains_in_prefix(text: Seq<char>, n: int, pat: Seq<char>)
    requires
        0 <= n <= text.len(),
        contains(text.take(n), pat),
    ensures
        contains(text, pat),
{
    let at = choose|at: int| occurs_at(text.take(n), pat, at);
    assert(text.subrange(at, at + pat.len()) =~= text.take(n).subrange(at, at + pat.len()));
    assert(occurs_at(text, pat, at));
}

/// Where a pattern of one line, not empty, stands in the text joined from
/// `lines`, it stands in one of the lines.
pub proof fn lemma_join_contains(lines: Seq<Seq<char>>, pat: Seq<char>)
    requires
        pat.len() > 0,
        one_line(pat),
        contains(join_lines(lines), pat),
    ensures
        exists|k: int| 0 <= k < lines.len() && contains(#[trigger] lines[k], pat),
    decreases lines.len(),
{
    let text = join_lines(lines);
    let at = choose|at: int| occurs_at(text, pat, at);
    if lines.len() == 0 {
        assert(text.len() == 0);
    } else {
        let head = lines[0];
        let rest = join_lines(lines.skip(1));
        assert(text == head + seq!['\n'] + rest);
        if at + pat.len() <= head.len() {
            assert(head.subrange(at, at + pat.len()) =~= text.subrange(at, at + pat.len()));
            assert(occurs_at(head, pat, at));
        } else if at > head.len() {
            let from = at - head.len() - 1;
            assert(rest.subrange(from, from + pat.len()) =~= text.subrange(at, at + pat.len()));
            assert(occurs_at(rest, pat, from));
            lemma_join_contains(lines.skip(1), pat);
            let k = choose|k: int|
                0 <= k < lines.skip(1).len() && contains(#[trigger] lines.skip(1)[k], pat);
            assert(lines[k + 1] == lines.skip(1)[k]);
        } else {
            let inside = head.len() - at;
            assert(text.subrange(at, at + pat.len())[inside] == text[head.len() as int]);
            assert(pat[inside] == '\n');
        }
    }
}

/// None of the lines that are kept holds a sentinel.
pub proof fn lemma_kept_clean(
    lines: Seq<Seq<char>>,
    start: Seq<char>,
    end: Seq<char>,
    in_block: bool,
)
    ensures
        forall|k: int|
            0 <= k < kept_lines(lines, start, end, in_block).len() ==> !contains(
                #[trigger] kept_lines(lines, start, end, in_block)[k],
                start,
            ) && !contains(kept_lines(lines, start, end, in_block)[k], end),
    decreases lines.len(),
{
    if lines.len() > 0 {
        lemma_kept_clean(lines.skip(1), start, end, true);
        lemma_kept_clean(lines.skip(1), start, end, false);
        let kept = kept_lines(lines, start, end, in_block);
        let tail = kept_lines(lines.skip(1), start, end, false);
        let open = kept_lines(lines.skip(1), start, end, true);
        assert forall|k: int| 0 <= k < kept.len() implies !contains(#[trigger] kept[k], start)
            && !contains(kept[k], end) by {
            if contains(lines[0], start) {
                assert(kept[k] == open[k]);
            } else if contains(lines[0], end) {
                assert(kept[k] == tail[k]);
            } else if in_block {
                assert(kept[k] == open[k]);
            } else if k > 0 {
                assert(kept[k] == tail[k - 1]);
            } else {
                assert(kept[k] == lines[0]);
            }
        }
    }
}

/// Collapsing the end of a text leaves a beginning of it.
pub proof fn lemma_collapse_is_prefix(text: Seq<char>)
    ensures
        collapse_tail(text).len() <= text.len(),
        collapse_tail(text) == text.take(collapse_tail(text).len() as int),
    decreases text.len(),
{
    if text.len() >= 2 && text[text.len() - 1] == '\n' && text[text.len() - 2] == '\n' {
        lemma_collapse_is_prefix(text.drop_last());
        let n = collapse_tail(text).len() as int;
        assert(text.drop_last().take(n) =~= text.take(n));
    } else {
        assert(text.take(text.len() as int) =~= text);
    }
}

/// The text without its blocks holds neither sentinel, where each sentinel
/// is one line and not empty.
pub proof fn lemma_stripped_holds_no_sentinel(
    content: Seq<char>,
    start: Seq<char>,
    end: Seq<char>,
)
    requires
        start.len() > 0,
        end.len() > 0,
        one_line(start),
        one_line(end),
    ensures
        !contains(strip_blocks(content, start, end), start),
        !contains(strip_blocks(content, start, end), end),
{
    let kept = kept_lines(lines_of(content), start, end, false);
    let joined = join_lines(kept);
    lemma_collapse_is_prefix(joined);
    lemma_kept_clean(lines_of(content), start, end, false);
    let n = collapse_tail(joined).len() as int;
    if contains(strip_blocks(content, start, end), start) {
        lemma_contains_in_prefix(joined, n, start);
        lemma_join_contains(kept, start);
    }
    if contains(strip_blocks(content, start, end), end) {
        lemma_contains_in_prefix(joined, n, end);
        lemma_join_contains(kept, end);
    }
}

/// The two sentinels are one line each and not empty.
pub proof fn lemma_sentinels_are_lines()
    ensures
        MARKER_START@.len() == 25,
        MARKER_END@.len() == 23,
        one_line(MARKER_START@),
        one_line(MARKER_END@),
{
    reveal_strlit("# === FOCUSLOCK START ===");
    reveal_strlit("# === FOCUSLOCK END ===");
}

/// Once the block is taken out, the file holds neither sentinel: it does not
/// count as blocked, and no remnant of the block is left.
pub proof fn lemma_unblocked_holds_no_block(content: Seq<char>)
    ensures
        !has_block(unblocked(content)),
        !contains(unblocked(content), MARKER_END@),
{
    lemma_sentinels_are_lines();
    lemma_stripped_holds_no_sentinel(content, MARKER_START@, MARKER_END@);
}

/// Once the block is put in, the file counts as blocked.
pub proof fn lemma_blocked_holds_block(content: Seq<char>)
    ensures
        has_block(blocked(content)),
{
    let base = block_base(content);
    let lines = block_lines(MARKER_START@, MARKER_END@, blocked_domains());
    let tail = join_lines(lines.skip(1));
    assert(lines[0] == MARKER_START@);
    let text = blocked(content);
    assert(text =~= base + seq!['\n'] + MARKER_START@ + seq!['\n'] + tail);
    let at: int = base.len() as int + 1;
    assert(text.subrange(at, at + MARKER_START@.len()) =~= MARKER_START@);
    assert(occurs_at(text, MARKER_START@, at));
}

/// `line` ends in a carriage return.
pub open spec fn ends_in_cr(line: Seq<char>) -> bool {
    line.len() > 0 && line.last() == '\r'
}

/// Each of `lines` is one line and does not end in a carriage return.
pub open spec fn plain_lines(lines: Seq<Seq<char>>) -> bool {
    forall|k: int| 0 <= k < lines.len() ==> one_line(#[trigger] lines[k]) && !ends_in_cr(lines[k])
}

/// None of `lines` holds `start` or `end`.
pub open spec fn clean_lines(lines: Seq<Seq<char>>, start: Seq<char>, end: Seq<char>) -> bool {
    forall|k: int|
        0 <= k < lines.len() ==> !contains(#[trigger] lines[k], start) && !contains(lines[k], end)
}

/// `lines` without the empty lines at its end, but for one where all are
/// empty.
pub open spec fn trim_lines(lines: Seq<Seq<char>>) -> Seq<Seq<char>>
    decreases lines.len(),
{
    if lines.len() >= 2 && lines.last().len() == 0 {
        trim_lines(lines.drop_last())
    } else {
        lines
    }
}

/// The lines of a text joined from plain lines are those lines.
pub proof fn lemma_lines_of_join(lines: Seq<Seq<char>>)
    requires
        plain_lines(lines),
    ensures
        lines_of(join_lines(lines)) == lines,
    decreases lines.len(),
{
    let text = join_lines(lines);
    if lines.len() == 0 {
        assert(lines_of(text) =~= lines);
    } else {
        let head = lines[0];
        let rest = join_lines(lines.skip(1));
        let first = head + seq!['\n'];
        assert(text =~= first + rest);
        assert(one_line(head));
        assert forall|j: int| 0 <= j < head.len() implies text[j] != '\n' by {
            assert(text[j] == head[j]);
        }
        assert(text[head.len() as int] == '\n');
        lemma_line_end(text, 0, head.len() as int);
        assert(text.subrange(0, head.len() as int) =~= head);
        assert(strip_cr(head) == head);
        assert(plain_lines(lines.skip(1))) by {
            assert forall|k: int| 0 <= k < lines.skip(1).len() implies one_line(
                #[trigger] lines.skip(1)[k],
            ) && !ends_in_cr(lines.skip(1)[k]) by {
                assert(lines.skip(1)[k] == lines[k + 1]);
            }
        }
        lemma_lines_of_join(lines.skip(1));
        lemma_lines_from_shift(first, rest, 0);
        assert(lines_from(text, head.len() as int + 1) == lines.skip(1));
        assert(lines_of(text) =~= seq![head] + lines.skip(1));
        assert(seq![head] + lines.skip(1) =~= lines);
    }
}

/// Every line that is kept is one of the lines.
pub proof fn lemma_kept_are_lines(
    lines: Seq<Seq<char>>,
    start: Seq<char>,
    end: Seq<char>,
    in_block: bool,
)
    ensures
        forall|k: int|
            0 <= k < kept_lines(lines, start, end, in_block).len() ==> exists|j: int|
                0 <= j < lines.len() && lines[j] == #[trigger] kept_lines(
                    lines,
                    start,
                    end,
                    in_block,
                )[k],
    decreases lines.len(),
{
    if lines.len() > 0 {
        lemma_kept_are_lines(lines.skip(1), start, end, true);
        lemma_kept_are_lines(lines.skip(1), start, end, false);
        let kept = kept_lines(lines, start, end, in_block);
        let open = kept_lines(lines.skip(1), start, end, true);
        let tail = kept_lines(lines.skip(1), start, end, false);
        assert forall|k: int| 0 <= k < kept.len() implies exists|j: int|
            0 <= j < lines.len() && lines[j] == #[trigger] kept[k] by {
            if contains(lines[0], start) || (!contains(lines[0], end) && in_block) {
                assert(kept[k] == open[k]);
                let j = choose|j: int| 0 <= j < lines.skip(1).len() && lines.skip(1)[j] == open[k];
                assert(lines[j + 1] == kept[k]);
            } else if contains(lines[0], end) {
                assert(kept[k] == tail[k]);
                let j = choose|j: int| 0 <= j < lines.skip(1).len() && lines.skip(1)[j] == tail[k];
                assert(lines[j + 1] == kept[k]);
            } else if k > 0 {
                assert(kept[k] == tail[k - 1]);
                let j = choose|j: int|
                    0 <= j < lines.skip(1).len() && lines.skip(1)[j] == tail[k - 1];
                assert(lines[j + 1] == kept[k]);
            } else {
                assert(lines[0] == kept[k]);
            }
        }
    }
}

/// Lines of which none holds a sentinel are all kept.
pub proof fn lemma_clean_lines_are_kept(lines: Seq<Seq<char>>, start: Seq<char>, end: Seq<char>)
    requires
        clean_lines(lines, start, end),
    ensures
        kept_lines(lines, start, end, false) == lines,
    decreases lines.len(),
{
    if lines.len() == 0 {
        assert(kept_lines(lines, start, end, false) =~= lines);
    } else {
        assert(!contains(lines[0], start) && !contains(lines[0], end));
        assert(clean_lines(lines.skip(1), start, end)) by {
            assert forall|k: int| 0 <= k < lines.skip(1).len() implies !contains(
                #[trigger] lines.skip(1)[k],
                start,
            ) && !contains(lines.skip(1)[k], end) by {
                assert(lines.skip(1)[k] == lines[k + 1]);
            }
        }
        lemma_clean_lines_are_kept(lines.skip(1), start, end);
        assert(seq![lines[0]] + lines.skip(1) =~= lines);
    }
}

/// A text joined from lines, of which there is one at least, ends in a line
/// feed.
pub proof fn lemma_join_ends_in_line_feed(lines: Seq<Seq<char>>)
    requires
        lines.len() > 0,
    ensures
        join_lines(lines).len() > 0,
        join_lines(lines).last() == '\n',
    decreases lines.len(),
{
    if lines.len() > 1 {
        lemma_join_ends_in_line_feed(lines.skip(1));
    } else {
        lemma_join_one(lines[0]);
        assert(lines =~= seq![lines[0]]);
    }
}

/// A text joined from lines is the text joined from all but the last, then
/// the last line and a line feed.
pub proof fn lemma_join_last(lines: Seq<Seq<char>>)
    requires
        lines.len() > 0,
    ensures
        join_lines(lines) == join_lines(lines.drop_last()) + lines.last() + seq!['\n'],
{
    lemma_join_concat(lines.drop_last(), seq![lines.last()]);
    lemma_join_one(lines.last());
    assert(lines.drop_last() + seq![lines.last()] =~= lines);
    assert(join_lines(lines.drop_last()) + (lines.last() + seq!['\n']) =~= join_lines(
        lines.drop_last(),
    ) + lines.last() + seq!['\n']);
}

/// Collapsing the end of a text joined from lines takes off the empty lines
/// at the end.
pub proof fn lemma_collapse_join(lines: Seq<Seq<char>>)
    requires
        forall|k: int| 0 <= k < lines.len() ==> one_line(#[trigger] lines[k]),
    ensures
        collapse_tail(join_lines(lines)) == join_lines(trim_lines(lines)),
    decreases lines.len(),
{
    let text = join_lines(lines);
    if lines.len() > 0 {
        lemma_join_last(lines);
        let last = lines.last();
        let before = join_lines(lines.drop_last());
        assert(text == before + last + seq!['\n']);
        assert(text[text.len() - 1] == '\n');
        if last.len() > 0 {
            assert(one_line(last));
            assert(text[text.len() - 2] == last[last.len() - 1]);
        } else if lines.len() >= 2 {
            lemma_join_ends_in_line_feed(lines.drop_last());
            assert(text[text.len() - 2] == before[before.len() - 1]);
            assert(text.drop_last() =~= before);
            assert forall|k: int| 0 <= k < lines.drop_last().len() implies one_line(
                #[trigger] lines.drop_last()[k],
            ) by {
                assert(lines.drop_last()[k] == lines[k]);
            }
            lemma_collapse_join(lines.drop_last());
        } else {
            assert(lines.drop_last().len() == 0);
            assert(text.len() == 1);
        }
    }
}

/// What remains of lines after the empty ones at the end are taken off is a
/// beginning of them, and has no more such lines to take off.
pub proof fn lemma_trim_lines(lines: Seq<Seq<char>>)
    ensures
        trim_lines(lines).len() <= lines.len(),
        trim_lines(lines) == lines.take(trim_lines(lines).len() as int),
        trim_lines(trim_lines(lines)) == trim_lines(lines),
    decreases lines.len(),
{
    if lines.len() >= 2 && lines.last().len() == 0 {
        lemma_trim_lines(lines.drop_last());
        let n = trim_lines(lines).len() as int;
        assert(lines.drop_last().take(n) =~= lines.take(n));
    } else {
        assert(lines.take(lines.len() as int) =~= lines);
    }
}

/// Taking the block out a second time changes nothing, where none of the
/// lines that the first time keeps ends in a carriage return. (Such a line
/// loses that carriage return the second time: the first writes it before
/// the line feed, where the second reads the two as the end of the line.)
pub proof fn lemma_strip_blocks_twice(content: Seq<char>, start: Seq<char>, end: Seq<char>)
    requires
        forall|k: int|
            0 <= k < kept_lines(lines_of(content), start, end, false).len() ==> !ends_in_cr(
                #[trigger] kept_lines(lines_of(content), start, end, false)[k],
            ),
    ensures
        strip_blocks(strip_blocks(content, start, end), start, end) == strip_blocks(
            content,
            start,
            end,
        ),
{
    let lines = lines_of(content);
    let kept = kept_lines(lines, start, end, false);
    let trimmed = trim_lines(kept);
    lemma_lines_are_pieces(content);
    lemma_kept_are_lines(lines, start, end, false);
    lemma_kept_clean(lines, start, end, false);
    assert forall|k: int| 0 <= k < kept.len() implies one_line(#[trigger] kept[k]) by {
        let j = choose|j: int| 0 <= j < lines.len() && lines[j] == kept[k];
        assert(one_line(lines[j]));
    }
    lemma_collapse_join(kept);
    lemma_trim_lines(kept);
    assert forall|k: int| 0 <= k < trimmed.len() implies one_line(#[trigger] trimmed[k])
        && !ends_in_cr(trimmed[k]) && !contains(trimmed[k], start) && !contains(
        trimmed[k],
        end,
    ) by {
        assert(trimmed[k] == kept[k]);
    }
    lemma_lines_of_join(trimmed);
    lemma_clean_lines_are_kept(trimmed, start, end);
    lemma_collapse_join(trimmed);
}

/// Once the block is taken out, the lines of the file are the lines that
/// stood outside a block, without the empty ones at the end, where none of
/// them ends in a carriage return.
pub proof fn lemma_unblocked_lines(content: Seq<char>)
    requires
        forall|k: int|
            0 <= k < kept_lines(lines_of(content), MARKER_START@, MARKER_END@, false).len()
                ==> !ends_in_cr(
                #[trigger] kept_lines(lines_of(content), MARKER_START@, MARKER_END@, false)[k],
            ),
    ensures
        lines_of(unblocked(content)) == trim_lines(
            kept_lines(lines_of(content), MARKER_START@, MARKER_END@, false),
        ),
{
    let lines = lines_of(content);
    let kept = kept_lines(lines, MARKER_START@, MARKER_END@, false);
    let trimmed = trim_lines(kept);
    lemma_lines_are_pieces(content);
    lemma_kept_are_lines(lines, MARKER_START@, MARKER_END@, false);
    assert forall|k: int| 0 <= k < kept.len() implies one_line(#[trigger] kept[k]) by {
        let j = choose|j: int| 0 <= j < lines.len() && lines[j] == kept[k];
        assert(one_line(lines[j]));
    }
    lemma_collapse_join(kept);
    lemma_trim_lines(kept);
    assert forall|k: int| 0 <= k < trimmed.len() implies one_line(#[trigger] trimmed[k])
        && !ends_in_cr(trimmed[k]) by {
        assert(trimmed[k] == kept[k]);
    }
    lemma_lines_of_join(trimmed);
}

/// Taking the block out of the hosts file a second time changes nothing,
/// where none of the lines that the first time keeps ends in a carriage
/// return.
pub proof fn lemma_unblock_twice(content: Seq<char>)
    requires
        forall|k: int|
            0 <= k < kept_lines(lines_of(content), MARKER_START@, MARKER_END@, false).len()
                ==> !ends_in_cr(
                #[trigger] kept_lines(lines_of(content), MARKER_START@, MARKER_END@, false)[k],
            ),
    ensures
        unblocked(unblocked(content)) == unblocked(content),
{
    lemma_strip_blocks_twice(content, MARKER_START@, MARKER_END@);
}

/// Neither a line feed, nor a carriage return, nor a number sign stands in
/// `text`.
pub open spec fn plain_text(text: Seq<char>) -> bool {
    forall|i: int| 0 <= i < text.len() ==> text[i] != '\n' && text[i] != '\r' && text[i] != '#'
}

/// How many of `lines` hold `pat`.
pub open spec fn count_with(lines: Seq<Seq<char>>, pat: Seq<char>) -> nat
    decreases lines.len(),
{
    if lines.len() == 0 {
        0
    } else {
        count_with(lines.drop_last(), pat) + if contains(lines.last(), pat) {
            1nat
        } else {
            0nat
        }
    }
}

/// The blocked domains and what stands before them in a line are plain
/// text.
pub proof fn lemma_catalog_is_plain()
    ensures
        plain_text(REDIRECT_PREFIX@),
        forall|k: int|
            0 <= k < blocked_domains().len() ==> plain_text(#[trigger] blocked_domains()[k]),
{
    reveal_strlit("127.0.0.1 ");
    reveal_strlit("www.youtube.com");
    reveal_strlit("youtube.com");
    reveal_strlit("m.youtube.com");
    reveal_strlit("youtu.be");
    reveal_strlit("www.youtube-nocookie.com");
    reveal_strlit("youtube-nocookie.com");
    reveal_strlit("youtubei.googleapis.com");
    reveal_strlit("yt3.ggpht.com");
    reveal_strlit("music.youtube.com");
    reveal_strlit("studio.youtube.com");
    reveal_strlit("chzzk.naver.com");
    reveal_strlit("api.chzzk.naver.com");
    reveal_strlit("live.chzzk.naver.com");
    reveal_strlit("m.chzzk.naver.com");
    reveal_strlit("www.instagram.com");
    reveal_strlit("instagram.com");
    reveal_strlit("i.instagram.com");
    reveal_strlit("graph.instagram.com");
    reveal_strlit("api.instagram.com");
    reveal_strlit("l.instagram.com");
    reveal_strlit("static.cdninstagram.com");
    reveal_strlit("scontent.cdninstagram.com");
    reveal_strlit("www.leagueoflegends.com");
    reveal_strlit("leagueoflegends.com");
    reveal_strlit("signup.leagueoflegends.com");
    reveal_strlit("authenticate.riotgames.com");
    reveal_strlit("www.op.gg");
    reveal_strlit("op.gg");
    reveal_strlit("www.fow.kr");
    reveal_strlit("fow.kr");
}

/// Counting over two runs of lines adds up.
pub proof fn lemma_count_concat(a: Seq<Seq<char>>, b: Seq<Seq<char>>, pat: Seq<char>)
    ensures
        count_with(a + b, pat) == count_with(a, pat) + count_with(b, pat),
    decreases b.len(),
{
    if b.len() == 0 {
        assert(a + b =~= a);
    } else {
        lemma_count_concat(a, b.drop_last(), pat);
        assert((a + b).drop_last() =~= a + b.drop_last());
    }
}

/// Where none of the lines holds the pattern, none is counted.
pub proof fn lemma_count_none(lines: Seq<Seq<char>>, pat: Seq<char>)
    requires
        forall|k: int| 0 <= k < lines.len() ==> !contains(#[trigger] lines[k], pat),
    ensures
        count_with(lines, pat) == 0,
    decreases lines.len(),
{
    if lines.len() > 0 {
        assert forall|k: int| 0 <= k < lines.drop_last().len() implies !contains(
            #[trigger] lines.drop_last()[k],
            pat,
        ) by {
            assert(lines.drop_last()[k] == lines[k]);
        }
        lemma_count_none(lines.drop_last(), pat);
    }
}

/// One line counts once if it holds the pattern, else not at all.
pub proof fn lemma_count_one(line: Seq<char>, pat: Seq<char>)
    ensures
        count_with(seq![line], pat) == if contains(line, pat) {
            1nat
        } else {
            0nat
        },
{
    assert(seq![line].drop_last() =~= Seq::<Seq<char>>::empty());
    reveal_with_fuel(count_with, 2);
}

/// A pattern that begins with a number sign stands in no plain text.
pub proof fn lemma_plain_text_holds_no_sentinel(text: Seq<char>, pat: Seq<char>)
    requires
        plain_text(text),
        pat.len() > 0,
        pat[0] == '#',
    ensures
        !contains(text, pat),
{
    if contains(text, pat) {
        let at = choose|at: int| occurs_at(text, pat, at);
        assert(text.subrange(at, at + pat.len())[0] == text[at]);
    }
}

/// A text holds itself.
pub proof fn lemma_contains_itself(text: Seq<char>)
    ensures
        contains(text, text),
{
    assert(text.subrange(0, text.len() as int) =~= text);
    assert(occurs_at(text, text, 0));
}

/// Neither sentinel stands in the other.
pub proof fn lemma_sentinels_differ()
    ensures
        !contains(MARKER_START@, MARKER_END@),
        !contains(MARKER_END@, MARKER_START@),
{
    reveal_strlit("# === FOCUSLOCK START ===");
    reveal_strlit("# === FOCUSLOCK END ===");
    let start = MARKER_START@;
    let end = MARKER_END@;
    if contains(start, end) {
        let at = choose|at: int| occurs_at(start, end, at);
        assert(start.subrange(at, at + end.len())[0] == start[at]);
        assert(at == 0);
        assert(start.subrange(at, at + end.len())[16] == start[16]);
    }
    if contains(end, start) {
        let at = choose|at: int| occurs_at(end, start, at);
    }
}

/// The lines of the block are plain, and one of them holds the opening
/// sentinel and one the closing sentinel.
pub proof fn lemma_block_lines()
    ensures
        plain_lines(block_lines(MARKER_START@, MARKER_END@, blocked_domains())),
        count_with(block_lines(MARKER_START@, MARKER_END@, blocked_domains()), MARKER_START@) == 1,
        count_with(block_lines(MARKER_START@, MARKER_END@, blocked_domains()), MARKER_END@) == 1,
{
    reveal_strlit("# === FOCUSLOCK START ===");
    reveal_strlit("# === FOCUSLOCK END ===");
    lemma_catalog_is_plain();
    lemma_sentinels_differ();
    let start = MARKER_START@;
    let end = MARKER_END@;
    let prefix = REDIRECT_PREFIX@;
    let middle = redirects(blocked_domains());
    let lines = block_lines(start, end, blocked_domains());
    assert forall|k: int| 0 <= k < middle.len() implies plain_text(#[trigger] middle[k]) by {
        let domain = blocked_domains()[k];
        assert(plain_text(domain));
        assert forall|i: int| 0 <= i < middle[k].len() implies middle[k][i] != '\n' && middle[k][i]
            != '\r' && middle[k][i] != '#' by {
            if i < prefix.len() {
                assert(middle[k][i] == prefix[i]);
            } else {
                assert(middle[k][i] == domain[i - prefix.len()]);
            }
        }
    }
    assert forall|k: int| 0 <= k < middle.len() implies !contains(#[trigger] middle[k], start)
        && !contains(middle[k], end) by {
        assert(plain_text(middle[k]));
        lemma_plain_text_holds_no_sentinel(middle[k], start);
        lemma_plain_text_holds_no_sentinel(middle[k], end);
    }
    assert(plain_lines(lines)) by {
        assert forall|k: int| 0 <= k < lines.len() implies one_line(#[trigger] lines[k])
            && !ends_in_cr(lines[k]) by {
            if k == 0 {
                assert(lines[k] == start);
            } else if k <= middle.len() {
                assert(lines[k] == middle[k - 1]);
                assert(plain_text(middle[k - 1]));
            } else {
                assert(lines[k] == end);
            }
        }
    }
    lemma_contains_itself(start);
    lemma_contains_itself(end);
    lemma_count_one(start, start);
    lemma_count_one(start, end);
    lemma_count_one(end, start);
    lemma_count_one(end, end);
    lemma_count_none(middle, start);
    lemma_count_none(middle, end);
    lemma_count_concat(seq![start], middle, start);
    lemma_count_concat(seq![start], middle, end);
    lemma_count_concat(seq![start] + middle, seq![end], start);
    lemma_count_concat(seq![start] + middle, seq![end], end);
}

/// The lines of a file with the block added are the lines of what was there,
/// ended by a line feed, and then the lines of the block.
pub proof fn lemma_lines_after_block(base: Seq<char>)
    ensures
        lines_of(base + block_entries()) == lines_of(base + seq!['\n']) + block_lines(
            MARKER_START@,
            MARKER_END@,
            blocked_domains(),
        ),
{
    let lines = block_lines(MARKER_START@, MARKER_END@, blocked_domains());
    let first = base + seq!['\n'];
    let second = join_lines(lines);
    lemma_block_lines();
    assert(base + block_entries() =~= first + second);
    lemma_lines_of_concat(first, second);
    lemma_lines_of_join(lines);
}

/// Once the block is put in, the lines of the file are the lines of what the
/// block was added to, with a line feed after it, and then the opening
/// sentinel, one redirection for each blocked domain in the order of the
/// catalog, and the closing sentinel.
pub proof fn lemma_blocked_ends_in_block(content: Seq<char>)
    ensures
        lines_of(blocked(content)) == lines_of(block_base(content) + seq!['\n']) + block_lines(
            MARKER_START@,
            MARKER_END@,
            blocked_domains(),
        ),
{
    lemma_lines_after_block(block_base(content));
}

/// Where a pattern of one line, not empty, does not stand in a file, the
/// file with the block added holds it in as many lines as the block does.
pub proof fn lemma_count_after_block(base: Seq<char>, pat: Seq<char>)
    requires
        pat.len() > 0,
        one_line(pat),
        !contains(base, pat),
    ensures
        count_with(lines_of(base + block_entries()), pat) == count_with(
            block_lines(MARKER_START@, MARKER_END@, blocked_domains()),
            pat,
        ),
{
    let lines = block_lines(MARKER_START@, MARKER_END@, blocked_domains());
    let first = base + seq!['\n'];
    lemma_block_lines();
    lemma_lines_after_block(base);
    lemma_lines_are_pieces(first);
    assert forall|k: int| 0 <= k < lines_of(first).len() implies !contains(
        #[trigger] lines_of(first)[k],
        pat,
    ) by {
        if contains(lines_of(first)[k], pat) {
            lemma_piece_contains(lines_of(first)[k], first, pat);
            let at = choose|at: int| occurs_at(first, pat, at);
            if at + pat.len() <= base.len() {
                assert(base.subrange(at, at + pat.len()) =~= first.subrange(at, at + pat.len()));
                assert(occurs_at(base, pat, at));
            } else {
                let last = pat.len() - 1;
                assert(first.subrange(at, at + pat.len())[last] == first[base.len() as int]);
                assert(pat[pat.len() - 1] == '\n');
            }
        }
    }
    lemma_count_none(lines_of(first), pat);
    lemma_count_concat(lines_of(first), lines, pat);
}

/// Once the block is put in, one line of the file holds the opening
/// sentinel, whatever the file held before. Where the file did not hold the
/// closing sentinel outside a block, one line holds that too.
pub proof fn lemma_block_leaves_one_opening(content: Seq<char>)
    ensures
        count_with(lines_of(blocked(content)), MARKER_START@) == 1,
        has_block(content) || !contains(content, MARKER_END@) ==> count_with(
            lines_of(blocked(content)),
            MARKER_END@,
        ) == 1,
{
    lemma_sentinels_are_lines();
    lemma_block_lines();
    lemma_unblocked_holds_no_block(content);
    let base = block_base(content);
    lemma_count_after_block(base, MARKER_START@);
    if has_block(content) || !contains(content, MARKER_END@) {
        lemma_count_after_block(base, MARKER_END@);
    }
}

/// Putting the block in twice in a row leaves one pair of sentinels: one line
/// of the file holds the opening sentinel and one the closing sentinel.
pub proof fn lemma_block_twice_leaves_one_pair(content: Seq<char>)
    ensures
        count_with(lines_of(blocked(blocked(content))), MARKER_START@) == 1,
        count_with(lines_of(blocked(blocked(content))), MARKER_END@) == 1,
{
    lemma_blocked_holds_block(content);
    lemma_block_leaves_one_opening(blocked(content));
}

} // verus!
