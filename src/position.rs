//! Mapping a character offset in a text to a line and column.
use vstd::prelude::*;

use crate::text::{chars_of, lemma_split_nonempty, split_on};

verus! {

/// A line without its `\r` terminator, if any.
pub open spec fn strip_cr(l: Seq<char>) -> Seq<char> {
    if l.len() > 0 && l.last() == '\r' {
        l.drop_last()
    } else {
        l
    }
}

/// The lines of a text as `str::lines` yields them: split at `\n`, without
/// a final empty line, each without a trailing `\r`.
pub open spec fn text_lines(s: Seq<char>) -> Seq<Seq<char>> {
    let segs = split_on(s, '\n');
    let whole = if segs.last().len() == 0 {
        segs.drop_last()
    } else {
        segs
    };
    whole.map_values(|l: Seq<char>| strip_cr(l))
}

/// The (line, column) of offset `start` when scanning from line `k`, whose
/// first character has offset `total`: the first line whose span (its
/// characters and the position after its last one) holds the offset; line
/// numbers count from 1, the column is the offset within the line; past the
/// last line, the line count and 0.
pub open spec fn position_from(lines: Seq<Seq<char>>, k: int, total: int, start: int) -> (
    int,
    int,
)
    decreases lines.len() - k,
{
    if k >= lines.len() || k < 0 {
        (lines.len() as int, 0)
    } else if total <= start <= total + lines[k].len() {
        (k + 1, start - total)
    } else {
        position_from(lines, k + 1, total + lines[k].len() + 1, start)
    }
}

/// Once the scan is past the offset, no later line holds it.
proof fn lemma_past_offset(lines: Seq<Seq<char>>, k: int, total: int, start: int)
    requires
        total > start,
        k >= 0,
    ensures
        position_from(lines, k, total, start) == (lines.len() as int, 0int),
    decreases lines.len() - k,
{
    if k < lines.len() {
        lemma_past_offset(lines, k + 1, total + lines[k].len() + 1, start);
    }
}

/// The (line, column) of an offset in a text.
pub open spec fn position_spec(text: Seq<char>, start: int) -> (int, int) {
    position_from(text_lines(text), 0, 0, start)
}

fn line_lengths(cs: &Vec<char>) -> (r: Vec<usize>)
    ensures
        r@.len() == text_lines(cs@).len(),
        forall|k: int| 0 <= k < r@.len() ==> r@[k] == text_lines(cs@)[k].len(),
{
    let mut lens: Vec<usize> = Vec::new();
    let mut start: usize = 0;
    let mut i: usize = 0;
    assert(cs@.subrange(0, 0) =~= Seq::<char>::empty());
    while i < cs.len()
        invariant
            start <= i <= cs@.len(),
            split_on(cs@.subrange(0, i as int), '\n').len() == lens@.len() + 1,
            split_on(cs@.subrange(0, i as int), '\n').last() == cs@.subrange(
                start as int,
                i as int,
            ),
            forall|k: int|
                0 <= k < lens@.len() ==> lens@[k] == strip_cr(
                    split_on(cs@.subrange(0, i as int), '\n')[k],
                ).len(),
        decreases cs@.len() - i,
    {
        let c = cs[i];
        let ghost prefix = cs@.subrange(0, i + 1);
        let ghost old_split = split_on(cs@.subrange(0, i as int), '\n');
        assert(prefix.drop_last() =~= cs@.subrange(0, i as int));
        assert(prefix.last() == c);
        proof {
            lemma_split_nonempty(cs@.subrange(0, i as int), '\n');
        }
        if c == '\n' {
            let len = if i > start && cs[i - 1] == '\r' {
                i - 1 - start
            } else {
                i - start
            };
            let ghost seg = cs@.subrange(start as int, i as int);
            assert(len == strip_cr(seg).len());
            lens.push(len);
            i = i + 1;
            start = i;
            assert(cs@.subrange(start as int, i as int) =~= Seq::<char>::empty());
        } else {
            i = i + 1;
            assert(cs@.subrange(start as int, i as int) =~= cs@.subrange(
                start as int,
                i - 1 as int,
            ).push(c));
        }
    }
    assert(cs@.subrange(0, cs@.len() as int) =~= cs@);
    proof {
        lemma_split_nonempty(cs@, '\n');
    }
    if start < cs.len() {
        let len = if cs[cs.len() - 1] == '\r' {
            cs.len() - 1 - start
        } else {
            cs.len() - start
        };
        lens.push(len);
    }
    lens
}

/// The 1-based line and the 0-based column (in characters) of the character
/// offset `rang.start` in `text`; past the end, the number of lines and 0.
pub fn get_range_position(text: &str, rang: std::ops::Range<usize>) -> (r: (usize, usize))
    ensures
        (r.0 as int, r.1 as int) == position_spec(text@, rang.start as int),
{
    let cs = chars_of(text);
    let lens = line_lengths(&cs);
    let ghost lines = text_lines(text@);
    let start = rang.start;
    let mut ln: usize = 0;
    let mut total: usize = 0;
    while ln < lens.len()
        invariant
            lens@.len() == lines.len(),
            forall|k: int| 0 <= k < lens@.len() ==> lens@[k] == lines[k].len(),
            ln <= lens@.len(),
            start == rang.start,
            position_from(lines, ln as int, total as int, start as int) == position_spec(
                text@,
                start as int,
            ),
        decreases lens@.len() - ln,
    {
        if total > start {
            proof {
                lemma_past_offset(lines, ln as int, total as int, start as int);
            }
            return (lens.len(), 0);
        }
        let gap = start - total;
        if gap <= lens[ln] {
            return (ln + 1, gap);
        }
        total = total + lens[ln] + 1;
        ln = ln + 1;
    }
    (ln, 0)
}

} // verus!
