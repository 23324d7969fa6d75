//! Mathematical model of a text document as a sequence of characters
//! divided into lines by `'\n'` terminators.
//!
//! A document always has at least one line: the terminators split the
//! sequence, so an empty document has exactly one empty line, and a
//! document ending in `'\n'` has a final empty line after it.

use vstd::prelude::*;

verus! {

/// Number of `'\n'` characters among the first `end` characters of `s`.
pub open spec fn newlines_up_to(s: Seq<char>, end: int) -> nat
    decreases end,
{
    if end <= 0 {
        0
    } else {
        newlines_up_to(s, end - 1) + (if 0 <= end - 1 < s.len() && s[end - 1] == '\n' {
            1nat
        } else {
            0nat
        })
    }
}

/// Total number of lines: one more than the number of terminators.
pub open spec fn line_count(s: Seq<char>) -> nat {
    newlines_up_to(s, s.len() as int) + 1
}

/// Index of the line containing offset `off` (for `off == s.len()`,
/// the last line).
pub open spec fn line_of(s: Seq<char>, off: int) -> nat {
    newlines_up_to(s, off)
}

/// Offset of the first `'\n'` at or after `from`, or `s.len()` if none.
pub open spec fn next_break(s: Seq<char>, from: int) -> int
    decreases s.len() - from,
{
    if from < 0 || from >= s.len() {
        s.len() as int
    } else if s[from] == '\n' {
        from
    } else {
        next_break(s, from + 1)
    }
}

/// Offset of the first character of line `line` (equals `s.len()` for
/// `line == line_count(s)`, one past the last line).
pub open spec fn line_start(s: Seq<char>, line: nat) -> int
    decreases line,
{
    if line == 0 {
        0
    } else {
        let e = next_break(s, line_start(s, (line - 1) as nat));
        if e < s.len() {
            e + 1
        } else {
            s.len() as int
        }
    }
}

/// Offset one past the last character of line `line`, excluding its
/// terminator.
pub open spec fn line_end(s: Seq<char>, line: nat) -> int {
    next_break(s, line_start(s, line))
}

/// Character count of line `line`, excluding its terminator.
pub open spec fn line_len(s: Seq<char>, line: nat) -> nat {
    (line_end(s, line) - line_start(s, line)) as nat
}

/// Content of line `line`, including its terminator if it has one.
pub open spec fn line_seg(s: Seq<char>, line: nat) -> Seq<char> {
    s.subrange(line_start(s, line), line_start(s, (line + 1) as nat))
}

/// The text after inserting `ins` at offset `off`.
pub open spec fn spliced(s: Seq<char>, off: int, ins: Seq<char>) -> Seq<char> {
    s.subrange(0, off) + ins + s.subrange(off, s.len() as int)
}

/// The text after removing the half-open range `[start, end)`.
pub open spec fn removed(s: Seq<char>, start: int, end: int) -> Seq<char> {
    s.subrange(0, start) + s.subrange(end, s.len() as int)
}

/// Counting newlines never decreases as the prefix grows.
pub proof fn lemma_newlines_monotone(s: Seq<char>, a: int, b: int)
    requires
        a <= b,
    ensures
        newlines_up_to(s, a) <= newlines_up_to(s, b),
    decreases b - a,
{
    if a < b {
        lemma_newlines_monotone(s, a, b - 1);
    }
}

/// A stretch without terminators adds no newlines to the count.
pub proof fn lemma_newlines_flat(s: Seq<char>, a: int, b: int)
    requires
        0 <= a <= b <= s.len(),
        forall|i: int| a <= i < b ==> s[i] != '\n',
    ensures
        newlines_up_to(s, b) == newlines_up_to(s, a),
    decreases b - a,
{
    if a < b {
        lemma_newlines_flat(s, a, b - 1);
    }
}

/// `next_break` lands on the first terminator at or after `from`.
pub proof fn lemma_next_break(s: Seq<char>, from: int)
    requires
        0 <= from <= s.len(),
    ensures
        from <= next_break(s, from) <= s.len(),
        next_break(s, from) < s.len() ==> s[next_break(s, from)] == '\n',
        forall|i: int| from <= i < next_break(s, from) ==> s[i] != '\n',
    decreases s.len() - from,
{
    if from < s.len() && s[from] != '\n' {
        lemma_next_break(s, from + 1);
    }
}

/// Every valid line starts within the text, right after the terminator
/// of the previous line, and exactly `line` terminators precede it.
pub proof fn lemma_line_start(s: Seq<char>, line: nat)
    requires
        line < line_count(s),
    ensures
        0 <= line_start(s, line) <= s.len(),
        newlines_up_to(s, line_start(s, line)) == line,
        line > 0 ==> line_start(s, line) > 0 && s[line_start(s, line) - 1] == '\n',
    decreases line,
{
    if line > 0 {
        let prev = (line - 1) as nat;
        lemma_line_start(s, prev);
        let ls = line_start(s, prev);
        let e = next_break(s, ls);
        lemma_next_break(s, ls);
        lemma_newlines_flat(s, ls, e);
        if e >= s.len() {
            // then the whole text holds only `prev` terminators,
            // contradicting line < line_count(s)
            assert(newlines_up_to(s, s.len() as int) == prev);
            assert(false);
        }
        assert(newlines_up_to(s, e + 1) == prev + 1);
    }
}

/// The end of every valid line is within the text; it is a terminator
/// exactly when the line is not the last.
pub proof fn lemma_line_end(s: Seq<char>, line: nat)
    requires
        line < line_count(s),
    ensures
        line_start(s, line) <= line_end(s, line) <= s.len(),
        newlines_up_to(s, line_end(s, line)) == line,
        line_end(s, line) < s.len() <==> line + 1 < line_count(s),
        line_end(s, line) < s.len() ==> s[line_end(s, line)] == '\n',
{
    lemma_line_start(s, line);
    let ls = line_start(s, line);
    let e = next_break(s, ls);
    lemma_next_break(s, ls);
    lemma_newlines_flat(s, ls, e);
    if e < s.len() {
        assert(newlines_up_to(s, e + 1) == line + 1);
        lemma_newlines_monotone(s, e + 1, s.len() as int);
    } else {
        assert(newlines_up_to(s, s.len() as int) == line);
    }
}

/// Offsets from a line's start to its end (inclusive) all lie on that line.
pub proof fn lemma_line_of_range(s: Seq<char>, line: nat, off: int)
    requires
        line < line_count(s),
        line_start(s, line) <= off <= line_end(s, line),
    ensures
        line_of(s, off) == line,
{
    lemma_line_start(s, line);
    lemma_next_break(s, line_start(s, line));
    lemma_newlines_flat(s, line_start(s, line), off);
}

/// Every in-bounds offset lies on a valid line, between that line's
/// start and end.
pub proof fn lemma_off_on_line(s: Seq<char>, off: int)
    requires
        0 <= off <= s.len(),
    ensures
        line_of(s, off) < line_count(s),
        line_start(s, line_of(s, off)) <= off <= line_end(s, line_of(s, off)),
{
    let line = line_of(s, off);
    lemma_newlines_monotone(s, off, s.len() as int);
    lemma_line_start(s, line);
    let ls = line_start(s, line);
    if off < ls {
        // there would be `line` terminators before `ls` but at most
        // `line - 1` before `off`, impossible for `off < ls`
        assert(line > 0 && s[ls - 1] == '\n');
        assert(newlines_up_to(s, ls) == newlines_up_to(s, ls - 1) + 1);
        lemma_newlines_monotone(s, off, ls - 1);
        assert(false);
    }
    let e = line_end(s, line);
    lemma_line_end(s, line);
    if off > e {
        assert(newlines_up_to(s, e + 1) == line + 1);
        lemma_newlines_monotone(s, e + 1, off);
        assert(false);
    }
}

/// Sequences that agree on a prefix hold the same newlines there.
pub proof fn lemma_newlines_agree(s1: Seq<char>, s2: Seq<char>, t: int)
    requires
        0 <= t <= s1.len(),
        t <= s2.len(),
        forall|i: int| 0 <= i < t ==> s1[i] == s2[i],
    ensures
        newlines_up_to(s1, t) == newlines_up_to(s2, t),
    decreases t,
{
    if t > 0 {
        lemma_newlines_agree(s1, s2, t - 1);
    }
}

/// Counting into the second part of a concatenation adds the parts' counts.
pub proof fn lemma_newlines_concat_prefix(a: Seq<char>, b: Seq<char>, t: int)
    requires
        0 <= t <= b.len(),
    ensures
        newlines_up_to(a + b, a.len() + t) == newlines_up_to(a, a.len() as int) + newlines_up_to(
            b,
            t,
        ),
    decreases t,
{
    if t == 0 {
        lemma_newlines_agree(a + b, a, a.len() as int);
    } else {
        lemma_newlines_concat_prefix(a, b, t - 1);
        assert((a + b)[a.len() + t - 1] == b[t - 1]);
    }
}

/// Newlines beyond a cut point are the newlines of the tail.
pub proof fn lemma_newlines_skip(s: Seq<char>, k: int, t: int)
    requires
        0 <= k <= s.len(),
        0 <= t <= s.len() - k,
    ensures
        newlines_up_to(s, k + t) == newlines_up_to(s, k) + newlines_up_to(
            s.subrange(k, s.len() as int),
            t,
        ),
{
    let a = s.subrange(0, k);
    let b = s.subrange(k, s.len() as int);
    assert(a + b =~= s);
    lemma_newlines_concat_prefix(a, b, t);
    lemma_newlines_agree(a, s, k);
}

/// There are never more newlines than characters.
pub proof fn lemma_newlines_bound(s: Seq<char>, t: int)
    ensures
        newlines_up_to(s, t) <= if t >= 0 {
            t
        } else {
            0
        },
    decreases t,
{
    if t > 0 {
        lemma_newlines_bound(s, t - 1);
    }
}

/// Splicing text in adds exactly the terminators the insertion holds.
pub proof fn lemma_splice_count(s: Seq<char>, off: int, ins: Seq<char>)
    requires
        0 <= off <= s.len(),
    ensures
        line_count(spliced(s, off, ins)) == line_count(s) + newlines_up_to(
            ins,
            ins.len() as int,
        ),
{
    let s1 = spliced(s, off, ins);
    let a = s.subrange(0, off);
    let tail = s.subrange(off, s.len() as int);
    assert(s1 =~= a + (ins + tail));
    lemma_newlines_concat_prefix(a, ins + tail, (ins + tail).len() as int);
    lemma_newlines_concat_prefix(ins, tail, tail.len() as int);
    lemma_newlines_agree(ins + tail, ins, ins.len() as int);
    lemma_newlines_agree(a, s, off);
    lemma_newlines_skip(s, off, s.len() - off);
}

/// A line's start is the unique in-bounds offset preceded by `line`
/// terminators that is either the document start or sits right after a
/// terminator.
pub proof fn lemma_line_start_unique(s: Seq<char>, line: nat, x: int)
    requires
        line < line_count(s),
        0 <= x <= s.len(),
        newlines_up_to(s, x) == line,
        x == 0 || s[x - 1] == '\n',
    ensures
        x == line_start(s, line),
{
    lemma_line_start(s, line);
    let ls = line_start(s, line);
    if x < ls {
        // a terminator at ls - 1 >= x would make the counts differ
        assert(newlines_up_to(s, ls) == newlines_up_to(s, ls - 1) + 1);
        lemma_newlines_monotone(s, x, ls - 1);
        assert(false);
    }
    if x > ls {
        assert(newlines_up_to(s, x) == newlines_up_to(s, x - 1) + 1);
        lemma_newlines_monotone(s, ls, x - 1);
        assert(false);
    }
}

/// `next_break` is pinned by having no terminator before `b` and one (or
/// the document end) at `b`.
pub proof fn lemma_next_break_at(s: Seq<char>, from: int, b: int)
    requires
        0 <= from <= b <= s.len(),
        forall|i: int| from <= i < b ==> s[i] != '\n',
        b == s.len() || s[b] == '\n',
    ensures
        next_break(s, from) == b,
    decreases b - from,
{
    if from < b {
        lemma_next_break_at(s, from + 1, b);
    }
}

/// Inserting terminator-free text within a line keeps the line count and
/// every earlier offset, and lengthens exactly that line.
pub proof fn lemma_splice_in_line(s: Seq<char>, line: nat, col: nat, ins: Seq<char>)
    requires
        line < line_count(s),
        col <= line_len(s, line),
        forall|i: int| 0 <= i < ins.len() ==> ins[i] != '\n',
    ensures
        ({
            let off = line_start(s, line) + col;
            let s1 = spliced(s, off, ins);
            &&& line_count(s1) == line_count(s)
            &&& line_start(s1, line) == line_start(s, line)
            &&& line_len(s1, line) == line_len(s, line) + ins.len()
        }),
{
    lemma_line_start(s, line);
    lemma_line_end(s, line);
    lemma_next_break(s, line_start(s, line));
    let ls = line_start(s, line);
    let le = line_end(s, line);
    let off = ls + col;
    let s1 = spliced(s, off, ins);
    let a = s.subrange(0, off);
    let tail = s.subrange(off, s.len() as int);
    assert(s1 =~= a + (ins + tail));

    // the line count is unchanged: the inserted text holds no terminator
    lemma_newlines_concat_prefix(a, ins + tail, (ins + tail).len() as int);
    assert(ins + tail =~= ins + tail);
    lemma_newlines_concat_prefix(ins, tail, tail.len() as int);
    lemma_newlines_agree(ins + tail, ins, ins.len() as int);
    lemma_newlines_agree(a, s, off);
    lemma_newlines_flat(ins, 0, ins.len() as int);
    lemma_newlines_skip(s, off, s.len() - off);
    assert(newlines_up_to(s1, s1.len() as int) == newlines_up_to(s, s.len() as int));

    // the line still starts where it did
    lemma_line_of_range(s, line, off);
    lemma_newlines_agree(s1, s, ls);
    lemma_line_start_unique(s1, line, ls);

    // and ends exactly ins.len() later
    let b = le + ins.len();
    assert forall|i: int| ls <= i < b implies s1[i] != '\n' by {
        if i < off {
            assert(s1[i] == s[i]);
        } else if i < off + ins.len() {
            assert(s1[i] == ins[i - off]);
        } else {
            assert(s1[i] == s[i - ins.len()]);
            assert(off <= i - ins.len() < le);
        }
    }
    if le < s.len() {
        assert(s1[b] == s[le]);
    }
    lemma_next_break_at(s1, ls, b);
}

/// Removing the range between two in-line positions (ordered by line and
/// column) joins the two lines: earlier offsets are kept, the count drops
/// by the number of removed terminators, and the first line's new length
/// is its kept prefix plus the second line's kept suffix.
pub proof fn lemma_remove_range(s: Seq<char>, l1: nat, c1: nat, l2: nat, c2: nat)
    requires
        l1 <= l2 < line_count(s),
        c1 <= line_len(s, l1),
        c2 <= line_len(s, l2),
        l1 == l2 ==> c1 <= c2,
    ensures
        ({
            let off1 = line_start(s, l1) + c1;
            let off2 = line_start(s, l2) + c2;
            let s1 = removed(s, off1, off2);
            &&& 0 <= off1 <= off2 <= s.len()
            &&& line_count(s1) == line_count(s) - (l2 - l1)
            &&& line_start(s1, l1) == line_start(s, l1)
            &&& line_len(s1, l1) == c1 + (line_len(s, l2) - c2)
        }),
{
    lemma_line_start(s, l1);
    lemma_line_end(s, l1);
    lemma_next_break(s, line_start(s, l1));
    lemma_line_start(s, l2);
    lemma_line_end(s, l2);
    lemma_next_break(s, line_start(s, l2));
    let ls1 = line_start(s, l1);
    let ls2 = line_start(s, l2);
    let le1 = line_end(s, l1);
    let le2 = line_end(s, l2);
    let off1 = ls1 + c1;
    let off2 = ls2 + c2;
    if l1 < l2 {
        lemma_line_order(s, l1, l2);
    }
    assert(off1 <= off2);
    let s1 = removed(s, off1, off2);
    let a = s.subrange(0, off1);
    let tail = s.subrange(off2, s.len() as int);
    assert(s1 =~= a + tail);

    // the count drops by the removed terminators
    lemma_line_of_range(s, l1, off1);
    lemma_line_of_range(s, l2, off2);
    lemma_newlines_agree(a, s, off1);
    lemma_newlines_concat_prefix(a, tail, tail.len() as int);
    lemma_newlines_skip(s, off2, s.len() - off2);
    assert(newlines_up_to(s1, s1.len() as int) == line_count(s) - 1 - (l2 - l1));

    // the first line still starts where it did
    lemma_newlines_agree(s1, s, ls1);
    lemma_line_start_unique(s1, l1, ls1);

    // and now ends where the second line's kept suffix ends
    let b = off1 + (le2 - off2);
    assert forall|i: int| ls1 <= i < b implies s1[i] != '\n' by {
        if i < off1 {
            assert(s1[i] == s[i]);
            assert(ls1 <= i < le1);
        } else {
            assert(s1[i] == s[off2 + (i - off1)]);
            assert(ls2 <= off2 + (i - off1) < le2);
        }
    }
    if le2 < s.len() {
        assert(s1[b] == s[le2]);
    }
    lemma_next_break_at(s1, ls1, b);
}

/// Law: converting a valid `(line, col)` position to an absolute offset
/// (which clamps the column to the line's length) and back yields the same
/// line, with the clamped column.
pub proof fn lemma_position_roundtrip(s: Seq<char>, line: nat, col: nat)
    requires
        line < line_count(s),
    ensures
        ({
            let c = if col <= line_len(s, line) {
                col
            } else {
                line_len(s, line)
            };
            let off = line_start(s, line) + c;
            line_of(s, off) == line && off - line_start(s, line) == c
        }),
{
    let c = if col <= line_len(s, line) {
        col
    } else {
        line_len(s, line)
    };
    lemma_line_start(s, line);
    lemma_line_end(s, line);
    lemma_line_of_range(s, line, line_start(s, line) + c);
}

/// Law: inserting a text at an offset and then removing the same range
/// restores the original document.
pub proof fn lemma_insert_remove_roundtrip(s: Seq<char>, off: int, ins: Seq<char>)
    requires
        0 <= off <= s.len(),
    ensures
        removed(spliced(s, off, ins), off, off + ins.len()) == s,
{
    assert(removed(spliced(s, off, ins), off, off + ins.len()) =~= s);
}

/// Line starts are ordered: an earlier line ends before a later one starts.
pub proof fn lemma_line_order(s: Seq<char>, l1: nat, l2: nat)
    requires
        l1 < l2 < line_count(s),
    ensures
        line_end(s, l1) < line_start(s, l2),
    decreases l2 - l1,
{
    lemma_line_end(s, l1);
    assert(line_start(s, (l1 + 1) as nat) == line_end(s, l1) + 1);
    if l1 + 1 < l2 {
        lemma_line_order(s, (l1 + 1) as nat, l2);
        lemma_line_start(s, (l1 + 1) as nat);
        lemma_line_end(s, (l1 + 1) as nat);
        lemma_next_break(s, line_start(s, (l1 + 1) as nat));
    }
}

} // verus!
