//! Trusted boundary around the `ropey` text-storage engine.
//!
//! The rope is the opaque storage capability behind [`crate::buffer::Buffer`].
//! Its contents are named by [`rope_text`]; every wrapper below states, over
//! that name and the line model of [`crate::text`], what the corresponding
//! `ropey` call does. `ropey` is built without its optional line-ending
//! features, so the only line break it recognizes is `'\n'`, matching the
//! model.

use vstd::prelude::*;

use crate::text::{line_count, line_of, line_seg, line_start, removed, spliced};

verus! {

#[verifier::external_type_specification]
#[verifier::external_body]
pub struct ExRope(ropey::Rope);

/// The document a rope holds, as a sequence of characters.
pub uninterp spec fn rope_text(r: ropey::Rope) -> Seq<char>;

/// Relies on `ropey::Rope::new`: creates an empty rope.
#[verifier::external_body]
pub(crate) fn rope_new() -> (r: ropey::Rope)
    ensures
        rope_text(r) == Seq::<char>::empty(),
{
    ropey::Rope::new()
}

/// Relies on `ropey::Rope::from_str`: creates a rope holding exactly the
/// given text. The content's length is bounded by `usize::MAX` because the
/// source string's byte length is a `usize` and every character occupies at
/// least one byte.
#[verifier::external_body]
pub(crate) fn rope_from_str(s: &str) -> (r: ropey::Rope)
    ensures
        rope_text(r) == s@,
        rope_text(r).len() <= usize::MAX,
{
    ropey::Rope::from_str(s)
}

/// Relies on `ropey::Rope::len_chars`: the total number of characters.
#[verifier::external_body]
pub(crate) fn rope_len_chars(rope: &ropey::Rope) -> (r: usize)
    ensures
        r == rope_text(*rope).len(),
{
    rope.len_chars()
}

/// Relies on `ropey::Rope::len_lines`: one more than the number of line
/// breaks, which without ropey's optional features are exactly the `'\n'`
/// characters.
#[verifier::external_body]
pub(crate) fn rope_len_lines(rope: &ropey::Rope) -> (r: usize)
    ensures
        r == line_count(rope_text(*rope)),
{
    rope.len_lines()
}

/// Relies on `ropey::Rope::line_to_char`: the char index of the start of
/// the given line; one past the last line maps to one past the end.
/// Panics above `len_lines`, which the precondition rules out.
#[verifier::external_body]
pub(crate) fn rope_line_to_char(rope: &ropey::Rope, line: usize) -> (r: usize)
    requires
        line <= line_count(rope_text(*rope)),
    ensures
        r == line_start(rope_text(*rope), line as nat),
{
    rope.line_to_char(line)
}

/// Relies on `ropey::Rope::char_to_line`: the index of the line containing
/// the given char index; one past the end maps to the last line. Panics
/// above `len_chars`, which the precondition rules out.
#[verifier::external_body]
pub(crate) fn rope_char_to_line(rope: &ropey::Rope, off: usize) -> (r: usize)
    requires
        off <= rope_text(*rope).len(),
    ensures
        r == line_of(rope_text(*rope), off as int),
{
    rope.char_to_line(off)
}

/// Relies on `ropey::Rope::insert`: splices text at a char index. Panics
/// past the end, which the precondition rules out. The resulting length is
/// bounded by `usize::MAX` because every stored character occupies at least
/// one byte of memory.
#[verifier::external_body]
pub(crate) fn rope_insert(rope: &mut ropey::Rope, off: usize, s: &str)
    requires
        off <= rope_text(*old(rope)).len(),
    ensures
        rope_text(*final(rope)) == spliced(rope_text(*old(rope)), off as int, s@),
        rope_text(*final(rope)).len() <= usize::MAX,
    no_unwind
{
    rope.insert(off, s);
}

/// Relies on `ropey::Rope::insert_char`: splices one character at a char
/// index. Panics past the end, which the precondition rules out. The length
/// bound holds as for [`rope_insert`].
#[verifier::external_body]
pub(crate) fn rope_insert_char(rope: &mut ropey::Rope, off: usize, ch: char)
    requires
        off <= rope_text(*old(rope)).len(),
    ensures
        rope_text(*final(rope)) == spliced(rope_text(*old(rope)), off as int, seq![ch]),
        rope_text(*final(rope)).len() <= usize::MAX,
    no_unwind
{
    rope.insert_char(off, ch);
}

/// Relies on `ropey::Rope::remove`: deletes the half-open char range
/// `[start, end)`. Panics on a reversed or out-of-bounds range, which the
/// precondition rules out.
#[verifier::external_body]
pub(crate) fn rope_remove(rope: &mut ropey::Rope, start: usize, end: usize)
    requires
        start <= end <= rope_text(*old(rope)).len(),
    ensures
        rope_text(*final(rope)) == removed(rope_text(*old(rope)), start as int, end as int),
    no_unwind
{
    rope.remove(start..end);
}

/// Relies on `String::from(&ropey::Rope)`: the whole document as a string.
#[verifier::external_body]
pub(crate) fn rope_to_string(rope: &ropey::Rope) -> (r: String)
    ensures
        r@ == rope_text(*rope),
{
    String::from(rope)
}

/// Relies on `ropey::Rope::line` and `String::from(RopeSlice)`: the given
/// line's content including its terminator, if any. Panics at or above
/// `len_lines`, which the precondition rules out.
#[verifier::external_body]
pub(crate) fn rope_line_string(rope: &ropey::Rope, line: usize) -> (r: String)
    requires
        line < line_count(rope_text(*rope)),
    ensures
        r@ == line_seg(rope_text(*rope), line as nat),
{
    String::from(rope.line(line))
}

/// Relies on `ropey::Rope::slice` and `String::from(RopeSlice)`: the text
/// of the half-open char range `[start, end)`. Panics on a reversed or
/// out-of-bounds range, which the precondition rules out.
#[verifier::external_body]
pub(crate) fn rope_slice_string(rope: &ropey::Rope, start: usize, end: usize) -> (r: String)
    requires
        start <= end <= rope_text(*rope).len(),
    ensures
        r@ == rope_text(*rope).subrange(start as int, end as int),
{
    String::from(rope.slice(start..end))
}

} // verus!
