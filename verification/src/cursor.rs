//! Cursor and position handling: movement over the document's lines,
//! preferred-column memory across vertical moves, and selection ranges.
//!
//! Movement needs to know the lines' lengths; the caller passes them as a
//! vector with one entry per line (see `Editor::line_lengths`), so every
//! transition is a pure function of the cursor and those lengths.

use vstd::prelude::*;

verus! {

/// A position in the buffer: zero-indexed line and column, the column
/// counted in characters.
#[derive(Debug, Clone, Copy, PartialEq, Eq, Structural)]
pub struct Position {
    /// Line number (0-indexed)
    pub line: usize,
    /// Column number (0-indexed, in characters not bytes)
    pub column: usize,
}

impl Position {
    /// Create a new position.
    pub fn new(line: usize, column: usize) -> (p: Position)
        ensures
            p == (Position { line, column }),
    {
        Position { line, column }
    }

    /// Position at the start of the document.
    pub fn zero() -> (p: Position)
        ensures
            p == (Position { line: 0, column: 0 }),
    {
        Position { line: 0, column: 0 }
    }
}

impl Default for Position {
    /// The start of the document.
    fn default() -> (p: Position)
        ensures
            p == (Position { line: 0, column: 0 }),
    {
        Position { line: 0, column: 0 }
    }
}

/// Ordering of positions by `(line, column)`.
pub open spec fn pos_le(a: Position, b: Position) -> bool {
    a.line < b.line || (a.line == b.line && a.column <= b.column)
}

/// A cell `(line, col)` lies within the selection spanning `start` to
/// `end` (ordered endpoints): column-inclusive at the start,
/// column-exclusive at the end, and whole lines in between.
pub open spec fn spec_in_selection(
    start: Position,
    end: Position,
    line: usize,
    col: usize,
) -> bool {
    if line < start.line || line > end.line {
        false
    } else if line == start.line && line == end.line {
        start.column <= col < end.column
    } else if line == start.line {
        col >= start.column
    } else if line == end.line {
        col < end.column
    } else {
        true
    }
}

/// Check if a cell lies within the selection from `start` to `end`.
pub fn in_selection(start: Position, end: Position, line: usize, col: usize) -> (r: bool)
    ensures
        r == spec_in_selection(start, end, line, col),
{
    if line < start.line || line > end.line {
        false
    } else if line == start.line && line == end.line {
        col >= start.column && col < end.column
    } else if line == start.line {
        col >= start.column
    } else if line == end.line {
        col < end.column
    } else {
        true
    }
}

/// A cursor in the buffer with an optional selection anchor and an
/// optional remembered column for vertical movement.
#[derive(Debug, Clone)]
pub struct Cursor {
    /// Current cursor position
    pub position: Position,
    /// Selection anchor, if any; when set, the text between the anchor
    /// and the position is selected.
    pub anchor: Option<Position>,
    /// Preferred column for vertical movement: remembers the column when
    /// moving through shorter lines.
    pub preferred_column: Option<usize>,
}

/// The column a vertical move lands on: the remembered column, clamped
/// to the new line's length.
pub open spec fn clamped(pref: usize, len: usize) -> usize {
    if pref <= len {
        pref
    } else {
        len
    }
}

/// The cursor after `move_up(n)`: no-op on the first line; otherwise the
/// line index decreases by `n` (saturating at 0) and the column becomes
/// the preferred column — captured now if unset — clamped to the new
/// line's length.
pub open spec fn after_move_up(c: Cursor, lens: Seq<usize>, n: nat) -> Cursor {
    if c.position.line == 0 {
        c
    } else {
        let pref = match c.preferred_column {
            Some(p) => p,
            None => c.position.column,
        };
        let new_line = if n <= c.position.line {
            (c.position.line - n) as usize
        } else {
            0usize
        };
        Cursor {
            position: Position { line: new_line, column: clamped(pref, lens[new_line as int]) },
            anchor: c.anchor,
            preferred_column: Some(pref),
        }
    }
}

/// The cursor after `move_down(n)`: no-op on the last line; otherwise the
/// line index increases by `n` (saturating at the last line) and the
/// column becomes the preferred column — captured now if unset — clamped
/// to the new line's length.
pub open spec fn after_move_down(c: Cursor, lens: Seq<usize>, n: nat) -> Cursor {
    if lens.len() == 0 || c.position.line + 1 >= lens.len() {
        c
    } else {
        let pref = match c.preferred_column {
            Some(p) => p,
            None => c.position.column,
        };
        let new_line = if c.position.line + n < lens.len() {
            (c.position.line + n) as usize
        } else {
            (lens.len() - 1) as usize
        };
        Cursor {
            position: Position { line: new_line, column: clamped(pref, lens[new_line as int]) },
            anchor: c.anchor,
            preferred_column: Some(pref),
        }
    }
}

/// One step left: decrement the column, or wrap to the end of the
/// previous line, or stay at the document start.
pub open spec fn left_step(lens: Seq<usize>, p: Position) -> Position {
    if p.column > 0 {
        Position { line: p.line, column: (p.column - 1) as usize }
    } else if p.line > 0 {
        Position { line: (p.line - 1) as usize, column: lens[p.line - 1] }
    } else {
        p
    }
}

/// `n` steps left, applied one at a time.
pub open spec fn left_moves(lens: Seq<usize>, p: Position, n: nat) -> Position
    decreases n,
{
    if n == 0 {
        p
    } else {
        left_moves(lens, left_step(lens, p), (n - 1) as nat)
    }
}

/// One step right: increment the column, or wrap to the start of the
/// next line, or stay at the document end.
pub open spec fn right_step(lens: Seq<usize>, p: Position) -> Position {
    if p.line < lens.len() && p.column < lens[p.line as int] {
        Position { line: p.line, column: (p.column + 1) as usize }
    } else if p.line + 1 < lens.len() {
        Position { line: (p.line + 1) as usize, column: 0 }
    } else {
        p
    }
}

/// `n` steps right, applied one at a time.
pub open spec fn right_moves(lens: Seq<usize>, p: Position, n: nat) -> Position
    decreases n,
{
    if n == 0 {
        p
    } else {
        right_moves(lens, right_step(lens, p), (n - 1) as nat)
    }
}

proof fn lemma_left_moves_snoc(lens: Seq<usize>, p: Position, n: nat)
    ensures
        left_moves(lens, p, n + 1) == left_step(lens, left_moves(lens, p, n)),
    decreases n,
{
    assert(left_moves(lens, p, n + 1) == left_moves(lens, left_step(lens, p), n));
    if n > 0 {
        lemma_left_moves_snoc(lens, left_step(lens, p), (n - 1) as nat);
    }
}

proof fn lemma_right_moves_snoc(lens: Seq<usize>, p: Position, n: nat)
    ensures
        right_moves(lens, p, n + 1) == right_step(lens, right_moves(lens, p, n)),
    decreases n,
{
    assert(right_moves(lens, p, n + 1) == right_moves(lens, right_step(lens, p), n));
    if n > 0 {
        lemma_right_moves_snoc(lens, right_step(lens, p), (n - 1) as nat);
    }
}

impl Cursor {
    /// Create a new cursor at position (0, 0).
    pub fn new() -> (c: Cursor)
        ensures
            c.position == (Position { line: 0, column: 0 }),
            c.anchor is None,
            c.preferred_column is None,
    {
        Cursor { position: Position::zero(), anchor: None, preferred_column: None }
    }

    /// Create a cursor at a specific position.
    pub fn at(line: usize, column: usize) -> (c: Cursor)
        ensures
            c.position == (Position { line, column }),
            c.anchor is None,
            c.preferred_column is None,
    {
        Cursor { position: Position::new(line, column), anchor: None, preferred_column: None }
    }

    /// Move the cursor to a new position, forgetting the preferred column.
    pub fn move_to(&mut self, line: usize, column: usize)
        ensures
            final(self).position == (Position { line, column }),
            final(self).anchor == old(self).anchor,
            final(self).preferred_column is None,
    {
        self.position = Position::new(line, column);
        self.preferred_column = None;
    }

    /// Move the cursor up by `n` lines; see [`after_move_up`].
    pub fn move_up(&mut self, n: usize, lens: &Vec<usize>)
        requires
            old(self).position.line < lens@.len(),
        ensures
            *final(self) == after_move_up(*old(self), lens@, n as nat),
    {
        if self.position.line == 0 {
            return;
        }
        if self.preferred_column.is_none() {
            self.preferred_column = Some(self.position.column);
        }
        let new_line = if n <= self.position.line {
            self.position.line - n
        } else {
            0
        };
        let ll = lens[new_line];
        let pref = match self.preferred_column {
            Some(p) => p,
            None => self.position.column,
        };
        self.position.line = new_line;
        self.position.column = if pref <= ll {
            pref
        } else {
            ll
        };
    }

    /// Move the cursor down by `n` lines; see [`after_move_down`].
    pub fn move_down(&mut self, n: usize, total_lines: usize, lens: &Vec<usize>)
        requires
            total_lines == lens@.len(),
        ensures
            *final(self) == after_move_down(*old(self), lens@, n as nat),
    {
        if total_lines == 0 || self.position.line >= total_lines - 1 {
            return;
        }
        if self.preferred_column.is_none() {
            self.preferred_column = Some(self.position.column);
        }
        let last = total_lines - 1;
        let new_line = if n <= last - self.position.line {
            self.position.line + n
        } else {
            last
        };
        let ll = lens[new_line];
        let pref = match self.preferred_column {
            Some(p) => p,
            None => self.position.column,
        };
        self.position.line = new_line;
        self.position.column = if pref <= ll {
            pref
        } else {
            ll
        };
    }

    /// Move the cursor left by `n` characters, wrapping at line starts and
    /// forgetting the preferred column; see [`left_moves`].
    pub fn move_left(&mut self, n: usize, lens: &Vec<usize>)
        requires
            old(self).position.line < lens@.len(),
        ensures
            final(self).position == left_moves(lens@, old(self).position, n as nat),
            final(self).position.line < lens@.len(),
            final(self).anchor == old(self).anchor,
            final(self).preferred_column is None,
    {
        self.preferred_column = None;
        let ghost orig = self.position;
        let mut pos = self.position;
        let mut i: usize = 0;
        while i < n
            invariant
                i <= n,
                pos == left_moves(lens@, orig, i as nat),
                pos.line < lens@.len(),
            decreases n - i,
        {
            proof {
                lemma_left_moves_snoc(lens@, orig, i as nat);
            }
            if pos.column > 0 {
                pos.column = pos.column - 1;
            } else if pos.line > 0 {
                pos.line = pos.line - 1;
                pos.column = lens[pos.line];
            }
            i = i + 1;
        }
        self.position = pos;
    }

    /// Move the cursor right by `n` characters, wrapping at line ends and
    /// forgetting the preferred column; see [`right_moves`].
    pub fn move_right(&mut self, n: usize, total_lines: usize, lens: &Vec<usize>)
        requires
            total_lines == lens@.len(),
            old(self).position.line < lens@.len(),
        ensures
            final(self).position == right_moves(lens@, old(self).position, n as nat),
            final(self).position.line < lens@.len(),
            final(self).anchor == old(self).anchor,
            final(self).preferred_column is None,
    {
        self.preferred_column = None;
        let ghost orig = self.position;
        let mut pos = self.position;
        let mut i: usize = 0;
        while i < n
            invariant
                i <= n,
                total_lines == lens@.len(),
                pos == right_moves(lens@, orig, i as nat),
                pos.line < lens@.len(),
            decreases n - i,
        {
            proof {
                lemma_right_moves_snoc(lens@, orig, i as nat);
            }
            let ll = lens[pos.line];
            if pos.column < ll {
                pos.column = pos.column + 1;
            } else if pos.line < total_lines - 1 {
                pos.line = pos.line + 1;
                pos.column = 0;
            }
            i = i + 1;
        }
        self.position = pos;
    }

    /// Start a selection at the current position.
    pub fn start_selection(&mut self)
        ensures
            final(self).anchor == Some(old(self).position),
            final(self).position == old(self).position,
            final(self).preferred_column == old(self).preferred_column,
    {
        self.anchor = Some(self.position);
    }

    /// Clear the selection.
    pub fn clear_selection(&mut self)
        ensures
            final(self).anchor is None,
            final(self).position == old(self).position,
            final(self).preferred_column == old(self).preferred_column,
    {
        self.anchor = None;
    }

    /// Check if there is an active selection.
    pub fn has_selection(&self) -> (r: bool)
        ensures
            r == (self.anchor is Some),
    {
        self.anchor.is_some()
    }

    /// Get the selection endpoints ordered ascending by `(line, column)`,
    /// or nothing if no selection is active. Law: the returned pair is
    /// always ordered, whichever side the cursor moved to.
    pub fn selection_range(&self) -> (r: Option<(Position, Position)>)
        ensures
            r is Some <==> self.anchor is Some,
            match r {
                Some(se) => {
                    let a = self.anchor.unwrap();
                    let p = self.position;
                    &&& se == if pos_le(a, p) {
                        (a, p)
                    } else {
                        (p, a)
                    }
                    &&& pos_le(se.0, se.1)
                },
                None => true,
            },
    {
        match self.anchor {
            Some(anchor) => {
                if anchor.line < self.position.line
                    || (anchor.line == self.position.line
                        && anchor.column <= self.position.column) {
                    Some((anchor, self.position))
                } else {
                    Some((self.position, anchor))
                }
            },
            None => None,
        }
    }

    /// Move to the start of the current line.
    pub fn move_to_line_start(&mut self)
        ensures
            final(self).position == (Position { line: old(self).position.line, column: 0 }),
            final(self).anchor == old(self).anchor,
            final(self).preferred_column is None,
    {
        self.position.column = 0;
        self.preferred_column = None;
    }

    /// Move to the end of the current line, whose length the caller passes.
    pub fn move_to_line_end(&mut self, line_length: usize)
        ensures
            final(self).position == (Position {
                line: old(self).position.line,
                column: line_length,
            }),
            final(self).anchor == old(self).anchor,
            final(self).preferred_column is None,
    {
        self.position.column = line_length;
        self.preferred_column = None;
    }

    /// Move to the start of the document.
    pub fn move_to_start(&mut self)
        ensures
            final(self).position == (Position { line: 0, column: 0 }),
            final(self).anchor == old(self).anchor,
            final(self).preferred_column is None,
    {
        self.position = Position::zero();
        self.preferred_column = None;
    }

    /// Move to the end of the document: the last line, at the column the
    /// caller passes as that line's length.
    pub fn move_to_end(&mut self, total_lines: usize, last_line_length: usize)
        ensures
            final(self).position == (Position {
                line: if total_lines > 0 {
                    (total_lines - 1) as usize
                } else {
                    0usize
                },
                column: last_line_length,
            }),
            final(self).anchor == old(self).anchor,
            final(self).preferred_column is None,
    {
        self.position.line = if total_lines > 0 {
            total_lines - 1
        } else {
            0
        };
        self.position.column = last_line_length;
        self.preferred_column = None;
    }
}

impl Default for Cursor {
    /// A cursor at the document start with no selection.
    fn default() -> (c: Cursor)
        ensures
            c.position == (Position { line: 0, column: 0 }),
            c.anchor is None,
            c.preferred_column is None,
    {
        Cursor::new()
    }
}

proof fn lemma_right_moves_within(lens: Seq<usize>, p: Position, n: nat)
    requires
        p.line < lens.len(),
        p.column + n <= lens[p.line as int],
    ensures
        right_moves(lens, p, n) == (Position { line: p.line, column: (p.column + n) as usize }),
    decreases n,
{
    if n > 0 {
        lemma_right_moves_within(lens, right_step(lens, p), (n - 1) as nat);
    }
}

proof fn lemma_left_moves_within(lens: Seq<usize>, p: Position, n: nat)
    requires
        n <= p.column,
    ensures
        left_moves(lens, p, n) == (Position { line: p.line, column: (p.column - n) as usize }),
    decreases n,
{
    if n > 0 {
        lemma_left_moves_within(lens, left_step(lens, p), (n - 1) as nat);
    }
}

/// Law: `move_right` by `n` and then `move_left` by `n` restores the
/// starting position whenever the `n` steps stay within the starting
/// line, so that no boundary wrap occurs.
pub proof fn lemma_horizontal_roundtrip(lens: Seq<usize>, p: Position, n: nat)
    requires
        p.line < lens.len(),
        p.column + n <= lens[p.line as int],
    ensures
        left_moves(lens, right_moves(lens, p, n), n) == p,
{
    lemma_right_moves_within(lens, p, n);
    lemma_left_moves_within(lens, right_moves(lens, p, n), n);
}

/// Law (preferred column): starting with no remembered column at a valid
/// column of a valid line, `move_down(n)` — possibly onto a shorter line
/// that clamps the column — followed by `move_up(n)` restores the
/// starting position, and the starting column stays remembered.
pub proof fn lemma_preferred_column_restored(c: Cursor, lens: Seq<usize>, n: nat)
    requires
        c.preferred_column is None,
        1 <= n,
        c.position.line + n < lens.len() <= usize::MAX,
        c.position.column <= lens[c.position.line as int],
    ensures
        ({
            let down = after_move_down(c, lens, n);
            let back = after_move_up(down, lens, n);
            back.position == c.position && back.preferred_column == Some(c.position.column)
        }),
{
    let down = after_move_down(c, lens, n);
    assert(down.position.line == c.position.line + n);
    assert(down.preferred_column == Some(c.position.column));
    let back = after_move_up(down, lens, n);
    assert(back.position.line == c.position.line);
    assert(back.position.column == clamped(c.position.column, lens[c.position.line as int]));
}

} // verus!
