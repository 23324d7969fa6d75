//! Editor state: a buffer, a cursor, and a scroll viewport, with the
//! editing operations that tie them together.
//!
//! Reading and writing the backing file belongs to the embedding
//! application; everything here is pure state manipulation. The effect of
//! each operation is stated over [`EditorView`], a mathematical image of
//! the whole editor state.

use vstd::prelude::*;

use crate::buffer::Buffer;
use crate::cursor::{
    after_move_down, after_move_up, left_moves, pos_le, right_moves, Cursor, Position,
};
use crate::strutil::str_eq;
use crate::text::{
    lemma_line_end, lemma_line_start, lemma_newlines_bound, lemma_remove_range,
    lemma_splice_count, lemma_splice_in_line, line_count, line_end, line_len, line_start, removed,
    spliced,
};

verus! {

/// Viewport for scrolling: the window of `height` lines starting at
/// `top_line` that is currently shown, `width` columns wide.
#[derive(Debug, Clone)]
pub struct Viewport {
    /// First visible line
    pub top_line: usize,
    /// Number of visible lines
    pub height: usize,
    /// Number of visible columns
    pub width: usize,
}

/// The viewport after `ensure_visible(line)`: scrolled up to the line if
/// it was above the window, down just enough to put it on the last row if
/// it was below, and untouched otherwise (or if the window has no rows).
pub open spec fn visible_after(v: Viewport, line: usize) -> Viewport {
    if v.height == 0 {
        v
    } else if line < v.top_line {
        Viewport { top_line: line, height: v.height, width: v.width }
    } else if line - v.top_line >= v.height {
        Viewport { top_line: (line - (v.height - 1)) as usize, height: v.height, width: v.width }
    } else {
        v
    }
}

impl Viewport {
    /// Create a new viewport showing the document from its first line.
    pub fn new(height: usize, width: usize) -> (v: Viewport)
        ensures
            v == (Viewport { top_line: 0, height, width }),
    {
        Viewport { top_line: 0, height, width }
    }

    /// Ensure a line is visible, scrolling if necessary; see
    /// [`visible_after`].
    pub fn ensure_visible(&mut self, line: usize)
        ensures
            *final(self) == visible_after(*old(self), line),
    {
        if self.height == 0 {
            return;
        }
        if line < self.top_line {
            self.top_line = line;
        } else if line - self.top_line >= self.height {
            self.top_line = line - (self.height - 1);
        }
    }
}

impl Default for Viewport {
    /// An empty viewport at the top of the document.
    fn default() -> (v: Viewport)
        ensures
            v == (Viewport { top_line: 0, height: 0, width: 0 }),
    {
        Viewport { top_line: 0, height: 0, width: 0 }
    }
}

/// The lengths of all lines, one entry per line.
pub open spec fn line_lens(s: Seq<char>) -> Seq<usize> {
    Seq::new(line_count(s), |i: int| line_len(s, i as nat) as usize)
}

/// The cursor's line exists in the document.
pub open spec fn line_ok(s: Seq<char>, p: Position) -> bool {
    p.line < line_count(s)
}

/// The cursor's column does not pass the end of its line (positions past
/// the last line are tolerated; editing operations ignore them).
pub open spec fn col_ok(s: Seq<char>, p: Position) -> bool {
    p.line < line_count(s) ==> p.column <= line_len(s, p.line as nat)
}

/// The absolute offset a position refers to: the column, clamped to the
/// line's length, past the line's start.
pub open spec fn pos_offset(s: Seq<char>, p: Position) -> int {
    line_start(s, p.line as nat) + if p.column <= line_len(s, p.line as nat) {
        p.column as int
    } else {
        line_len(s, p.line as nat) as int
    }
}

/// Mathematical image of the whole editor state.
pub struct EditorView {
    pub text: Seq<char>,
    pub cursor: Cursor,
    pub viewport: Viewport,
    pub modified: bool,
}

/// The state after `insert_char(ch)`: the character enters at the cursor's
/// offset and the cursor advances — to the start of the next line for a
/// terminator, one column right otherwise. A cursor below the document
/// leaves the state untouched.
pub open spec fn view_insert_char(v: EditorView, ch: char) -> EditorView {
    let p = v.cursor.position;
    if p.line < line_count(v.text) {
        let npos = if ch == '\n' {
            Position { line: (p.line + 1) as usize, column: 0 }
        } else {
            Position { line: p.line, column: (p.column + 1) as usize }
        };
        EditorView {
            text: spliced(v.text, pos_offset(v.text, p), seq![ch]),
            cursor: Cursor {
                position: npos,
                anchor: v.cursor.anchor,
                preferred_column: v.cursor.preferred_column,
            },
            viewport: visible_after(v.viewport, npos.line),
            modified: true,
        }
    } else {
        v
    }
}

/// The state after inserting a sequence of characters one at a time.
pub open spec fn view_insert_seq(v: EditorView, chars: Seq<char>) -> EditorView
    decreases chars.len(),
{
    if chars.len() == 0 {
        v
    } else {
        view_insert_seq(view_insert_char(v, chars[0]), chars.subrange(1, chars.len() as int))
    }
}

proof fn lemma_view_insert_seq_snoc(v: EditorView, chars: Seq<char>, ch: char)
    ensures
        view_insert_seq(v, chars.push(ch)) == view_insert_char(view_insert_seq(v, chars), ch),
    decreases chars.len(),
{
    if chars.len() == 0 {
        assert(chars.push(ch)[0] == ch);
        assert(chars.push(ch).subrange(1, chars.push(ch).len() as int) =~= Seq::<char>::empty());
        assert(view_insert_seq(view_insert_char(v, ch), Seq::<char>::empty()) == view_insert_char(
            v,
            ch,
        ));
    } else {
        assert(chars.push(ch)[0] == chars[0]);
        assert(chars.push(ch).subrange(1, chars.push(ch).len() as int) =~= chars.subrange(
            1,
            chars.len() as int,
        ).push(ch));
        lemma_view_insert_seq_snoc(
            view_insert_char(v, chars[0]),
            chars.subrange(1, chars.len() as int),
            ch,
        );
        assert(view_insert_seq(v, chars.push(ch)) == view_insert_seq(
            view_insert_char(v, chars[0]),
            chars.subrange(1, chars.len() as int).push(ch),
        ));
        assert(view_insert_seq(v, chars) == view_insert_seq(
            view_insert_char(v, chars[0]),
            chars.subrange(1, chars.len() as int),
        ));
    }
}

/// The cursor with a selection anchored at its position, unless one is
/// already active.
pub open spec fn anchored(c: Cursor) -> Cursor {
    Cursor {
        position: c.position,
        anchor: if c.anchor is Some {
            c.anchor
        } else {
            Some(c.position)
        },
        preferred_column: c.preferred_column,
    }
}

/// The selection endpoints ordered ascending by `(line, column)`.
pub open spec fn ordered_sel(a: Position, p: Position) -> (Position, Position) {
    if pos_le(a, p) {
        (a, p)
    } else {
        (p, a)
    }
}

/// The state after `delete_selection`, with whether anything was deleted:
/// with an anchor on an existing line (as the cursor's), the spanned range
/// leaves the text, the cursor lands on the lower endpoint and the anchor
/// is dropped; otherwise nothing happens.
pub open spec fn view_delete_selection(v: EditorView) -> (EditorView, bool) {
    match v.cursor.anchor {
        Some(a) => {
            let se = ordered_sel(a, v.cursor.position);
            if se.0.line < line_count(v.text) && se.1.line < line_count(v.text) {
                (
                    EditorView {
                        text: removed(
                            v.text,
                            pos_offset(v.text, se.0),
                            pos_offset(v.text, se.1),
                        ),
                        cursor: Cursor {
                            position: se.0,
                            anchor: None,
                            preferred_column: v.cursor.preferred_column,
                        },
                        viewport: visible_after(v.viewport, se.0.line),
                        modified: true,
                    },
                    true,
                )
            } else {
                (v, false)
            }
        },
        None => (v, false),
    }
}

/// How many lines one page movement covers, for the given window height.
pub open spec fn page_step_count(height: usize) -> nat {
    if height >= 3 {
        (height - 2) as nat
    } else {
        1
    }
}

/// The state after `page_up`: `k` single upward moves, each keeping the
/// cursor visible.
pub open spec fn view_page_up(v: EditorView, k: nat) -> EditorView
    decreases k,
{
    if k == 0 {
        v
    } else {
        let c1 = after_move_up(v.cursor, line_lens(v.text), 1);
        view_page_up(
            EditorView {
                text: v.text,
                cursor: c1,
                viewport: visible_after(v.viewport, c1.position.line),
                modified: v.modified,
            },
            (k - 1) as nat,
        )
    }
}

/// The state after `page_down`: `k` single downward moves, each keeping
/// the cursor visible.
pub open spec fn view_page_down(v: EditorView, k: nat) -> EditorView
    decreases k,
{
    if k == 0 {
        v
    } else {
        let c1 = after_move_down(v.cursor, line_lens(v.text), 1);
        view_page_down(
            EditorView {
                text: v.text,
                cursor: c1,
                viewport: visible_after(v.viewport, c1.position.line),
                modified: v.modified,
            },
            (k - 1) as nat,
        )
    }
}

proof fn lemma_view_page_up_snoc(v: EditorView, k: nat)
    ensures
        ({
            let w = view_page_up(v, k);
            let c1 = after_move_up(w.cursor, line_lens(w.text), 1);
            view_page_up(v, k + 1) == (EditorView {
                text: w.text,
                cursor: c1,
                viewport: visible_after(w.viewport, c1.position.line),
                modified: w.modified,
            })
        }),
    decreases k,
{
    let c0 = after_move_up(v.cursor, line_lens(v.text), 1);
    let w1 = EditorView {
        text: v.text,
        cursor: c0,
        viewport: visible_after(v.viewport, c0.position.line),
        modified: v.modified,
    };
    assert(view_page_up(v, k + 1) == view_page_up(w1, k));
    if k > 0 {
        lemma_view_page_up_snoc(w1, (k - 1) as nat);
        assert(view_page_up(v, k) == view_page_up(w1, (k - 1) as nat));
    }
}

proof fn lemma_view_page_down_snoc(v: EditorView, k: nat)
    ensures
        ({
            let w = view_page_down(v, k);
            let c1 = after_move_down(w.cursor, line_lens(w.text), 1);
            view_page_down(v, k + 1) == (EditorView {
                text: w.text,
                cursor: c1,
                viewport: visible_after(w.viewport, c1.position.line),
                modified: w.modified,
            })
        }),
    decreases k,
{
    let c0 = after_move_down(v.cursor, line_lens(v.text), 1);
    let w1 = EditorView {
        text: v.text,
        cursor: c0,
        viewport: visible_after(v.viewport, c0.position.line),
        modified: v.modified,
    };
    assert(view_page_down(v, k + 1) == view_page_down(w1, k));
    if k > 0 {
        lemma_view_page_down_snoc(w1, (k - 1) as nat);
        assert(view_page_down(v, k) == view_page_down(w1, (k - 1) as nat));
    }
}

/// Where a path's file name begins: right after the last `/` among the
/// first `upto` characters, or 0 if there is none.
pub open spec fn basename_cut(p: Seq<char>, upto: int) -> int
    decreases upto,
{
    if upto <= 0 {
        0
    } else if p[upto - 1] == '/' {
        upto
    } else {
        basename_cut(p, upto - 1)
    }
}

/// The length of the first `upto` characters of a path once every
/// trailing `/` is dropped.
pub open spec fn trim_slashes(p: Seq<char>, upto: int) -> int
    decreases upto,
{
    if upto <= 0 {
        0
    } else if p[upto - 1] == '/' {
        trim_slashes(p, upto - 1)
    } else {
        upto
    }
}

/// Editor state.
pub struct Editor {
    /// Text buffer
    pub buffer: Buffer,
    /// Cursor position
    pub cursor: Cursor,
    /// Viewport for scrolling
    pub viewport: Viewport,
}

impl View for Editor {
    type V = EditorView;

    open spec fn view(&self) -> EditorView {
        EditorView {
            text: self.buffer@,
            cursor: self.cursor,
            viewport: self.viewport,
            modified: self.buffer.spec_modified(),
        }
    }
}

impl Editor {
    /// Create a new empty editor.
    pub fn new() -> (e: Editor)
        ensures
            e@.text == Seq::<char>::empty(),
            e@.cursor == (Cursor {
                position: Position { line: 0, column: 0 },
                anchor: None::<Position>,
                preferred_column: None::<usize>,
            }),
            e@.viewport == (Viewport { top_line: 0, height: 0, width: 0 }),
            !e@.modified,
            e.buffer.spec_path() is None,
    {
        Editor { buffer: Buffer::new(), cursor: Cursor::new(), viewport: Viewport::default() }
    }

    /// Create an editor with content.
    pub fn with_content(text: &str) -> (e: Editor)
        ensures
            e@.text == text@,
            e@.cursor == (Cursor {
                position: Position { line: 0, column: 0 },
                anchor: None::<Position>,
                preferred_column: None::<usize>,
            }),
            e@.viewport == (Viewport { top_line: 0, height: 0, width: 0 }),
            !e@.modified,
            e.buffer.spec_path() is None,
    {
        Editor {
            buffer: Buffer::with_content(text),
            cursor: Cursor::new(),
            viewport: Viewport::default(),
        }
    }

    /// Set the viewport size.
    pub fn set_viewport_size(&mut self, height: usize, width: usize)
        ensures
            final(self)@ == (EditorView {
                viewport: Viewport { top_line: old(self)@.viewport.top_line, height, width },
                ..old(self)@
            }),
            final(self).buffer.spec_path() == old(self).buffer.spec_path(),
    {
        self.viewport.height = height;
        self.viewport.width = width;
    }

    /// The lengths of all lines of the document, one entry per line.
    pub fn line_lengths(&self) -> (r: Vec<usize>)
        ensures
            r@ == line_lens(self@.text),
    {
        let total = self.buffer.len_lines();
        let mut v: Vec<usize> = Vec::new();
        let mut i: usize = 0;
        while i < total
            invariant
                i <= total,
                total == line_count(self@.text),
                v@.len() == i,
                forall|j: int| 0 <= j < i ==> v@[j] == line_len(self@.text, j as nat),
            decreases total - i,
        {
            let ll = match self.buffer.line_len(i) {
                Some(n) => n,
                None => 0,
            };
            v.push(ll);
            i = i + 1;
        }
        proof {
            assert(v@ =~= line_lens(self@.text));
        }
        v
    }

    /// The length of the given line, or 0 past the last line.
    fn line_len_or0(&self, line: usize) -> (r: usize)
        ensures
            r == if line < line_count(self@.text) {
                line_len(self@.text, line as nat) as int
            } else {
                0
            },
    {
        match self.buffer.line_len(line) {
            Some(n) => n,
            None => 0,
        }
    }

    /// The length of the cursor's line, or 0 past the last line.
    fn current_line_len(&self) -> (r: usize)
        ensures
            r == if self@.cursor.position.line < line_count(self@.text) {
                line_len(self@.text, self@.cursor.position.line as nat) as int
            } else {
                0
            },
    {
        self.line_len_or0(self.cursor.position.line)
    }

    /// Move the cursor up one line and keep it visible.
    pub fn move_up(&mut self)
        requires
            line_ok(old(self)@.text, old(self)@.cursor.position),
        ensures
            final(self)@.text == old(self)@.text,
            final(self)@.modified == old(self)@.modified,
            final(self).buffer.spec_path() == old(self).buffer.spec_path(),
            final(self)@.cursor == after_move_up(old(self)@.cursor, line_lens(old(self)@.text), 1),
            final(self)@.viewport == visible_after(
                old(self)@.viewport,
                final(self)@.cursor.position.line,
            ),
            line_ok(final(self)@.text, final(self)@.cursor.position),
    {
        let lens = self.line_lengths();
        self.cursor.move_up(1, &lens);
        self.viewport.ensure_visible(self.cursor.position.line);
    }

    /// Move the cursor down one line and keep it visible.
    pub fn move_down(&mut self)
        requires
            line_ok(old(self)@.text, old(self)@.cursor.position),
        ensures
            final(self)@.text == old(self)@.text,
            final(self)@.modified == old(self)@.modified,
            final(self).buffer.spec_path() == old(self).buffer.spec_path(),
            final(self)@.cursor == after_move_down(
                old(self)@.cursor,
                line_lens(old(self)@.text),
                1,
            ),
            final(self)@.viewport == visible_after(
                old(self)@.viewport,
                final(self)@.cursor.position.line,
            ),
            line_ok(final(self)@.text, final(self)@.cursor.position),
    {
        let lens = self.line_lengths();
        let total = lens.len();
        self.cursor.move_down(1, total, &lens);
        self.viewport.ensure_visible(self.cursor.position.line);
    }

    /// Move the cursor left one character, wrapping at line starts, and
    /// keep it visible.
    pub fn move_left(&mut self)
        requires
            line_ok(old(self)@.text, old(self)@.cursor.position),
        ensures
            final(self)@.text == old(self)@.text,
            final(self)@.modified == old(self)@.modified,
            final(self).buffer.spec_path() == old(self).buffer.spec_path(),
            final(self)@.cursor.position == left_moves(
                line_lens(old(self)@.text),
                old(self)@.cursor.position,
                1,
            ),
            final(self)@.cursor.anchor == old(self)@.cursor.anchor,
            final(self)@.cursor.preferred_column is None,
            final(self)@.viewport == visible_after(
                old(self)@.viewport,
                final(self)@.cursor.position.line,
            ),
            line_ok(final(self)@.text, final(self)@.cursor.position),
    {
        let lens = self.line_lengths();
        self.cursor.move_left(1, &lens);
        self.viewport.ensure_visible(self.cursor.position.line);
    }

    /// Move the cursor right one character, wrapping at line ends, and
    /// keep it visible.
    pub fn move_right(&mut self)
        requires
            line_ok(old(self)@.text, old(self)@.cursor.position),
        ensures
            final(self)@.text == old(self)@.text,
            final(self)@.modified == old(self)@.modified,
            final(self).buffer.spec_path() == old(self).buffer.spec_path(),
            final(self)@.cursor.position == right_moves(
                line_lens(old(self)@.text),
                old(self)@.cursor.position,
                1,
            ),
            final(self)@.cursor.anchor == old(self)@.cursor.anchor,
            final(self)@.cursor.preferred_column is None,
            final(self)@.viewport == visible_after(
                old(self)@.viewport,
                final(self)@.cursor.position.line,
            ),
            line_ok(final(self)@.text, final(self)@.cursor.position),
    {
        let lens = self.line_lengths();
        let total = lens.len();
        self.cursor.move_right(1, total, &lens);
        self.viewport.ensure_visible(self.cursor.position.line);
    }

    /// Move to the start of the current line.
    pub fn move_to_line_start(&mut self)
        ensures
            final(self)@.text == old(self)@.text,
            final(self)@.modified == old(self)@.modified,
            final(self).buffer.spec_path() == old(self).buffer.spec_path(),
            final(self)@.cursor.position == (Position {
                line: old(self)@.cursor.position.line,
                column: 0,
            }),
            final(self)@.cursor.anchor == old(self)@.cursor.anchor,
            final(self)@.cursor.preferred_column is None,
            final(self)@.viewport == old(self)@.viewport,
    {
        self.cursor.move_to_line_start();
    }

    /// Move to the end of the current line.
    pub fn move_to_line_end(&mut self)
        ensures
            final(self)@.text == old(self)@.text,
            final(self)@.modified == old(self)@.modified,
            final(self).buffer.spec_path() == old(self).buffer.spec_path(),
            final(self)@.cursor.position == (Position {
                line: old(self)@.cursor.position.line,
                column: if old(self)@.cursor.position.line < line_count(old(self)@.text) {
                    line_len(old(self)@.text, old(self)@.cursor.position.line as nat) as usize
                } else {
                    0usize
                },
            }),
            final(self)@.cursor.anchor == old(self)@.cursor.anchor,
            final(self)@.cursor.preferred_column is None,
            final(self)@.viewport == old(self)@.viewport,
    {
        let ll = self.current_line_len();
        self.cursor.move_to_line_end(ll);
    }

    /// Move to the start of the document and scroll to the top.
    pub fn move_to_start(&mut self)
        ensures
            final(self)@.text == old(self)@.text,
            final(self)@.modified == old(self)@.modified,
            final(self).buffer.spec_path() == old(self).buffer.spec_path(),
            final(self)@.cursor.position == (Position { line: 0, column: 0 }),
            final(self)@.cursor.anchor == old(self)@.cursor.anchor,
            final(self)@.cursor.preferred_column is None,
            final(self)@.viewport == (Viewport {
                top_line: 0,
                height: old(self)@.viewport.height,
                width: old(self)@.viewport.width,
            }),
            line_ok(final(self)@.text, final(self)@.cursor.position),
    {
        self.cursor.move_to_start();
        self.viewport.top_line = 0;
    }

    /// Move to the end of the document and keep it visible.
    pub fn move_to_end(&mut self)
        ensures
            final(self)@.text == old(self)@.text,
            final(self)@.modified == old(self)@.modified,
            final(self).buffer.spec_path() == old(self).buffer.spec_path(),
            final(self)@.cursor.position == (Position {
                line: (line_count(old(self)@.text) - 1) as usize,
                column: line_len(
                    old(self)@.text,
                    (line_count(old(self)@.text) - 1) as nat,
                ) as usize,
            }),
            final(self)@.cursor.anchor == old(self)@.cursor.anchor,
            final(self)@.cursor.preferred_column is None,
            final(self)@.viewport == visible_after(
                old(self)@.viewport,
                final(self)@.cursor.position.line,
            ),
            line_ok(final(self)@.text, final(self)@.cursor.position),
            col_ok(final(self)@.text, final(self)@.cursor.position),
    {
        let total = self.buffer.len_lines();
        let last_line_len = self.line_len_or0(total - 1);
        self.cursor.move_to_end(total, last_line_len);
        self.viewport.ensure_visible(self.cursor.position.line);
    }

    /// Move one page up: as many single upward moves as the window allows.
    pub fn page_up(&mut self)
        requires
            line_ok(old(self)@.text, old(self)@.cursor.position),
        ensures
            final(self)@ == view_page_up(old(self)@, page_step_count(old(self)@.viewport.height)),
            final(self).buffer.spec_path() == old(self).buffer.spec_path(),
            line_ok(final(self)@.text, final(self)@.cursor.position),
    {
        let lines = if self.viewport.height >= 3 {
            self.viewport.height - 2
        } else {
            1
        };
        let ghost orig = self@;
        let mut i: usize = 0;
        while i < lines
            invariant
                i <= lines,
                self@ == view_page_up(orig, i as nat),
                self.buffer.spec_path() == old(self).buffer.spec_path(),
                line_ok(self@.text, self@.cursor.position),
            decreases lines - i,
        {
            proof {
                lemma_view_page_up_snoc(orig, i as nat);
            }
            self.move_up();
            i = i + 1;
        }
    }

    /// Move one page down: as many single downward moves as the window
    /// allows.
    pub fn page_down(&mut self)
        requires
            line_ok(old(self)@.text, old(self)@.cursor.position),
        ensures
            final(self)@ == view_page_down(
                old(self)@,
                page_step_count(old(self)@.viewport.height),
            ),
            final(self).buffer.spec_path() == old(self).buffer.spec_path(),
            line_ok(final(self)@.text, final(self)@.cursor.position),
    {
        let lines = if self.viewport.height >= 3 {
            self.viewport.height - 2
        } else {
            1
        };
        let ghost orig = self@;
        let mut i: usize = 0;
        while i < lines
            invariant
                i <= lines,
                self@ == view_page_down(orig, i as nat),
                self.buffer.spec_path() == old(self).buffer.spec_path(),
                line_ok(self@.text, self@.cursor.position),
            decreases lines - i,
        {
            proof {
                lemma_view_page_down_snoc(orig, i as nat);
            }
            self.move_down();
            i = i + 1;
        }
    }

    /// Insert a character at the cursor position and advance the cursor;
    /// silently a no-op if the cursor's line is past the document.
    pub fn insert_char(&mut self, ch: char)
        requires
            col_ok(old(self)@.text, old(self)@.cursor.position),
        ensures
            final(self)@ == view_insert_char(old(self)@, ch),
            final(self).buffer.spec_path() == old(self).buffer.spec_path(),
            col_ok(final(self)@.text, final(self)@.cursor.position),
            line_ok(old(self)@.text, old(self)@.cursor.position) ==> line_ok(
                final(self)@.text,
                final(self)@.cursor.position,
            ),
    {
        let line = self.cursor.position.line;
        let col = self.cursor.position.column;
        match self.buffer.line_col_to_char(line, col) {
            Some(char_idx) => {
                proof {
                    lemma_line_start(self@.text, line as nat);
                    lemma_line_end(self@.text, line as nat);
                }
                self.buffer.insert_char(char_idx, ch);
                proof {
                    lemma_splice_count(old(self)@.text, char_idx as int, seq![ch]);
                    lemma_newlines_bound(old(self)@.text, old(self)@.text.len() as int);
                    if ch != '\n' {
                        lemma_splice_in_line(old(self)@.text, line as nat, col as nat, seq![ch]);
                    }
                }
                if ch == '\n' {
                    self.cursor.position.line = line + 1;
                    self.cursor.position.column = 0;
                } else {
                    self.cursor.position.column = col + 1;
                }
                self.viewport.ensure_visible(self.cursor.position.line);
            },
            None => {},
        }
    }

    /// Insert a string at the cursor position, character by character.
    pub fn insert_str(&mut self, text: &str)
        requires
            col_ok(old(self)@.text, old(self)@.cursor.position),
        ensures
            final(self)@ == view_insert_seq(old(self)@, text@),
            final(self).buffer.spec_path() == old(self).buffer.spec_path(),
            col_ok(final(self)@.text, final(self)@.cursor.position),
    {
        let n = text.unicode_len();
        let ghost orig = self@;
        let mut i: usize = 0;
        while i < n
            invariant
                i <= n,
                n == text@.len(),
                self@ == view_insert_seq(orig, text@.subrange(0, i as int)),
                self.buffer.spec_path() == old(self).buffer.spec_path(),
                col_ok(self@.text, self@.cursor.position),
            decreases n - i,
        {
            let ch = text.get_char(i);
            proof {
                lemma_view_insert_seq_snoc(orig, text@.subrange(0, i as int), ch);
                assert(text@.subrange(0, i as int).push(ch) =~= text@.subrange(0, i + 1));
            }
            self.insert_char(ch);
            i = i + 1;
        }
        proof {
            assert(text@.subrange(0, n as int) =~= text@);
        }
    }

    /// Insert a line terminator at the cursor position.
    pub fn insert_newline(&mut self)
        requires
            col_ok(old(self)@.text, old(self)@.cursor.position),
        ensures
            final(self)@ == view_insert_char(old(self)@, '\n'),
            final(self).buffer.spec_path() == old(self).buffer.spec_path(),
            col_ok(final(self)@.text, final(self)@.cursor.position),
    {
        self.insert_char('\n');
    }

    /// Delete the character before the cursor; at the start of a line,
    /// join it to the previous line instead. A no-op at the document
    /// start or with the cursor's line past the document.
    pub fn backspace(&mut self)
        requires
            col_ok(old(self)@.text, old(self)@.cursor.position),
        ensures
            final(self).buffer.spec_path() == old(self).buffer.spec_path(),
            final(self)@.cursor.anchor == old(self)@.cursor.anchor,
            final(self)@.cursor.preferred_column == old(self)@.cursor.preferred_column,
            col_ok(final(self)@.text, final(self)@.cursor.position),
            line_ok(old(self)@.text, old(self)@.cursor.position) ==> line_ok(
                final(self)@.text,
                final(self)@.cursor.position,
            ),
            ({
                let s = old(self)@.text;
                let p = old(self)@.cursor.position;
                let v = old(self)@.viewport;
                if p.column > 0 {
                    if p.line < line_count(s) {
                        let off = line_start(s, p.line as nat) + p.column;
                        &&& final(self)@.text == removed(s, off - 1, off)
                        &&& final(self)@.modified
                        &&& final(self)@.cursor.position == (Position {
                            line: p.line,
                            column: (p.column - 1) as usize,
                        })
                        &&& final(self)@.viewport == v
                    } else {
                        &&& final(self)@.text == s
                        &&& final(self)@.modified == old(self)@.modified
                        &&& final(self)@.cursor.position == p
                        &&& final(self)@.viewport == v
                    }
                } else if p.line > 0 {
                    if p.line < line_count(s) {
                        let off = line_start(s, p.line as nat);
                        &&& final(self)@.text == removed(s, off - 1, off)
                        &&& final(self)@.modified
                        &&& final(self)@.cursor.position == (Position {
                            line: (p.line - 1) as usize,
                            column: line_len(s, (p.line - 1) as nat) as usize,
                        })
                        &&& final(self)@.viewport == visible_after(v, (p.line - 1) as usize)
                    } else {
                        &&& final(self)@.text == s
                        &&& final(self)@.modified == old(self)@.modified
                        &&& final(self)@.cursor.position == p
                        &&& final(self)@.viewport == visible_after(v, p.line)
                    }
                } else {
                    &&& final(self)@.text == s
                    &&& final(self)@.modified == old(self)@.modified
                    &&& final(self)@.cursor.position == p
                    &&& final(self)@.viewport == v
                }
            }),
    {
        if self.cursor.position.column > 0 {
            let line = self.cursor.position.line;
            let col = self.cursor.position.column;
            match self.buffer.line_col_to_char(line, col - 1) {
                Some(char_idx) => {
                    proof {
                        lemma_line_start(self@.text, line as nat);
                        lemma_line_end(self@.text, line as nat);
                        lemma_remove_range(
                            self@.text,
                            line as nat,
                            (col - 1) as nat,
                            line as nat,
                            col as nat,
                        );
                    }
                    self.buffer.remove(char_idx, char_idx + 1);
                    self.cursor.position.column = col - 1;
                },
                None => {},
            }
        } else if self.cursor.position.line > 0 {
            let line = self.cursor.position.line;
            let prev_line_len = self.line_len_or0(line - 1);
            match self.buffer.line_col_to_char(line, 0) {
                Some(char_idx) => {
                    proof {
                        lemma_line_start(self@.text, line as nat);
                        lemma_line_end(self@.text, (line - 1) as nat);
                        lemma_remove_range(
                            self@.text,
                            (line - 1) as nat,
                            line_len(self@.text, (line - 1) as nat),
                            line as nat,
                            0,
                        );
                    }
                    self.buffer.remove(char_idx - 1, char_idx);
                    self.cursor.position.line = line - 1;
                    self.cursor.position.column = prev_line_len;
                },
                None => {},
            }
            self.viewport.ensure_visible(self.cursor.position.line);
        }
    }

    /// Delete the character under the cursor; at the end of a line, join
    /// the next line instead. A no-op at the document end.
    pub fn delete(&mut self)
        requires
            col_ok(old(self)@.text, old(self)@.cursor.position),
        ensures
            final(self).buffer.spec_path() == old(self).buffer.spec_path(),
            final(self)@.cursor == old(self)@.cursor,
            final(self)@.viewport == old(self)@.viewport,
            col_ok(final(self)@.text, final(self)@.cursor.position),
            line_ok(old(self)@.text, old(self)@.cursor.position) ==> line_ok(
                final(self)@.text,
                final(self)@.cursor.position,
            ),
            ({
                let s = old(self)@.text;
                let p = old(self)@.cursor.position;
                if p.line < line_count(s) && p.column < line_len(s, p.line as nat) {
                    let off = line_start(s, p.line as nat) + p.column;
                    &&& final(self)@.text == removed(s, off, off + 1)
                    &&& final(self)@.modified
                } else if p.line + 1 < line_count(s) {
                    let off = line_end(s, p.line as nat);
                    &&& final(self)@.text == removed(s, off, off + 1)
                    &&& final(self)@.modified
                } else {
                    &&& final(self)@.text == s
                    &&& final(self)@.modified == old(self)@.modified
                }
            }),
    {
        let line = self.cursor.position.line;
        let col = self.cursor.position.column;
        let line_len_here = self.current_line_len();
        if col < line_len_here {
            match self.buffer.line_col_to_char(line, col) {
                Some(char_idx) => {
                    proof {
                        lemma_line_start(self@.text, line as nat);
                        lemma_line_end(self@.text, line as nat);
                        lemma_remove_range(
                            self@.text,
                            line as nat,
                            col as nat,
                            line as nat,
                            (col + 1) as nat,
                        );
                    }
                    self.buffer.remove(char_idx, char_idx + 1);
                },
                None => {},
            }
        } else if line < self.buffer.len_lines() - 1 {
            match self.buffer.line_col_to_char(line, col) {
                Some(char_idx) => {
                    proof {
                        lemma_line_start(self@.text, line as nat);
                        lemma_line_end(self@.text, line as nat);
                        lemma_line_end(self@.text, (line + 1) as nat);
                        lemma_remove_range(
                            self@.text,
                            line as nat,
                            line_len(self@.text, line as nat),
                            (line + 1) as nat,
                            0,
                        );
                    }
                    self.buffer.remove(char_idx, char_idx + 1);
                },
                None => {},
            }
        }
    }

    /// Start a selection at the cursor if none is active.
    pub fn start_selection(&mut self)
        ensures
            final(self)@ == (EditorView {
                cursor: Cursor {
                    position: old(self)@.cursor.position,
                    anchor: if old(self)@.cursor.anchor is Some {
                        old(self)@.cursor.anchor
                    } else {
                        Some(old(self)@.cursor.position)
                    },
                    preferred_column: old(self)@.cursor.preferred_column,
                },
                ..old(self)@
            }),
            final(self).buffer.spec_path() == old(self).buffer.spec_path(),
    {
        if !self.cursor.has_selection() {
            self.cursor.start_selection();
        }
    }

    /// Clear the selection.
    pub fn clear_selection(&mut self)
        ensures
            final(self)@ == (EditorView {
                cursor: Cursor {
                    position: old(self)@.cursor.position,
                    anchor: None,
                    preferred_column: old(self)@.cursor.preferred_column,
                },
                ..old(self)@
            }),
            final(self).buffer.spec_path() == old(self).buffer.spec_path(),
    {
        self.cursor.clear_selection();
    }

    /// Get the selected text, or nothing if no selection is active (or it
    /// refers past the document).
    pub fn get_selected_text(&self) -> (r: Option<String>)
        requires
            col_ok(self@.text, self@.cursor.position),
            match self@.cursor.anchor {
                Some(a) => col_ok(self@.text, a),
                None => true,
            },
        ensures
            match self@.cursor.anchor {
                Some(a) => {
                    let se = ordered_sel(a, self@.cursor.position);
                    if se.0.line < line_count(self@.text) && se.1.line < line_count(self@.text) {
                        &&& r is Some
                        &&& r.unwrap()@ == self@.text.subrange(
                            pos_offset(self@.text, se.0),
                            pos_offset(self@.text, se.1),
                        )
                    } else {
                        r is None
                    }
                },
                None => r is None,
            },
    {
        match self.cursor.selection_range() {
            Some((start, end)) => {
                match (
                    self.buffer.line_col_to_char(start.line, start.column),
                    self.buffer.line_col_to_char(end.line, end.column),
                ) {
                    (Some(start_idx), Some(end_idx)) => {
                        proof {
                            lemma_remove_range(
                                self@.text,
                                start.line as nat,
                                start.column as nat,
                                end.line as nat,
                                end.column as nat,
                            );
                        }
                        Some(self.buffer.slice(start_idx, end_idx))
                    },
                    _ => None,
                }
            },
            None => None,
        }
    }

    /// Delete the selected text, if any: the cursor lands on the lower
    /// endpoint and the selection is cleared. Returns whether anything
    /// was deleted; see [`view_delete_selection`].
    pub fn delete_selection(&mut self) -> (r: bool)
        requires
            col_ok(old(self)@.text, old(self)@.cursor.position),
            match old(self)@.cursor.anchor {
                Some(a) => col_ok(old(self)@.text, a),
                None => true,
            },
        ensures
            final(self)@ == view_delete_selection(old(self)@).0,
            r == view_delete_selection(old(self)@).1,
            final(self).buffer.spec_path() == old(self).buffer.spec_path(),
            col_ok(final(self)@.text, final(self)@.cursor.position),
            line_ok(old(self)@.text, old(self)@.cursor.position) ==> line_ok(
                final(self)@.text,
                final(self)@.cursor.position,
            ),
    {
        match self.cursor.selection_range() {
            Some((start, end)) => {
                match (
                    self.buffer.line_col_to_char(start.line, start.column),
                    self.buffer.line_col_to_char(end.line, end.column),
                ) {
                    (Some(start_idx), Some(end_idx)) => {
                        proof {
                            lemma_remove_range(
                                self@.text,
                                start.line as nat,
                                start.column as nat,
                                end.line as nat,
                                end.column as nat,
                            );
                        }
                        self.buffer.remove(start_idx, end_idx);
                        self.cursor.position = start;
                        self.cursor.clear_selection();
                        self.viewport.ensure_visible(self.cursor.position.line);
                        true
                    },
                    _ => false,
                }
            },
            None => false,
        }
    }

    /// Replace the selection with the given text: delete any active
    /// selection, then insert the text at the resulting cursor position.
    pub fn replace_selection(&mut self, text: &str)
        requires
            col_ok(old(self)@.text, old(self)@.cursor.position),
            match old(self)@.cursor.anchor {
                Some(a) => col_ok(old(self)@.text, a),
                None => true,
            },
        ensures
            final(self)@ == view_insert_seq(view_delete_selection(old(self)@).0, text@),
            final(self).buffer.spec_path() == old(self).buffer.spec_path(),
            col_ok(final(self)@.text, final(self)@.cursor.position),
    {
        self.delete_selection();
        self.insert_str(text);
    }

    /// Move up while extending the selection: anchor at the current
    /// position if none is active, then a plain upward move.
    pub fn move_up_select(&mut self)
        requires
            line_ok(old(self)@.text, old(self)@.cursor.position),
        ensures
            final(self)@.text == old(self)@.text,
            final(self)@.modified == old(self)@.modified,
            final(self).buffer.spec_path() == old(self).buffer.spec_path(),
            final(self)@.cursor == after_move_up(
                anchored(old(self)@.cursor),
                line_lens(old(self)@.text),
                1,
            ),
            final(self)@.viewport == visible_after(
                old(self)@.viewport,
                final(self)@.cursor.position.line,
            ),
            line_ok(final(self)@.text, final(self)@.cursor.position),
    {
        self.start_selection();
        self.move_up();
    }

    /// Move down while extending the selection.
    pub fn move_down_select(&mut self)
        requires
            line_ok(old(self)@.text, old(self)@.cursor.position),
        ensures
            final(self)@.text == old(self)@.text,
            final(self)@.modified == old(self)@.modified,
            final(self).buffer.spec_path() == old(self).buffer.spec_path(),
            final(self)@.cursor == after_move_down(
                anchored(old(self)@.cursor),
                line_lens(old(self)@.text),
                1,
            ),
            final(self)@.viewport == visible_after(
                old(self)@.viewport,
                final(self)@.cursor.position.line,
            ),
            line_ok(final(self)@.text, final(self)@.cursor.position),
    {
        self.start_selection();
        self.move_down();
    }

    /// Move left while extending the selection.
    pub fn move_left_select(&mut self)
        requires
            line_ok(old(self)@.text, old(self)@.cursor.position),
        ensures
            final(self)@.text == old(self)@.text,
            final(self)@.modified == old(self)@.modified,
            final(self).buffer.spec_path() == old(self).buffer.spec_path(),
            final(self)@.cursor.position == left_moves(
                line_lens(old(self)@.text),
                old(self)@.cursor.position,
                1,
            ),
            final(self)@.cursor.anchor == anchored(old(self)@.cursor).anchor,
            final(self)@.cursor.preferred_column is None,
            final(self)@.viewport == visible_after(
                old(self)@.viewport,
                final(self)@.cursor.position.line,
            ),
            line_ok(final(self)@.text, final(self)@.cursor.position),
    {
        self.start_selection();
        self.move_left();
    }

    /// Move right while extending the selection.
    pub fn move_right_select(&mut self)
        requires
            line_ok(old(self)@.text, old(self)@.cursor.position),
        ensures
            final(self)@.text == old(self)@.text,
            final(self)@.modified == old(self)@.modified,
            final(self).buffer.spec_path() == old(self).buffer.spec_path(),
            final(self)@.cursor.position == right_moves(
                line_lens(old(self)@.text),
                old(self)@.cursor.position,
                1,
            ),
            final(self)@.cursor.anchor == anchored(old(self)@.cursor).anchor,
            final(self)@.cursor.preferred_column is None,
            final(self)@.viewport == visible_after(
                old(self)@.viewport,
                final(self)@.cursor.position.line,
            ),
            line_ok(final(self)@.text, final(self)@.cursor.position),
    {
        self.start_selection();
        self.move_right();
    }

    /// Move to the line start while extending the selection.
    pub fn move_to_line_start_select(&mut self)
        ensures
            final(self)@.text == old(self)@.text,
            final(self)@.modified == old(self)@.modified,
            final(self).buffer.spec_path() == old(self).buffer.spec_path(),
            final(self)@.cursor.position == (Position {
                line: old(self)@.cursor.position.line,
                column: 0,
            }),
            final(self)@.cursor.anchor == anchored(old(self)@.cursor).anchor,
            final(self)@.cursor.preferred_column is None,
            final(self)@.viewport == old(self)@.viewport,
    {
        self.start_selection();
        self.move_to_line_start();
    }

    /// Move to the line end while extending the selection.
    pub fn move_to_line_end_select(&mut self)
        ensures
            final(self)@.text == old(self)@.text,
            final(self)@.modified == old(self)@.modified,
            final(self).buffer.spec_path() == old(self).buffer.spec_path(),
            final(self)@.cursor.position == (Position {
                line: old(self)@.cursor.position.line,
                column: if old(self)@.cursor.position.line < line_count(old(self)@.text) {
                    line_len(old(self)@.text, old(self)@.cursor.position.line as nat) as usize
                } else {
                    0usize
                },
            }),
            final(self)@.cursor.anchor == anchored(old(self)@.cursor).anchor,
            final(self)@.cursor.preferred_column is None,
            final(self)@.viewport == old(self)@.viewport,
    {
        self.start_selection();
        self.move_to_line_end();
    }

    /// Move to the document start while extending the selection.
    pub fn move_to_start_select(&mut self)
        ensures
            final(self)@.text == old(self)@.text,
            final(self)@.modified == old(self)@.modified,
            final(self).buffer.spec_path() == old(self).buffer.spec_path(),
            final(self)@.cursor.position == (Position { line: 0, column: 0 }),
            final(self)@.cursor.anchor == anchored(old(self)@.cursor).anchor,
            final(self)@.cursor.preferred_column is None,
            final(self)@.viewport == (Viewport {
                top_line: 0,
                height: old(self)@.viewport.height,
                width: old(self)@.viewport.width,
            }),
            line_ok(final(self)@.text, final(self)@.cursor.position),
    {
        self.start_selection();
        self.move_to_start();
    }

    /// Move to the document end while extending the selection.
    pub fn move_to_end_select(&mut self)
        ensures
            final(self)@.text == old(self)@.text,
            final(self)@.modified == old(self)@.modified,
            final(self).buffer.spec_path() == old(self).buffer.spec_path(),
            final(self)@.cursor.position == (Position {
                line: (line_count(old(self)@.text) - 1) as usize,
                column: line_len(
                    old(self)@.text,
                    (line_count(old(self)@.text) - 1) as nat,
                ) as usize,
            }),
            final(self)@.cursor.anchor == anchored(old(self)@.cursor).anchor,
            final(self)@.cursor.preferred_column is None,
            final(self)@.viewport == visible_after(
                old(self)@.viewport,
                final(self)@.cursor.position.line,
            ),
            line_ok(final(self)@.text, final(self)@.cursor.position),
            col_ok(final(self)@.text, final(self)@.cursor.position),
    {
        self.start_selection();
        self.move_to_end();
    }

    /// Select the whole document: anchor at its start, cursor at its end.
    pub fn select_all(&mut self)
        ensures
            final(self)@.text == old(self)@.text,
            final(self)@.modified == old(self)@.modified,
            final(self).buffer.spec_path() == old(self).buffer.spec_path(),
            final(self)@.cursor.anchor == Some(Position { line: 0, column: 0 }),
            final(self)@.cursor.position == (Position {
                line: (line_count(old(self)@.text) - 1) as usize,
                column: line_len(
                    old(self)@.text,
                    (line_count(old(self)@.text) - 1) as nat,
                ) as usize,
            }),
            final(self)@.cursor.preferred_column is None,
            line_ok(final(self)@.text, final(self)@.cursor.position),
            col_ok(final(self)@.text, final(self)@.cursor.position),
            col_ok(final(self)@.text, final(self)@.cursor.anchor.unwrap()),
    {
        self.move_to_start();
        self.cursor.start_selection();
        self.move_to_end();
    }

    /// Check if the buffer has been modified since the last save.
    pub fn is_modified(&self) -> (r: bool)
        ensures
            r == self@.modified,
    {
        self.buffer.is_modified()
    }

    /// Get the backing file path, if one is set.
    pub fn path(&self) -> (r: Option<&String>)
        ensures
            r is Some <==> self.buffer.spec_path() is Some,
            match r {
                Some(p) => self.buffer.spec_path() == Some(p@),
                None => true,
            },
    {
        self.buffer.path()
    }

    /// The file name to display: the path's last component — what
    /// follows its last slash, trailing slashes dropped first — or a
    /// placeholder when no path is set or the component names no file
    /// (it is empty, `.` or `..`).
    pub fn filename(&self) -> (r: String)
        ensures
            match self.buffer.spec_path() {
                Some(p) => {
                    let t = trim_slashes(p, p.len() as int);
                    let b = p.subrange(basename_cut(p, t), t);
                    if b.len() == 0 || b == ".."@ || b == "."@ {
                        r@ == "[untitled]"@
                    } else {
                        r@ == b
                    }
                },
                None => r@ == "[untitled]"@,
            },
    {
        match self.buffer.path() {
            Some(p) => {
                let s: &str = p.as_str();
                let n = s.unicode_len();
                // drop trailing separators
                let mut t: usize = n;
                while t > 0 && s.get_char(t - 1) == '/'
                    invariant
                        t <= n,
                        n == s@.len(),
                        trim_slashes(s@, n as int) == trim_slashes(s@, t as int),
                    decreases t,
                {
                    t = t - 1;
                }
                // find where the last component begins
                let mut cut: usize = 0;
                let mut j: usize = 0;
                while j < t
                    invariant
                        j <= t <= n,
                        n == s@.len(),
                        cut <= j,
                        cut == basename_cut(s@, j as int),
                    decreases t - j,
                {
                    if s.get_char(j) == '/' {
                        cut = j + 1;
                    }
                    j = j + 1;
                }
                let base = s.substring_char(cut, t);
                if base.unicode_len() == 0 || str_eq(base, "..") || str_eq(base, ".") {
                    "[untitled]".to_owned()
                } else {
                    base.to_owned()
                }
            },
            None => "[untitled]".to_owned(),
        }
    }
}

} // verus!
