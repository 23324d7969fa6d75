//! Text buffer: the document's character sequence plus an optional backing
//! file path and a modified flag.
//!
//! Offsets are character indices into the whole document. The buffer always
//! has at least one line; an empty document has exactly one, empty, line.
//! Reading or writing the backing file is the embedding application's task:
//! it loads through [`Buffer::with_content`] and [`Buffer::set_path`], and
//! clears the modified flag through [`Buffer::mark_saved`] after a
//! successful write of [`Buffer::text`].

use vstd::prelude::*;

use crate::rope::{
    rope_char_to_line, rope_from_str, rope_insert, rope_insert_char, rope_len_chars,
    rope_len_lines, rope_line_string, rope_line_to_char, rope_new, rope_remove,
    rope_slice_string, rope_text, rope_to_string,
};
use crate::text::{
    lemma_line_end, lemma_line_start, lemma_off_on_line, line_count, line_end, line_len, line_of,
    line_seg, line_start, removed, spliced,
};

verus! {

/// Failure of a buffer operation.
#[derive(Debug)]
pub enum BufferError {
    /// The backing file could not be read or written; holds the
    /// description of the underlying failure.
    ReadError(String),
    /// A position does not lie within the document.
    OutOfBounds { line: usize, column: usize },
}

/// A text buffer backed by a rope.
pub struct Buffer {
    rope: ropey::Rope,
    path: Option<String>,
    modified: bool,
}

impl View for Buffer {
    type V = Seq<char>;

    closed spec fn view(&self) -> Seq<char> {
        rope_text(self.rope)
    }
}

impl Buffer {
    /// Any buffer's content fits in memory, one byte or more per character.
    #[verifier::type_invariant]
    pub closed spec fn wf(self) -> bool {
        rope_text(self.rope).len() <= usize::MAX
    }

    /// The backing file path, as a character sequence.
    pub closed spec fn spec_path(&self) -> Option<Seq<char>> {
        match self.path {
            Some(p) => Some(p@),
            None => None,
        }
    }

    /// Whether the buffer changed since it was created or last saved.
    pub closed spec fn spec_modified(&self) -> bool {
        self.modified
    }

    /// Create a new empty buffer.
    pub fn new() -> (b: Buffer)
        ensures
            b@ == Seq::<char>::empty(),
            b.spec_path() is None,
            !b.spec_modified(),
    {
        Buffer { rope: rope_new(), path: None, modified: false }
    }

    /// Create a buffer with initial content.
    pub fn with_content(text: &str) -> (b: Buffer)
        ensures
            b@ == text@,
            b.spec_path() is None,
            !b.spec_modified(),
    {
        Buffer { rope: rope_from_str(text), path: None, modified: false }
    }

    /// Get the total number of lines; at least one.
    pub fn len_lines(&self) -> (r: usize)
        ensures
            r == line_count(self@),
            r >= 1,
    {
        rope_len_lines(&self.rope)
    }

    /// Get the total number of characters.
    pub fn len_chars(&self) -> (r: usize)
        ensures
            r == self@.len(),
    {
        rope_len_chars(&self.rope)
    }

    /// Check if the buffer is empty.
    pub fn is_empty(&self) -> (r: bool)
        ensures
            r == (self@.len() == 0),
    {
        rope_len_chars(&self.rope) == 0
    }

    /// Get a specific line (0-indexed), including its terminator if it has
    /// one, or nothing if the index is past the last line.
    pub fn line(&self, line_idx: usize) -> (r: Option<String>)
        ensures
            r is Some <==> line_idx < line_count(self@),
            match r {
                Some(s) => s@ == line_seg(self@, line_idx as nat),
                None => true,
            },
    {
        if line_idx < rope_len_lines(&self.rope) {
            Some(rope_line_string(&self.rope, line_idx))
        } else {
            None
        }
    }

    /// Get the character count of a specific line, excluding its trailing
    /// terminator, or nothing if the index is past the last line.
    pub fn line_len(&self, line_idx: usize) -> (r: Option<usize>)
        ensures
            r is Some <==> line_idx < line_count(self@),
            match r {
                Some(n) => n == line_len(self@, line_idx as nat),
                None => true,
            },
    {
        let total = rope_len_lines(&self.rope);
        if line_idx >= total {
            return None;
        }
        proof {
            use_type_invariant(self);
            lemma_line_end(self@, line_idx as nat);
        }
        let s = rope_line_to_char(&self.rope, line_idx);
        let e = rope_line_to_char(&self.rope, line_idx + 1);
        if line_idx + 1 < total {
            Some(e - s - 1)
        } else {
            Some(e - s)
        }
    }

    /// Insert text at a character index.
    pub fn insert(&mut self, char_idx: usize, text: &str)
        requires
            char_idx <= old(self)@.len(),
        ensures
            final(self)@ == spliced(old(self)@, char_idx as int, text@),
            final(self)@.len() <= usize::MAX,
            final(self).spec_path() == old(self).spec_path(),
            final(self).spec_modified(),
    {
        rope_insert(&mut self.rope, char_idx, text);
        self.modified = true;
    }

    /// Insert a single character at a character index.
    pub fn insert_char(&mut self, char_idx: usize, ch: char)
        requires
            char_idx <= old(self)@.len(),
        ensures
            final(self)@ == spliced(old(self)@, char_idx as int, seq![ch]),
            final(self)@.len() <= usize::MAX,
            final(self).spec_path() == old(self).spec_path(),
            final(self).spec_modified(),
    {
        rope_insert_char(&mut self.rope, char_idx, ch);
        self.modified = true;
    }

    /// Remove the half-open character range `[start, end)`.
    pub fn remove(&mut self, start: usize, end: usize)
        requires
            start <= end <= old(self)@.len(),
        ensures
            final(self)@ == removed(old(self)@, start as int, end as int),
            final(self)@.len() <= usize::MAX,
            final(self).spec_path() == old(self).spec_path(),
            final(self).spec_modified(),
    {
        proof {
            use_type_invariant(&*self);
        }
        rope_remove(&mut self.rope, start, end);
        self.modified = true;
    }

    /// Convert a line/column position to a character index, clamping the
    /// column to the line's length; nothing if the line is past the last.
    pub fn line_col_to_char(&self, line: usize, col: usize) -> (r: Option<usize>)
        ensures
            r is Some <==> line < line_count(self@),
            self@.len() <= usize::MAX,
            match r {
                Some(off) => ({
                    let c = if col <= line_len(self@, line as nat) {
                        col as int
                    } else {
                        line_len(self@, line as nat) as int
                    };
                    off == line_start(self@, line as nat) + c
                }),
                None => true,
            },
    {
        proof {
            use_type_invariant(self);
        }
        let total = rope_len_lines(&self.rope);
        if line >= total {
            return None;
        }
        proof {
            lemma_line_end(self@, line as nat);
        }
        let start = rope_line_to_char(&self.rope, line);
        let ll = match self.line_len(line) {
            Some(n) => n,
            None => 0,
        };
        let c = if col < ll {
            col
        } else {
            ll
        };
        Some(start + c)
    }

    /// Convert a character index to its line/column position; defined for
    /// every offset up to and including the document length.
    pub fn char_to_line_col(&self, char_idx: usize) -> (r: (usize, usize))
        requires
            char_idx <= self@.len(),
        ensures
            r.0 == line_of(self@, char_idx as int),
            r.1 == char_idx - line_start(self@, line_of(self@, char_idx as int)),
    {
        proof {
            lemma_off_on_line(self@, char_idx as int);
        }
        let line = rope_char_to_line(&self.rope, char_idx);
        let line_start = rope_line_to_char(&self.rope, line);
        (line, char_idx - line_start)
    }

    /// Get the backing file path, if one is set.
    pub fn path(&self) -> (r: Option<&String>)
        ensures
            r is Some <==> self.spec_path() is Some,
            match r {
                Some(p) => self.spec_path() == Some(p@),
                None => true,
            },
    {
        self.path.as_ref()
    }

    /// Set the backing file path.
    pub fn set_path(&mut self, path: String)
        ensures
            final(self)@ == old(self)@,
            final(self).spec_path() == Some(path@),
            final(self).spec_modified() == old(self).spec_modified(),
    {
        proof {
            use_type_invariant(&*self);
        }
        self.path = Some(path);
    }

    /// Record that the content reached its backing file: clears the
    /// modified flag.
    pub fn mark_saved(&mut self)
        ensures
            final(self)@ == old(self)@,
            final(self).spec_path() == old(self).spec_path(),
            !final(self).spec_modified(),
    {
        proof {
            use_type_invariant(&*self);
        }
        self.modified = false;
    }

    /// Check if the buffer has been modified since the last save.
    pub fn is_modified(&self) -> (r: bool)
        ensures
            r == self.spec_modified(),
    {
        self.modified
    }

    /// Get the entire text as a string.
    pub fn text(&self) -> (r: String)
        ensures
            r@ == self@,
    {
        rope_to_string(&self.rope)
    }

    /// Get the text of the half-open character range `[start, end)`.
    pub fn slice(&self, start: usize, end: usize) -> (r: String)
        requires
            start <= end <= self@.len(),
        ensures
            r@ == self@.subrange(start as int, end as int),
    {
        rope_slice_string(&self.rope, start, end)
    }
}

impl Default for Buffer {
    /// An empty buffer without a path.
    fn default() -> (b: Buffer)
        ensures
            b@ == Seq::<char>::empty(),
            b.spec_path() is None,
            !b.spec_modified(),
    {
        Buffer::new()
    }
}

} // verus!
