//! The embedded text-field editor: an owned character buffer plus a cursor
//! that always sits on a character boundary. Supports left/right movement by
//! one character, line-aware up/down movement with column preservation,
//! insertion, backspace, and a caret-marked rendering of the value.

use vstd::prelude::*;
use crate::text::{chars_string, str_chars};

verus! {

/// Start of the line containing position `c`: the nearest index at or before
/// `c` that is 0 or preceded by a line break.
pub open spec fn line_start_of(s: Seq<char>, c: int) -> int
    decreases c,
{
    if c <= 0 {
        0
    } else if s[c - 1] == '\n' {
        c
    } else {
        line_start_of(s, c - 1)
    }
}

/// End of the line containing position `c`: the nearest line-break index at
/// or after `c`, or the buffer length when the line is the last.
pub open spec fn line_end_of(s: Seq<char>, c: int) -> int
    decreases s.len() - c,
{
    if c < 0 || c >= s.len() {
        s.len() as int
    } else if s[c] == '\n' {
        c
    } else {
        line_end_of(s, c + 1)
    }
}

/// Where the cursor lands when moving up one visual line: the same column on
/// the previous line, clamped to that line's length; unchanged on the first
/// line.
pub open spec fn cursor_up(s: Seq<char>, c: int) -> int {
    let st = line_start_of(s, c);
    if st == 0 {
        c
    } else {
        let pst = line_start_of(s, st - 1);
        let col = c - st;
        if pst + col < st - 1 {
            pst + col
        } else {
            st - 1
        }
    }
}

/// Where the cursor lands when moving down one visual line: the same column
/// on the next line, clamped to that line's length; unchanged on the last
/// line.
pub open spec fn cursor_down(s: Seq<char>, c: int) -> int {
    let st = line_start_of(s, c);
    let en = line_end_of(s, c);
    if en >= s.len() {
        c
    } else {
        let nst = en + 1;
        let nen = line_end_of(s, nst);
        let col = c - st;
        if nst + col < nen {
            nst + col
        } else {
            nen
        }
    }
}

/// One editable text field: the buffer as characters, and the cursor as a
/// character index into it (so it can never split an encoded character).
#[derive(Debug, Clone)]
pub struct FieldValue {
    pub chars: Vec<char>,
    pub cursor: usize,
}

impl FieldValue {
    /// The characters currently in the field.
    pub open spec fn text(self) -> Seq<char> {
        self.chars@
    }

    /// The cursor sits inside the buffer (possibly just past its end).
    pub open spec fn wf(self) -> bool {
        self.cursor <= self.chars@.len()
    }

    /// A field holding `value`, with the cursor at its end.
    pub fn new(value: &str) -> (f: FieldValue)
        ensures
            f.text() == value@,
            f.cursor == value@.len(),
            f.wf(),
    {
        let chars = str_chars(value);
        let cursor = chars.len();
        FieldValue { chars, cursor }
    }

    /// Start of the line containing position `from`.
    fn line_start(&self, from: usize) -> (r: usize)
        requires
            from <= self.chars@.len(),
        ensures
            r as int == line_start_of(self.chars@, from as int),
            r <= from,
    {
        let mut st = from;
        while st > 0 && self.chars[st - 1] != '\n'
            invariant
                0 <= st <= from <= self.chars@.len(),
                line_start_of(self.chars@, from as int) == line_start_of(self.chars@, st as int),
            decreases st,
        {
            st -= 1;
        }
        st
    }

    /// End of the line containing position `from`.
    fn line_end(&self, from: usize) -> (r: usize)
        requires
            from <= self.chars@.len(),
        ensures
            r as int == line_end_of(self.chars@, from as int),
            from <= r <= self.chars@.len(),
    {
        let n = self.chars.len();
        let mut en = from;
        while en < n && self.chars[en] != '\n'
            invariant
                from <= en <= n,
                n == self.chars@.len(),
                line_end_of(self.chars@, from as int) == line_end_of(self.chars@, en as int),
            decreases n - en,
        {
            en += 1;
        }
        en
    }

    /// Steps the cursor to the previous character; a no-op at the start.
    pub fn move_left(&mut self)
        ensures
            final(self).chars == old(self).chars,
            final(self).cursor == if old(self).cursor == 0 {
                0int
            } else {
                old(self).cursor - 1
            },
    {
        if self.cursor == 0 {
            return;
        }
        self.cursor = self.cursor - 1;
    }

    /// Steps the cursor to the next character; a no-op at the end.
    pub fn move_right(&mut self)
        requires
            old(self).wf(),
        ensures
            final(self).chars == old(self).chars,
            final(self).wf(),
            final(self).cursor == if old(self).cursor >= old(self).chars@.len() {
                old(self).cursor as int
            } else {
                old(self).cursor + 1
            },
    {
        if self.cursor >= self.chars.len() {
            return;
        }
        self.cursor = self.cursor + 1;
    }

    /// Moves the cursor up one visual line, keeping the column where the
    /// previous line is long enough; a no-op on the first line.
    pub fn move_up(&mut self)
        requires
            old(self).wf(),
        ensures
            final(self).chars == old(self).chars,
            final(self).wf(),
            final(self).cursor as int == cursor_up(old(self).chars@, old(self).cursor as int),
    {
        let st = self.line_start(self.cursor);
        if st == 0 {
            return;
        }
        let col = self.cursor - st;
        let pst = self.line_start(st - 1);
        let end = st - 1;
        let target = if col < end - pst {
            pst + col
        } else {
            end
        };
        self.cursor = target;
    }

    /// Moves the cursor down one visual line, keeping the column where the
    /// next line is long enough; a no-op on the last line.
    pub fn move_down(&mut self)
        requires
            old(self).wf(),
        ensures
            final(self).chars == old(self).chars,
            final(self).wf(),
            final(self).cursor as int == cursor_down(old(self).chars@, old(self).cursor as int),
    {
        let st = self.line_start(self.cursor);
        let en = self.line_end(self.cursor);
        if en >= self.chars.len() {
            return;
        }
        let col = self.cursor - st;
        let nst = en + 1;
        let nen = self.line_end(nst);
        let target = if col < nen - nst {
            nst + col
        } else {
            nen
        };
        self.cursor = target;
    }

    /// Deletes the character just before the cursor and steps the cursor back
    /// over it; a no-op at the start of the buffer.
    pub fn backspace(&mut self)
        requires
            old(self).wf(),
        ensures
            final(self).wf(),
            old(self).cursor == 0 ==> *final(self) == *old(self),
            old(self).cursor > 0 ==> final(self).chars@ == old(self).chars@.remove(
                old(self).cursor - 1,
            ) && final(self).cursor == old(self).cursor - 1,
    {
        if self.cursor == 0 {
            return;
        }
        let prev = self.cursor - 1;
        self.chars.remove(prev);
        self.cursor = prev;
    }

    /// Inserts one character at the cursor and advances the cursor past it.
    pub fn insert_char(&mut self, ch: char)
        requires
            old(self).wf(),
            old(self).chars@.len() < usize::MAX,
        ensures
            final(self).wf(),
            final(self).chars@ == old(self).chars@.insert(old(self).cursor as int, ch),
            final(self).cursor == old(self).cursor + 1,
    {
        self.chars.insert(self.cursor, ch);
        self.cursor = self.cursor + 1;
    }

    /// The field's text with a caret marker inserted at the cursor, for
    /// display only: the marker is never part of the stored value.
    pub fn with_caret(&self) -> (r: String)
        requires
            self.wf(),
        ensures
            r@ == self.chars@.insert(self.cursor as int, '\u{258c}'),
    {
        let mut out: Vec<char> = Vec::new();
        let mut i: usize = 0;
        while i < self.cursor
            invariant
                0 <= i <= self.cursor <= self.chars@.len(),
                out@ == self.chars@.subrange(0, i as int),
            decreases self.cursor - i,
        {
            out.push(self.chars[i]);
            proof {
                assert(out@ =~= self.chars@.subrange(0, i + 1));
            }
            i += 1;
        }
        out.push('\u{258c}');
        let n = self.chars.len();
        let mut j: usize = self.cursor;
        while j < n
            invariant
                self.cursor <= j <= n,
                n == self.chars@.len(),
                out@ == self.chars@.subrange(0, self.cursor as int).push('\u{258c}') + self.chars@.subrange(
                    self.cursor as int,
                    j as int,
                ),
            decreases n - j,
        {
            out.push(self.chars[j]);
            proof {
                assert(out@ =~= self.chars@.subrange(0, self.cursor as int).push('\u{258c}')
                    + self.chars@.subrange(self.cursor as int, j + 1));
            }
            j += 1;
        }
        proof {
            assert(out@ =~= self.chars@.insert(self.cursor as int, '\u{258c}'));
        }
        chars_string(&out)
    }
}

/// Typing one character and immediately pressing backspace restores the
/// buffer and the cursor exactly, for any starting cursor position and any
/// character, multi-byte ones as well: `g` is the field as `insert_char`
/// leaves it, `h` the field as `backspace` then leaves `g`, and `h` equals
/// the original field.
pub proof fn lemma_insert_then_backspace(f: FieldValue, g: FieldValue, h: FieldValue, ch: char)
    requires
        f.wf(),
        g.chars@ == f.chars@.insert(f.cursor as int, ch),
        g.cursor == f.cursor + 1,
        h.chars@ == g.chars@.remove(g.cursor as int - 1),
        h.cursor == g.cursor - 1,
    ensures
        h.chars@ == f.chars@,
        h.cursor == f.cursor,
{
    assert(h.chars@ =~= f.chars@);
}

} // verus!
