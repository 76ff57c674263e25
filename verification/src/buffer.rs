//! The line-oriented text buffer of the edit session, with its cursor.
//! Every mutation states exactly the text and cursor it leaves behind; the
//! buffer always holds at least one line and the cursor always sits on a
//! line, at or before its end.
use vstd::prelude::*;

use crate::text::view_lines;

verus! {

pub struct TextBuffer {
    pub lines: Vec<Vec<char>>,
    /// Cursor line.
    pub row: usize,
    /// Cursor column, in characters; may sit one past the line end.
    pub col: usize,
}

/// The column after skipping the non-space run that starts at `i`.
pub open spec fn skip_nonspace(line: Seq<char>, i: nat) -> nat
    decreases line.len() - i,
{
    if i < line.len() && line[i as int] != ' ' {
        skip_nonspace(line, i + 1)
    } else {
        i
    }
}

/// The column after skipping the space run that starts at `i`.
pub open spec fn skip_space(line: Seq<char>, i: nat) -> nat
    decreases line.len() - i,
{
    if i < line.len() && line[i as int] == ' ' {
        skip_space(line, i + 1)
    } else {
        i
    }
}

/// The next word boundary from `i`: past the current non-space run, then
/// past the spaces that follow it.
pub open spec fn word_boundary(line: Seq<char>, i: nat) -> nat {
    skip_space(line, skip_nonspace(line, i))
}

/// The column at the start of the space run that ends at `i`.
pub open spec fn skip_space_back(line: Seq<char>, i: nat) -> nat
    decreases i,
{
    if i > 0 && i <= line.len() && line[i - 1] == ' ' {
        skip_space_back(line, (i - 1) as nat)
    } else {
        i
    }
}

/// The column at the start of the non-space run that ends at `i`.
pub open spec fn skip_nonspace_back(line: Seq<char>, i: nat) -> nat
    decreases i,
{
    if i > 0 && i <= line.len() && line[i - 1] != ' ' {
        skip_nonspace_back(line, (i - 1) as nat)
    } else {
        i
    }
}

/// The previous word start from `i`: before the spaces just behind the
/// cursor, then to the head of the non-space run there.
pub open spec fn prev_word_boundary(line: Seq<char>, i: nat) -> nat {
    skip_nonspace_back(line, skip_space_back(line, i))
}

/// `skip_nonspace` and `skip_space` stay within the line and never go back.
pub proof fn lemma_skip_bounds(line: Seq<char>, i: nat)
    requires
        i <= line.len(),
    ensures
        i <= skip_nonspace(line, i) <= line.len(),
        i <= skip_space(line, i) <= line.len(),
    decreases line.len() - i,
{
    if i < line.len() {
        lemma_skip_bounds(line, i + 1);
    }
}

impl TextBuffer {
    /// The text, line by line.
    pub open spec fn text(self) -> Seq<Seq<char>> {
        view_lines(self.lines@)
    }

    /// At least one line; the cursor on a line, at or before its end.
    pub open spec fn wf(self) -> bool {
        &&& self.lines@.len() >= 1
        &&& self.row < self.lines@.len()
        &&& self.col <= self.lines@[self.row as int]@.len()
    }

    /// The line the cursor is on.
    pub open spec fn cur_line(self) -> Seq<char> {
        self.text()[self.row as int]
    }

    /// One empty line, cursor at its start.
    pub fn new() -> (r: TextBuffer)
        ensures
            r.wf(),
            r.text() =~= seq![Seq::<char>::empty()],
            r.row == 0 && r.col == 0,
    {
        let mut lines: Vec<Vec<char>> = Vec::new();
        lines.push(Vec::new());
        TextBuffer { lines, row: 0, col: 0 }
    }

    /// A buffer over the given lines (one empty line when none are given),
    /// cursor at the start.
    pub fn from_lines(lines: Vec<Vec<char>>) -> (r: TextBuffer)
        ensures
            r.wf(),
            lines@.len() == 0 ==> r.text() =~= seq![Seq::<char>::empty()],
            lines@.len() > 0 ==> r.text() == view_lines(lines@),
            r.row == 0 && r.col == 0,
    {
        if lines.len() == 0 {
            TextBuffer::new()
        } else {
            TextBuffer { lines, row: 0, col: 0 }
        }
    }

    /// Length of the line the cursor is on.
    fn cur_len(&self) -> (n: usize)
        requires
            self.row < self.lines@.len(),
        ensures
            n == self.cur_line().len(),
    {
        self.lines[self.row].len()
    }

    /// Cursor one step forward: within the line, else to the start of the
    /// next line, else unchanged.
    pub fn move_forward(&mut self)
        requires
            old(self).wf(),
        ensures
            final(self).wf(),
            final(self).text() == old(self).text(),
            final(self).lines == old(self).lines,
            (if old(self).col < old(self).cur_line().len() {
                final(self).row == old(self).row && final(self).col == old(self).col + 1
            } else if old(self).row + 1 < old(self).text().len() {
                final(self).row == old(self).row + 1 && final(self).col == 0
            } else {
                final(self).row == old(self).row && final(self).col == old(self).col
            }),
    {
        if self.col < self.cur_len() {
            self.col = self.col + 1;
        } else if self.row < self.lines.len() - 1 {
            self.row = self.row + 1;
            self.col = 0;
        }
    }

    /// Cursor one step back: within the line, else to the end of the
    /// previous line, else unchanged.
    pub fn move_back(&mut self)
        requires
            old(self).wf(),
        ensures
            final(self).wf(),
            final(self).text() == old(self).text(),
            final(self).lines == old(self).lines,
            (if old(self).col > 0 {
                final(self).row == old(self).row && final(self).col == old(self).col - 1
            } else if old(self).row > 0 {
                final(self).row == old(self).row - 1 && final(self).col == old(self).text()[
                    old(self).row - 1
                ].len()
            } else {
                final(self).row == old(self).row && final(self).col == old(self).col
            }),
    {
        if self.col > 0 {
            self.col = self.col - 1;
        } else if self.row > 0 {
            self.row = self.row - 1;
            self.col = self.cur_len();
        }
    }

    /// Cursor one line up, column clamped to the new line's end.
    pub fn move_up(&mut self)
        requires
            old(self).wf(),
        ensures
            final(self).wf(),
            final(self).text() == old(self).text(),
            final(self).lines == old(self).lines,
            final(self).row == (if old(self).row > 0 {
                old(self).row - 1
            } else {
                0int
            }),
            final(self).col == vstd::math::min(
                old(self).col as int,
                old(self).text()[final(self).row as int].len() as int,
            ),
    {
        if self.row > 0 {
            self.row = self.row - 1;
        }
        let n = self.cur_len();
        if self.col > n {
            self.col = n;
        }
    }

    /// Cursor one line down, column clamped to the new line's end.
    pub fn move_down(&mut self)
        requires
            old(self).wf(),
        ensures
            final(self).wf(),
            final(self).text() == old(self).text(),
            final(self).lines == old(self).lines,
            final(self).row == (if old(self).row + 1 < old(self).text().len() {
                old(self).row + 1
            } else {
                old(self).row as int
            }),
            final(self).col == vstd::math::min(
                old(self).col as int,
                old(self).text()[final(self).row as int].len() as int,
            ),
    {
        if self.row < self.lines.len() - 1 {
            self.row = self.row + 1;
        }
        let n = self.cur_len();
        if self.col > n {
            self.col = n;
        }
    }

    /// Cursor to the head of the line.
    pub fn move_head(&mut self)
        requires
            old(self).wf(),
        ensures
            final(self).wf(),
            final(self).lines == old(self).lines,
            final(self).row == old(self).row,
            final(self).col == 0,
    {
        self.col = 0;
    }

    /// Cursor to the end of the line.
    pub fn move_end(&mut self)
        requires
            old(self).wf(),
        ensures
            final(self).wf(),
            final(self).lines == old(self).lines,
            final(self).row == old(self).row,
            final(self).col == old(self).cur_line().len(),
    {
        self.col = self.cur_len();
    }

    /// Cursor to the buffer start.
    pub fn move_top(&mut self)
        requires
            old(self).wf(),
        ensures
            final(self).wf(),
            final(self).lines == old(self).lines,
            final(self).row == 0,
            final(self).col == 0,
    {
        self.row = 0;
        self.col = 0;
    }

    /// Cursor to the head of the last line.
    pub fn move_bottom_head(&mut self)
        requires
            old(self).wf(),
        ensures
            final(self).wf(),
            final(self).lines == old(self).lines,
            final(self).row == old(self).text().len() - 1,
            final(self).col == 0,
    {
        self.row = self.lines.len() - 1;
        self.col = 0;
    }

    /// Cursor `page` lines down, clamped to the last line; column clamped.
    pub fn page_down(&mut self, page: usize)
        requires
            old(self).wf(),
        ensures
            final(self).wf(),
            final(self).lines == old(self).lines,
            final(self).row == vstd::math::min(
                old(self).row + page,
                old(self).text().len() - 1,
            ),
            final(self).col == vstd::math::min(
                old(self).col as int,
                old(self).text()[final(self).row as int].len() as int,
            ),
    {
        let last = self.lines.len() - 1;
        if page < last - self.row || page == last - self.row {
            self.row = self.row + page;
        } else {
            self.row = last;
        }
        let n = self.cur_len();
        if self.col > n {
            self.col = n;
        }
    }

    /// Cursor `page` lines up, clamped to the first line; column clamped.
    pub fn page_up(&mut self, page: usize)
        requires
            old(self).wf(),
        ensures
            final(self).wf(),
            final(self).lines == old(self).lines,
            final(self).row == vstd::math::max(old(self).row - page, 0int),
            final(self).col == vstd::math::min(
                old(self).col as int,
                old(self).text()[final(self).row as int].len() as int,
            ),
    {
        if page < self.row || page == self.row {
            self.row = self.row - page;
        } else {
            self.row = 0;
        }
        let n = self.cur_len();
        if self.col > n {
            self.col = n;
        }
    }

    /// Cursor to the next word boundary in the line: past the non-space run
    /// under the cursor, then past the following spaces.
    pub fn move_next_word(&mut self)
        requires
            old(self).wf(),
        ensures
            final(self).wf(),
            final(self).lines == old(self).lines,
            final(self).row == old(self).row,
            final(self).col == word_boundary(old(self).cur_line(), old(self).col as nat),
    {
        proof {
            lemma_skip_bounds(self.cur_line(), self.col as nat);
            lemma_skip_bounds(self.cur_line(), skip_nonspace(self.cur_line(), self.col as nat));
        }
        let n = self.cur_len();
        while self.col < n && self.lines[self.row][self.col] != ' '
            invariant
                self.wf(),
                n == self.cur_line().len(),
                self.lines == old(self).lines,
                self.row == old(self).row,
                skip_nonspace(self.cur_line(), self.col as nat) == skip_nonspace(
                    old(self).cur_line(),
                    old(self).col as nat,
                ),
                old(self).col <= self.col,
            decreases n - self.col,
        {
            self.col = self.col + 1;
        }
        assert(self.col as nat == skip_nonspace(old(self).cur_line(), old(self).col as nat));
        while self.col < n && self.lines[self.row][self.col] == ' '
            invariant
                self.wf(),
                n == self.cur_line().len(),
                self.lines == old(self).lines,
                self.row == old(self).row,
                skip_space(self.cur_line(), self.col as nat) == skip_space(
                    self.cur_line(),
                    skip_nonspace(old(self).cur_line(), old(self).col as nat),
                ),
            decreases n - self.col,
        {
            self.col = self.col + 1;
        }
        assert(self.col as nat == word_boundary(old(self).cur_line(), old(self).col as nat));
    }

    /// Cursor to the previous word start in the line: before the spaces just
    /// behind the cursor, then to the head of the non-space run there.
    pub fn move_prev_word(&mut self)
        requires
            old(self).wf(),
        ensures
            final(self).wf(),
            final(self).lines == old(self).lines,
            final(self).row == old(self).row,
            final(self).col == prev_word_boundary(old(self).cur_line(), old(self).col as nat),
    {
        while self.col > 0 && self.lines[self.row][self.col - 1] == ' '
            invariant
                self.wf(),
                self.lines == old(self).lines,
                self.row == old(self).row,
                skip_space_back(self.cur_line(), self.col as nat) == skip_space_back(
                    old(self).cur_line(),
                    old(self).col as nat,
                ),
            decreases self.col,
        {
            self.col = self.col - 1;
        }
        assert(self.col as nat == skip_space_back(old(self).cur_line(), old(self).col as nat));
        while self.col > 0 && self.lines[self.row][self.col - 1] != ' '
            invariant
                self.wf(),
                self.lines == old(self).lines,
                self.row == old(self).row,
                skip_nonspace_back(self.cur_line(), self.col as nat) == skip_nonspace_back(
                    self.cur_line(),
                    skip_space_back(old(self).cur_line(), old(self).col as nat),
                ),
            decreases self.col,
        {
            self.col = self.col - 1;
        }
        assert(self.col as nat == prev_word_boundary(old(self).cur_line(), old(self).col as nat));
    }

    /// Inserts a character at the cursor; the cursor moves past it.
    pub fn insert_char(&mut self, c: char)
        requires
            old(self).wf(),
            old(self).cur_line().len() < usize::MAX,
        ensures
            final(self).wf(),
            final(self).text() =~= old(self).text().update(
                old(self).row as int,
                old(self).cur_line().insert(old(self).col as int, c),
            ),
            final(self).row == old(self).row,
            final(self).col == old(self).col + 1,
    {
        self.lines[self.row].insert(self.col, c);
        self.col = self.col + 1;
    }

    /// Splits the line at the cursor: the rest of the line becomes a new
    /// line below, and the cursor moves to its start.
    pub fn insert_newline(&mut self)
        requires
            old(self).wf(),
        ensures
            final(self).wf(),
            final(self).text() =~= old(self).text().update(
                old(self).row as int,
                old(self).cur_line().subrange(0, old(self).col as int),
            ).insert(
                old(self).row + 1,
                old(self).cur_line().subrange(
                    old(self).col as int,
                    old(self).cur_line().len() as int,
                ),
            ),
            final(self).row == old(self).row + 1,
            final(self).col == 0,
    {
        let n = self.lines.len();
        let tail = self.lines[self.row].split_off(self.col);
        self.lines.insert(self.row + 1, tail);
        self.row = self.row + 1;
        self.col = 0;
    }

    /// Deletes the character under the cursor, when there is one; at the
    /// line end nothing changes.
    pub fn delete_char(&mut self)
        requires
            old(self).wf(),
        ensures
            final(self).wf(),
            final(self).row == old(self).row,
            final(self).col == old(self).col,
            (if old(self).col < old(self).cur_line().len() {
                final(self).text() =~= old(self).text().update(
                    old(self).row as int,
                    old(self).cur_line().remove(old(self).col as int),
                )
            } else {
                final(self).text() == old(self).text() && final(self).lines == old(self).lines
            }),
    {
        if self.col < self.cur_len() {
            self.lines[self.row].remove(self.col);
        }
    }

    /// Clears the text of the line the cursor is on, keeping the line; the
    /// cursor moves to its head.
    pub fn clear_line(&mut self)
        requires
            old(self).wf(),
        ensures
            final(self).wf(),
            final(self).text() =~= old(self).text().update(
                old(self).row as int,
                Seq::<char>::empty(),
            ),
            final(self).row == old(self).row,
            final(self).col == 0,
    {
        self.lines[self.row].clear();
        self.col = 0;
    }

    /// Removes the character just before the cursor, within the line; at
    /// the line head nothing changes.
    pub fn backspace(&mut self)
        requires
            old(self).wf(),
        ensures
            final(self).wf(),
            final(self).row == old(self).row,
            (if old(self).col > 0 {
                final(self).text() =~= old(self).text().update(
                    old(self).row as int,
                    old(self).cur_line().remove(old(self).col - 1),
                ) && final(self).col == old(self).col - 1
            } else {
                final(self).text() == old(self).text() && final(self).lines == old(self).lines
                    && final(self).col == old(self).col
            }),
    {
        if self.col > 0 {
            self.lines[self.row].remove(self.col - 1);
            self.col = self.col - 1;
        }
    }

    /// Opens an empty line below the cursor's line and moves onto its head.
    pub fn insert_line_below(&mut self)
        requires
            old(self).wf(),
        ensures
            final(self).wf(),
            final(self).text() =~= old(self).text().insert(
                old(self).row + 1,
                Seq::<char>::empty(),
            ),
            final(self).row == old(self).row + 1,
            final(self).col == 0,
    {
        let n = self.lines.len();
        self.lines.insert(self.row + 1, Vec::new());
        self.row = self.row + 1;
        self.col = 0;
    }

    /// Opens an empty line above the cursor's line and moves onto its head.
    pub fn insert_line_above(&mut self)
        requires
            old(self).wf(),
        ensures
            final(self).wf(),
            final(self).text() =~= old(self).text().insert(
                old(self).row as int,
                Seq::<char>::empty(),
            ),
            final(self).row == old(self).row,
            final(self).col == 0,
    {
        self.lines.insert(self.row, Vec::new());
        self.col = 0;
    }

    /// Deletes from the cursor to the next word boundary in the line.
    pub fn delete_word(&mut self)
        requires
            old(self).wf(),
        ensures
            final(self).wf(),
            final(self).text() =~= old(self).text().update(
                old(self).row as int,
                old(self).cur_line().subrange(0, old(self).col as int) + old(
                    self,
                ).cur_line().skip(
                    word_boundary(old(self).cur_line(), old(self).col as nat) as int,
                ),
            ),
            final(self).row == old(self).row,
            final(self).col == old(self).col,
    {
        proof {
            lemma_skip_bounds(self.cur_line(), self.col as nat);
            lemma_skip_bounds(self.cur_line(), skip_nonspace(self.cur_line(), self.col as nat));
        }
        let ghost orig = *self;
        let start = self.col;
        self.move_next_word();
        let boundary = self.col;
        let tail = self.lines[self.row].split_off(boundary);
        self.lines[self.row].truncate(start);
        let line = &mut self.lines[self.row];
        assert(line@ =~= orig.cur_line().subrange(0, start as int) + tail@.subrange(0, 0));
        let mut t: usize = 0;
        while t < tail.len()
            invariant
                t <= tail.len(),
                line@ == orig.cur_line().subrange(0, start as int) + tail@.subrange(0, t as int),
            decreases tail.len() - t,
        {
            line.push(tail[t]);
            assert(line@ =~= orig.cur_line().subrange(0, start as int) + tail@.subrange(
                0,
                t + 1,
            ));
            t += 1;
        }
        proof {
            assert(tail@.subrange(0, tail@.len() as int) =~= tail@);
            assert(tail@ =~= orig.cur_line().skip(
                word_boundary(orig.cur_line(), orig.col as nat) as int,
            ));
        }
        self.col = start;
    }
}

} // verus!
