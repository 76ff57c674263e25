//! Literal pattern search over the text buffer: forward and backward repeat
//! of the last compiled pattern, wrapping past the buffer end and start; no
//! match leaves the cursor where it was.
use vstd::prelude::*;

use crate::buffer::TextBuffer;

verus! {

/// A non-empty pattern occurs in `line` starting at column `j`.
pub open spec fn line_match(line: Seq<char>, pat: Seq<char>, j: int) -> bool {
    &&& pat.len() > 0
    &&& 0 <= j
    &&& j + pat.len() <= line.len()
    &&& line.subrange(j, j + pat.len() as int) == pat
}

/// The pattern occurs in the text at line `r`, column `c`.
pub open spec fn match_at(text: Seq<Seq<char>>, pat: Seq<char>, r: int, c: int) -> bool {
    &&& 0 <= r < text.len()
    &&& line_match(text[r], pat, c)
}

/// Position `(r1, c1)` comes before `(r2, c2)` in reading order.
pub open spec fn pos_lt(r1: int, c1: int, r2: int, c2: int) -> bool {
    r1 < r2 || (r1 == r2 && c1 < c2)
}

/// Some occurrence lies strictly after `(row, col)`.
pub open spec fn exists_match_after(
    text: Seq<Seq<char>>,
    pat: Seq<char>,
    row: int,
    col: int,
) -> bool {
    exists|r: int, c: int| #[trigger] match_at(text, pat, r, c) && pos_lt(row, col, r, c)
}

/// Some occurrence lies strictly before `(row, col)`.
pub open spec fn exists_match_before(
    text: Seq<Seq<char>>,
    pat: Seq<char>,
    row: int,
    col: int,
) -> bool {
    exists|r: int, c: int| #[trigger] match_at(text, pat, r, c) && pos_lt(r, c, row, col)
}

/// Some occurrence lies anywhere in the text.
pub open spec fn exists_match(text: Seq<Seq<char>>, pat: Seq<char>) -> bool {
    exists|r: int, c: int| match_at(text, pat, r, c)
}

/// `(r, c)` is the first occurrence strictly after `(row, col)`.
pub open spec fn first_match_after(
    text: Seq<Seq<char>>,
    pat: Seq<char>,
    row: int,
    col: int,
    r: int,
    c: int,
) -> bool {
    &&& match_at(text, pat, r, c)
    &&& pos_lt(row, col, r, c)
    &&& forall|r2: int, c2: int|
        #[trigger] match_at(text, pat, r2, c2) && pos_lt(row, col, r2, c2) ==> !pos_lt(
            r2,
            c2,
            r,
            c,
        )
}

/// `(r, c)` is the first occurrence in the text.
pub open spec fn first_match(text: Seq<Seq<char>>, pat: Seq<char>, r: int, c: int) -> bool {
    &&& match_at(text, pat, r, c)
    &&& forall|r2: int, c2: int| #[trigger] match_at(text, pat, r2, c2) ==> !pos_lt(r2, c2, r, c)
}

/// `(r, c)` is the last occurrence strictly before `(row, col)`.
pub open spec fn last_match_before(
    text: Seq<Seq<char>>,
    pat: Seq<char>,
    row: int,
    col: int,
    r: int,
    c: int,
) -> bool {
    &&& match_at(text, pat, r, c)
    &&& pos_lt(r, c, row, col)
    &&& forall|r2: int, c2: int|
        #[trigger] match_at(text, pat, r2, c2) && pos_lt(r2, c2, row, col) ==> !pos_lt(
            r,
            c,
            r2,
            c2,
        )
}

/// `(r, c)` is the last occurrence in the text.
pub open spec fn last_match(text: Seq<Seq<char>>, pat: Seq<char>, r: int, c: int) -> bool {
    &&& match_at(text, pat, r, c)
    &&& forall|r2: int, c2: int| #[trigger] match_at(text, pat, r2, c2) ==> !pos_lt(r, c, r2, c2)
}

/// The first occurrence of `pat` in `line` at or after column `from`.
pub fn find_in_line(line: &Vec<char>, pat: &Vec<char>, from: usize) -> (r: Option<usize>)
    ensures
        match r {
            Some(j) => from <= j && line_match(line@, pat@, j as int) && forall|k: int|
                from <= k < j ==> !line_match(line@, pat@, k),
            None => forall|k: int| from <= k ==> !line_match(line@, pat@, k),
        },
{
    if pat.len() == 0 || pat.len() > line.len() {
        return None;
    }
    let bound = line.len() - pat.len();
    if from > bound {
        return None;
    }
    let mut j = from;
    loop
        invariant
            from <= j <= bound + 1,
            bound + pat@.len() == line@.len(),
            line@.len() <= usize::MAX,
            pat@.len() > 0,
            forall|k: int| from <= k < j ==> !line_match(line@, pat@, k),
        decreases bound + 1 - j,
    {
        if j > bound {
            return None;
        }
        let mut t: usize = 0;
        let mut hit = true;
        while t < pat.len()
            invariant
                t <= pat@.len(),
                j + pat@.len() <= line@.len(),
                line@.len() <= usize::MAX,
                hit ==> forall|u: int| 0 <= u < t ==> line@[j + u] == pat@[u],
                !hit ==> !line_match(line@, pat@, j as int),
            decreases pat@.len() - t,
        {
            if line[j + t] != pat[t] {
                hit = false;
                proof {
                    assert(line@.subrange(j as int, j + pat@.len())[t as int] == line@[j + t]);
                }
                t = pat.len();
            } else {
                t += 1;
            }
        }
        if hit {
            proof {
                assert(line@.subrange(j as int, j + pat@.len()) =~= pat@);
            }
            return Some(j);
        }
        j += 1;
    }
}

/// The last occurrence of `pat` in `line` that starts strictly before
/// column `limit`.
pub fn rfind_in_line(line: &Vec<char>, pat: &Vec<char>, limit: usize) -> (r: Option<usize>)
    ensures
        match r {
            Some(j) => j < limit && line_match(line@, pat@, j as int) && forall|k: int|
                j < k < limit ==> !line_match(line@, pat@, k),
            None => forall|k: int| 0 <= k < limit ==> !line_match(line@, pat@, k),
        },
{
    let mut best: Option<usize> = None;
    let mut j: usize = 0;
    loop
        invariant
            j <= limit,
            match best {
                Some(b) => b < j && b < limit && line_match(line@, pat@, b as int) && forall|
                    k: int,
                |
                    b < k < j ==> !line_match(line@, pat@, k),
                None => forall|k: int| 0 <= k < j ==> !line_match(line@, pat@, k),
            },
        decreases limit - j,
    {
        if j >= limit {
            return best;
        }
        match find_in_line(line, pat, j) {
            Some(m) => {
                if m < limit {
                    best = Some(m);
                    j = m + 1;
                } else {
                    assert(forall|k: int| j <= k < limit ==> !line_match(line@, pat@, k));
                    return best;
                }
            },
            None => {
                assert(forall|k: int| j <= k < limit ==> !line_match(line@, pat@, k));
                return best;
            },
        }
    }
}

impl TextBuffer {
    /// Moves the cursor to the first occurrence of `pat` after it, wrapping
    /// to the first occurrence in the buffer when none follows; without any
    /// occurrence the cursor stays.
    pub fn search_forward(&mut self, pat: &Vec<char>)
        requires
            old(self).wf(),
        ensures
            final(self).wf(),
            final(self).lines == old(self).lines,
            (if exists_match_after(
                old(self).text(),
                pat@,
                old(self).row as int,
                old(self).col as int,
            ) {
                first_match_after(
                    old(self).text(),
                    pat@,
                    old(self).row as int,
                    old(self).col as int,
                    final(self).row as int,
                    final(self).col as int,
                )
            } else if exists_match(old(self).text(), pat@) {
                first_match(old(self).text(), pat@, final(self).row as int, final(self).col as int)
            } else {
                final(self).row == old(self).row && final(self).col == old(self).col
            }),
    {
        let row0 = self.row;
        let col0 = self.col;
        let ll = self.lines[row0].len();
        // Rest of the cursor's own line, strictly after the cursor.
        if col0 < ll {
            match find_in_line(&self.lines[row0], pat, col0 + 1) {
                Some(c) => {
                    self.col = c;
                    proof {
                        assert(self.text()[row0 as int] == self.lines@[row0 as int]@);
                        assert(match_at(self.text(), pat@, row0 as int, c as int));
                        assert forall|r2: int, c2: int|
                            #[trigger] match_at(self.text(), pat@, r2, c2) && pos_lt(
                                row0 as int,
                                col0 as int,
                                r2,
                                c2,
                            ) implies !pos_lt(r2, c2, row0 as int, c as int) by {
                            if r2 == row0 && col0 < c2 && c2 < c {
                                assert(line_match(self.lines@[row0 as int]@, pat@, c2));
                            }
                        }
                    }
                    return ;
                },
                None => {},
            }
        }
        assert forall|r2: int, c2: int|
            (r2 == row0 && col0 < c2) implies !(#[trigger] match_at(self.text(), pat@, r2, c2)) by {
            assert(self.text()[row0 as int] == self.lines@[row0 as int]@);
        }
        let n = self.lines.len();
        let mut r = row0 + 1;
        while r < n
            invariant
                row0 < r <= n,
                n == self.lines@.len(),
                self.lines == old(self).lines,
                self.row == row0 && self.col == col0,
                row0 == old(self).row && col0 == old(self).col,
                self.wf(),
                forall|r2: int, c2: int|
                    ((r2 == row0 && col0 < c2) || (row0 < r2 < r)) ==> !(#[trigger] match_at(
                        self.text(),
                        pat@,
                        r2,
                        c2,
                    )),
            decreases n - r,
        {
            match find_in_line(&self.lines[r], pat, 0) {
                Some(c) => {
                    let ghost pre = *self;
                    self.row = r;
                    self.col = c;
                    proof {
                        assert(pre.text() == self.text());
                        assert(old(self).lines@ == self.lines@);
                        assert(old(self).text() == self.text());
                        assert(self.text()[r as int] == self.lines@[r as int]@);
                        assert(match_at(self.text(), pat@, r as int, c as int));
                        assert forall|r2: int, c2: int|
                            #[trigger] match_at(self.text(), pat@, r2, c2) && pos_lt(
                                row0 as int,
                                col0 as int,
                                r2,
                                c2,
                            ) implies !pos_lt(r2, c2, r as int, c as int) by {
                            if pos_lt(r2, c2, r as int, c as int) {
                                if r2 == r {
                                    assert(line_match(self.lines@[r as int]@, pat@, c2));
                                } else {
                                    assert(!match_at(pre.text(), pat@, r2, c2));
                                }
                            }
                        }
                        assert(first_match_after(
                            old(self).text(),
                            pat@,
                            row0 as int,
                            col0 as int,
                            self.row as int,
                            self.col as int,
                        ));
                    }
                    return ;
                },
                None => {},
            }
            assert forall|c2: int| !(#[trigger] match_at(self.text(), pat@, r as int, c2)) by {
                assert(self.text()[r as int] == self.lines@[r as int]@);
            }
            r += 1;
        }
        // Nothing after the cursor: wrap and take the first occurrence.
        assert(!exists_match_after(self.text(), pat@, row0 as int, col0 as int));
        let mut r2: usize = 0;
        while r2 < n
            invariant
                r2 <= n,
                n == self.lines@.len(),
                self.lines == old(self).lines,
                self.row == row0 && self.col == col0,
                row0 == old(self).row && col0 == old(self).col,
                self.wf(),
                !exists_match_after(self.text(), pat@, row0 as int, col0 as int),
                forall|rr: int, cc: int|
                    0 <= rr < r2 ==> !(#[trigger] match_at(self.text(), pat@, rr, cc)),
            decreases n - r2,
        {
            match find_in_line(&self.lines[r2], pat, 0) {
                Some(c) => {
                    let ghost pre = *self;
                    self.row = r2;
                    self.col = c;
                    proof {
                        assert(pre.text() == self.text());
                        assert(old(self).lines@ == self.lines@);
                        assert(old(self).text() == self.text());
                        assert(self.text()[r2 as int] == self.lines@[r2 as int]@);
                        assert(match_at(self.text(), pat@, r2 as int, c as int));
                        assert forall|rr: int, cc: int|
                            #[trigger] match_at(self.text(), pat@, rr, cc) implies !pos_lt(
                            rr,
                            cc,
                            r2 as int,
                            c as int,
                        ) by {
                            if pos_lt(rr, cc, r2 as int, c as int) {
                                if rr == r2 {
                                    assert(line_match(self.lines@[r2 as int]@, pat@, cc));
                                } else {
                                    assert(!match_at(pre.text(), pat@, rr, cc));
                                }
                            }
                        }
                        assert(!exists_match_after(
                            old(self).text(),
                            pat@,
                            row0 as int,
                            col0 as int,
                        ));
                        assert(first_match(old(self).text(), pat@, self.row as int, self.col as int));
                    }
                    return ;
                },
                None => {},
            }
            assert forall|cc: int| !(#[trigger] match_at(self.text(), pat@, r2 as int, cc)) by {
                assert(self.text()[r2 as int] == self.lines@[r2 as int]@);
            }
            r2 += 1;
        }
        assert(!exists_match(self.text(), pat@));
    }

    /// Moves the cursor to the last occurrence of `pat` before it, wrapping
    /// to the last occurrence in the buffer when none precedes; without any
    /// occurrence the cursor stays.
    pub fn search_back(&mut self, pat: &Vec<char>)
        requires
            old(self).wf(),
        ensures
            final(self).wf(),
            final(self).lines == old(self).lines,
            (if exists_match_before(
                old(self).text(),
                pat@,
                old(self).row as int,
                old(self).col as int,
            ) {
                last_match_before(
                    old(self).text(),
                    pat@,
                    old(self).row as int,
                    old(self).col as int,
                    final(self).row as int,
                    final(self).col as int,
                )
            } else if exists_match(old(self).text(), pat@) {
                last_match(old(self).text(), pat@, final(self).row as int, final(self).col as int)
            } else {
                final(self).row == old(self).row && final(self).col == old(self).col
            }),
    {
        let row0 = self.row;
        let col0 = self.col;
        // Start of the cursor's own line, strictly before the cursor.
        match rfind_in_line(&self.lines[row0], pat, col0) {
            Some(c) => {
                self.col = c;
                proof {
                    assert(self.text()[row0 as int] == self.lines@[row0 as int]@);
                    assert(match_at(self.text(), pat@, row0 as int, c as int));
                    assert forall|r2: int, c2: int|
                        #[trigger] match_at(self.text(), pat@, r2, c2) && pos_lt(
                            r2,
                            c2,
                            row0 as int,
                            col0 as int,
                        ) implies !pos_lt(row0 as int, c as int, r2, c2) by {
                        if r2 == row0 && c < c2 && c2 < col0 {
                            assert(line_match(self.lines@[row0 as int]@, pat@, c2));
                        }
                    }
                }
                return ;
            },
            None => {},
        }
        assert forall|r2: int, c2: int|
            (r2 == row0 && c2 < col0) implies !(#[trigger] match_at(self.text(), pat@, r2, c2)) by {
            assert(self.text()[row0 as int] == self.lines@[row0 as int]@);
        }
        let mut r = row0;
        while r > 0
            invariant
                r <= row0,
                self.lines == old(self).lines,
                self.row == row0 && self.col == col0,
                row0 == old(self).row && col0 == old(self).col,
                self.wf(),
                forall|r2: int, c2: int|
                    ((r2 == row0 && c2 < col0) || (r <= r2 < row0)) ==> !(#[trigger] match_at(
                        self.text(),
                        pat@,
                        r2,
                        c2,
                    )),
            decreases r,
        {
            let line_len = self.lines[r - 1].len();
            match rfind_in_line(&self.lines[r - 1], pat, line_len) {
                Some(c) => {
                    let ghost pre = *self;
                    self.row = r - 1;
                    self.col = c;
                    proof {
                        assert(pre.text() == self.text());
                        assert(old(self).lines@ == self.lines@);
                        assert(old(self).text() == self.text());
                        assert(self.text()[r - 1] == self.lines@[r - 1]@);
                        assert(match_at(self.text(), pat@, r - 1, c as int));
                        assert forall|r2: int, c2: int|
                            #[trigger] match_at(self.text(), pat@, r2, c2) && pos_lt(
                                r2,
                                c2,
                                row0 as int,
                                col0 as int,
                            ) implies !pos_lt(r - 1, c as int, r2, c2) by {
                            if pos_lt(r - 1, c as int, r2, c2) {
                                if r2 == r - 1 {
                                    assert(line_match(self.lines@[r - 1]@, pat@, c2));
                                    assert(c2 < line_len);
                                } else {
                                    assert(r <= r2 < row0 || r2 == row0);
                                    assert(!match_at(pre.text(), pat@, r2, c2));
                                }
                            }
                        }
                        assert(last_match_before(
                            old(self).text(),
                            pat@,
                            row0 as int,
                            col0 as int,
                            self.row as int,
                            self.col as int,
                        ));
                    }
                    return ;
                },
                None => {},
            }
            assert forall|c2: int| !(#[trigger] match_at(self.text(), pat@, r - 1, c2)) by {
                assert(self.text()[r - 1] == self.lines@[r - 1]@);
                if line_match(self.text()[r - 1], pat@, c2) {
                    assert(0 <= c2 < line_len);
                }
            }
            r -= 1;
        }
        // Nothing before the cursor: wrap and take the last occurrence.
        assert(!exists_match_before(self.text(), pat@, row0 as int, col0 as int));
        let n = self.lines.len();
        let mut r2 = n;
        while r2 > 0
            invariant
                r2 <= n,
                n == self.lines@.len(),
                self.lines == old(self).lines,
                self.row == row0 && self.col == col0,
                row0 == old(self).row && col0 == old(self).col,
                self.wf(),
                !exists_match_before(self.text(), pat@, row0 as int, col0 as int),
                forall|rr: int, cc: int|
                    r2 <= rr < n ==> !(#[trigger] match_at(self.text(), pat@, rr, cc)),
            decreases r2,
        {
            let line_len = self.lines[r2 - 1].len();
            match rfind_in_line(&self.lines[r2 - 1], pat, line_len) {
                Some(c) => {
                    let ghost pre = *self;
                    self.row = r2 - 1;
                    self.col = c;
                    proof {
                        assert(pre.text() == self.text());
                        assert(old(self).lines@ == self.lines@);
                        assert(old(self).text() == self.text());
                        assert(self.text()[r2 - 1] == self.lines@[r2 - 1]@);
                        assert(match_at(self.text(), pat@, r2 - 1, c as int));
                        assert forall|rr: int, cc: int|
                            #[trigger] match_at(self.text(), pat@, rr, cc) implies !pos_lt(
                            r2 - 1,
                            c as int,
                            rr,
                            cc,
                        ) by {
                            if pos_lt(r2 - 1, c as int, rr, cc) {
                                if rr == r2 - 1 {
                                    assert(line_match(self.lines@[r2 - 1]@, pat@, cc));
                                    assert(cc < line_len);
                                } else {
                                    assert(!match_at(pre.text(), pat@, rr, cc));
                                }
                            }
                        }
                        assert(!exists_match_before(
                            old(self).text(),
                            pat@,
                            row0 as int,
                            col0 as int,
                        ));
                        assert(last_match(old(self).text(), pat@, self.row as int, self.col as int));
                    }
                    return ;
                },
                None => {},
            }
            assert forall|cc: int| !(#[trigger] match_at(self.text(), pat@, r2 - 1, cc)) by {
                assert(self.text()[r2 - 1] == self.lines@[r2 - 1]@);
                if line_match(self.text()[r2 - 1], pat@, cc) {
                    assert(0 <= cc < line_len);
                }
            }
            r2 -= 1;
        }
        assert(!exists_match(self.text(), pat@));
    }
}

} // verus!
