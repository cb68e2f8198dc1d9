use vstd::prelude::*;
use vstd::string::{StrSliceExecFns, StringExecFns};

use crate::errors::ParseError;
use crate::lines::{lines_view, split_lines, text_lines};

verus! {

/// Whether `(line, col)`, counted from 1, names a character of `text`.
pub open spec fn in_text(text: Seq<Seq<char>>, line: int, col: int) -> bool {
    &&& 1 <= line <= text.len()
    &&& 1 <= col <= text[line - 1].len()
}

/// The number of characters on line `line` (counted from 1), or 0 where the
/// text has no such line.
pub open spec fn line_len(text: Seq<Seq<char>>, line: int) -> int {
    if 1 <= line <= text.len() {
        text[line - 1].len() as int
    } else {
        0
    }
}

/// The character at `(line, col)`, counted from 1.
pub open spec fn char_at(text: Seq<Seq<char>>, line: int, col: int) -> char {
    text[line - 1][col - 1]
}

/// `after` is `before` moved by `lines` lines and `cols` columns where that
/// target is a character of the text, and `before` unmoved where it is not.
pub open spec fn moved_by(before: ContentParser, after: ContentParser, lines: int, cols: int) -> bool {
    let (line, col) = (before.line() + lines, before.col() + cols);
    &&& after.text() == before.text()
    &&& in_text(before.text(), line, col) ==> after.line() == line && after.col() == col
    &&& !in_text(before.text(), line, col) ==> after.line() == before.line() && after.col()
        == before.col()
}

/// `base + delta`, where that lies in `1..=limit`.
fn shifted(base: usize, delta: isize, limit: usize) -> (r: Option<usize>)
    ensures
        match r {
            Some(v) => v == base + delta && 1 <= v <= limit,
            None => !(1 <= base + delta <= limit),
        },
{
    if delta >= 0 {
        let d = delta as usize;
        if base <= limit && d <= limit - base && base + d >= 1 {
            Some(base + d)
        } else {
            None
        }
    } else {
        let d = ((-(delta + 1)) as usize) + 1;
        if d < base && base - d <= limit {
            Some(base - d)
        } else {
            None
        }
    }
}

/// A cursor over the lines of a text, at a line and a column counted from 1.
///
/// Every move checks its target before it takes it: a move that fails leaves
/// the cursor where it was.
pub struct ContentParser {
    lines: Vec<String>,
    line: usize,
    col: usize,
}

impl ContentParser {
    /// The lines of the text.
    pub closed spec fn text(&self) -> Seq<Seq<char>> {
        lines_view(self.lines@)
    }

    /// The current line, counted from 1.
    pub closed spec fn line(&self) -> usize {
        self.line
    }

    /// The current column, counted from 1.
    pub closed spec fn col(&self) -> usize {
        self.col
    }

    /// The number of characters on line `line`, or 0 where there is no such line.
    fn len_of_line(&self, line: usize) -> (r: usize)
        ensures
            r == line_len(self.text(), line as int),
    {
        if 1 <= line && line <= self.lines.len() {
            self.lines[line - 1].as_str().unicode_len()
        } else {
            0
        }
    }

    /// A cursor at line 1, column 1 of `content`.
    pub fn new(content: &str) -> (r: Self)
        ensures
            r.text() == text_lines(content@),
            r.line() == 1,
            r.col() == 1,
    {
        Self { lines: split_lines(content), line: 1, col: 1 }
    }

    /// Returns the character at the cursor's position.
    pub fn curr_char(&self) -> (r: Result<char, ParseError>)
        ensures
            in_text(self.text(), self.line() as int, self.col() as int) ==> r == Ok::<
                char,
                ParseError,
            >(char_at(self.text(), self.line() as int, self.col() as int)),
            !in_text(self.text(), self.line() as int, self.col() as int) ==> r == Err::<
                char,
                ParseError,
            >(ParseError::OutOfBounds { line: self.line(), col: self.col() }),
    {
        let len = self.len_of_line(self.line);
        if self.line == 0 || self.col == 0 || self.col > len {
            return Err(ParseError::OutOfBounds { line: self.line, col: self.col });
        }
        Ok(self.lines[self.line - 1].as_str().get_char(self.col - 1))
    }

    /// Returns the cursor's position as `(line, col)`.
    pub fn curr_pos(&self) -> (r: (usize, usize))
        ensures
            r == (self.line(), self.col()),
    {
        (self.line, self.col)
    }

    /// Moves to `(line, col)` and returns the character there.
    pub fn go_to(&mut self, line: usize, col: usize) -> (r: Result<char, ParseError>)
        ensures
            final(self).text() == old(self).text(),
            in_text(old(self).text(), line as int, col as int) ==> {
                &&& r == Ok::<char, ParseError>(char_at(old(self).text(), line as int, col as int))
                &&& final(self).line() == line
                &&& final(self).col() == col
            },
            !in_text(old(self).text(), line as int, col as int) ==> {
                &&& r == Err::<char, ParseError>(ParseError::OutOfBounds { line, col })
                &&& final(self).line() == old(self).line()
                &&& final(self).col() == old(self).col()
            },
    {
        let len = self.len_of_line(line);
        if line == 0 || col == 0 || col > len {
            return Err(ParseError::OutOfBounds { line, col });
        }
        self.line = line;
        self.col = col;
        Ok(self.lines[line - 1].as_str().get_char(col - 1))
    }

    /// Moves to the position `pos`, as `go_to` does.
    pub fn go_to_pos(&mut self, pos: (usize, usize)) -> (r: Result<char, ParseError>)
        ensures
            final(self).text() == old(self).text(),
            in_text(old(self).text(), pos.0 as int, pos.1 as int) ==> {
                &&& r == Ok::<char, ParseError>(
                    char_at(old(self).text(), pos.0 as int, pos.1 as int),
                )
                &&& final(self).line() == pos.0
                &&& final(self).col() == pos.1
            },
            !in_text(old(self).text(), pos.0 as int, pos.1 as int) ==> {
                &&& r == Err::<char, ParseError>(
                    ParseError::OutOfBounds { line: pos.0, col: pos.1 },
                )
                &&& final(self).line() == old(self).line()
                &&& final(self).col() == old(self).col()
            },
    {
        self.go_to(pos.0, pos.1)
    }

    /// Moves by `lines` lines and `cols` columns where the target is a
    /// character of the text, and returns that character.
    fn step(&mut self, lines: isize, cols: isize) -> (r: Result<char, ParseError>)
        ensures
            moved_by(*old(self), *final(self), lines as int, cols as int),
            r is Ok <==> in_text(
                old(self).text(),
                old(self).line() + lines,
                old(self).col() + cols,
            ),
            r is Ok ==> r->Ok_0 == char_at(
                final(self).text(),
                final(self).line() as int,
                final(self).col() as int,
            ),
            r is Err ==> r->Err_0 == (ParseError::MoveOutOfBounds {
                line: old(self).line(),
                col: old(self).col(),
                lines,
                cols,
            }),
    {
        let err = ParseError::MoveOutOfBounds { line: self.line, col: self.col, lines, cols };
        let line = match shifted(self.line, lines, self.lines.len()) {
            Some(l) => l,
            None => return Err(err),
        };
        let col = match shifted(self.col, cols, self.len_of_line(line)) {
            Some(c) => c,
            None => return Err(err),
        };
        self.line = line;
        self.col = col;
        Ok(self.lines[line - 1].as_str().get_char(col - 1))
    }

    /// Moves to the next column and returns the character there.
    pub fn next_col(&mut self) -> (r: Result<char, ParseError>)
        ensures
            moved_by(*old(self), *final(self), 0, 1),
            r is Ok <==> in_text(old(self).text(), old(self).line() as int, old(self).col() + 1),
            r is Ok ==> r->Ok_0 == char_at(
                final(self).text(),
                final(self).line() as int,
                final(self).col() as int,
            ),
            r is Err ==> r->Err_0 == (ParseError::MoveOutOfBounds {
                line: old(self).line(),
                col: old(self).col(),
                lines: 0,
                cols: 1,
            }),
    {
        self.step(0, 1)
    }

    /// Moves to the previous column and returns the character there; fails at
    /// once in the first column.
    pub fn prev_col(&mut self) -> (r: Result<char, ParseError>)
        ensures
            moved_by(*old(self), *final(self), 0, -1),
            r is Ok <==> in_text(old(self).text(), old(self).line() as int, old(self).col() - 1),
            r is Ok ==> r->Ok_0 == char_at(
                final(self).text(),
                final(self).line() as int,
                final(self).col() as int,
            ),
            r is Err ==> r->Err_0 == (ParseError::MoveOutOfBounds {
                line: old(self).line(),
                col: old(self).col(),
                lines: 0,
                cols: -1isize,
            }),
    {
        if self.col == 1 {
            return Err(
                ParseError::MoveOutOfBounds { line: self.line, col: self.col, lines: 0, cols: -1 },
            );
        }
        self.step(0, -1)
    }

    /// Moves to the next line, keeping the column, and returns the character there.
    pub fn next_line(&mut self) -> (r: Result<char, ParseError>)
        ensures
            moved_by(*old(self), *final(self), 1, 0),
            r is Ok <==> in_text(old(self).text(), old(self).line() + 1, old(self).col() as int),
            r is Ok ==> r->Ok_0 == char_at(
                final(self).text(),
                final(self).line() as int,
                final(self).col() as int,
            ),
            r is Err ==> r->Err_0 == (ParseError::MoveOutOfBounds {
                line: old(self).line(),
                col: old(self).col(),
                lines: 1,
                cols: 0,
            }),
    {
        self.step(1, 0)
    }

    /// Moves to the previous line, keeping the column, and returns the
    /// character there; fails at once on the first line.
    pub fn prev_line(&mut self) -> (r: Result<char, ParseError>)
        ensures
            moved_by(*old(self), *final(self), -1, 0),
            r is Ok <==> in_text(old(self).text(), old(self).line() - 1, old(self).col() as int),
            r is Ok ==> r->Ok_0 == char_at(
                final(self).text(),
                final(self).line() as int,
                final(self).col() as int,
            ),
            r is Err ==> r->Err_0 == (ParseError::MoveOutOfBounds {
                line: old(self).line(),
                col: old(self).col(),
                lines: -1isize,
                cols: 0,
            }),
    {
        if self.line == 1 {
            return Err(
                ParseError::MoveOutOfBounds { line: self.line, col: self.col, lines: -1, cols: 0 },
            );
        }
        self.step(-1, 0)
    }

    /// Moves to the first column of the current line, as `go_to` does.
    pub fn start_of_line(&mut self) -> (r: Result<char, ParseError>)
        ensures
            final(self).text() == old(self).text(),
            in_text(old(self).text(), old(self).line() as int, 1) ==> {
                &&& r == Ok::<char, ParseError>(char_at(old(self).text(), old(self).line() as int, 1))
                &&& final(self).line() == old(self).line()
                &&& final(self).col() == 1
            },
            !in_text(old(self).text(), old(self).line() as int, 1) ==> {
                &&& r == Err::<char, ParseError>(
                    ParseError::OutOfBounds { line: old(self).line(), col: 1 },
                )
                &&& final(self).line() == old(self).line()
                &&& final(self).col() == old(self).col()
            },
    {
        self.go_to(self.line, 1)
    }

    /// Moves to the last column of the current line, as `go_to` does; a line
    /// that is empty or missing has its last column at 0.
    pub fn end_of_line(&mut self) -> (r: Result<char, ParseError>)
        ensures
            ({
                let (text, line) = (old(self).text(), old(self).line() as int);
                let last = line_len(text, line);
                &&& final(self).text() == text
                &&& last >= 1 ==> {
                    &&& r == Ok::<char, ParseError>(char_at(text, line, last))
                    &&& final(self).line() == old(self).line()
                    &&& final(self).col() == last
                }
                &&& last == 0 ==> {
                    &&& r == Err::<char, ParseError>(
                        ParseError::OutOfBounds { line: old(self).line(), col: 0 },
                    )
                    &&& final(self).line() == old(self).line()
                    &&& final(self).col() == old(self).col()
                }
            }),
    {
        let len = self.len_of_line(self.line);
        self.go_to(self.line, len)
    }

    /// Moves `n` columns, forward for positive `n`, backward for negative.
    pub fn move_cols(&mut self, n: isize) -> (r: Result<(), ParseError>)
        ensures
            moved_by(*old(self), *final(self), 0, n as int),
            r is Ok <==> in_text(old(self).text(), old(self).line() as int, old(self).col() + n),
            r is Err ==> r->Err_0 == (ParseError::MoveOutOfBounds {
                line: old(self).line(),
                col: old(self).col(),
                lines: 0,
                cols: n,
            }),
    {
        match self.step(0, n) {
            Ok(_) => Ok(()),
            Err(e) => Err(e),
        }
    }

    /// Moves `n` lines, forward for positive `n`, backward for negative, keeping
    /// the column, where the column lies within the target line.
    pub fn move_lines(&mut self, n: isize) -> (r: Result<(), ParseError>)
        ensures
            moved_by(*old(self), *final(self), n as int, 0),
            r is Ok <==> in_text(old(self).text(), old(self).line() + n, old(self).col() as int),
            r is Err ==> r->Err_0 == (ParseError::MoveOutOfBounds {
                line: old(self).line(),
                col: old(self).col(),
                lines: n,
                cols: 0,
            }),
    {
        match self.step(n, 0) {
            Ok(_) => Ok(()),
            Err(e) => Err(e),
        }
    }

    /// Moves `n_lines` lines and `n_cols` columns at once.
    pub fn move_pos(&mut self, n_lines: isize, n_cols: isize) -> (r: Result<(), ParseError>)
        ensures
            moved_by(*old(self), *final(self), n_lines as int, n_cols as int),
            r is Ok <==> in_text(
                old(self).text(),
                old(self).line() + n_lines,
                old(self).col() + n_cols,
            ),
            r is Err ==> r->Err_0 == (ParseError::MoveOutOfBounds {
                line: old(self).line(),
                col: old(self).col(),
                lines: n_lines,
                cols: n_cols,
            }),
    {
        match self.step(n_lines, n_cols) {
            Ok(_) => Ok(()),
            Err(e) => Err(e),
        }
    }

    /// The `width` characters from the cursor's position on the current line.
    /// The cursor does not move.
    pub fn slice(&self, width: usize) -> (r: Result<String, ParseError>)
        ensures
            ({
                let (text, line, col) = (self.text(), self.line() as int, self.col() as int);
                &&& in_text(text, line, col) && col + width - 1 <= text[line - 1].len() ==> r is Ok
                    && r->Ok_0@ == text[line - 1].subrange(col - 1, col - 1 + width)
                &&& !in_text(text, line, col) ==> r == Err::<String, ParseError>(
                    ParseError::OutOfBounds { line: self.line(), col: self.col() },
                )
                &&& in_text(text, line, col) && col + width - 1 > text[line - 1].len() ==> r
                    == Err::<String, ParseError>(
                    ParseError::SliceOutOfBounds { line: self.line(), col: self.col(), width },
                )
            }),
    {
        let len = self.len_of_line(self.line);
        if self.line == 0 || self.col == 0 || self.col > len {
            return Err(ParseError::OutOfBounds { line: self.line, col: self.col });
        }
        if width > len - (self.col - 1) {
            return Err(ParseError::SliceOutOfBounds { line: self.line, col: self.col, width });
        }
        let start = self.col - 1;
        let text = self.lines[self.line - 1].as_str();
        Ok(String::from_str(text.substring_char(start, start + width)))
    }
}

} // verus!
