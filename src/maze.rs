use vstd::prelude::*;

use crate::cell::{decode_block, Cell, CellView, CELL_CHAR_WIDTH, CELL_LINE_HEIGHT};
use crate::errors::{ParseError, ParseMazeError};
use crate::lines::{lines_view, text_lines};
use crate::parser::{in_text, line_len, ContentParser};

verus! {

/// The block of `CELL_LINE_HEIGHT` lines, each `CELL_CHAR_WIDTH` characters
/// wide, whose top left character is at `(line, col)`, counted from 1.
pub open spec fn block_at(text: Seq<Seq<char>>, line: int, col: int) -> Seq<Seq<char>> {
    Seq::new(
        CELL_LINE_HEIGHT as nat,
        |i: int| text[line - 1 + i].subrange(col - 1, col - 1 + CELL_CHAR_WIDTH),
    )
}

/// The first failure met in reading the block at `(line, col)` from its line
/// `i` on: a position outside the text, a step down to a line that does not
/// reach the column, or a line too short for the block's width.
pub open spec fn block_fault_from(text: Seq<Seq<char>>, line: int, col: int, i: int) -> Option<
    ParseError,
>
    decreases CELL_LINE_HEIGHT - i,
{
    if i >= CELL_LINE_HEIGHT {
        None
    } else if i == 0 && !in_text(text, line, col) {
        Some(ParseError::OutOfBounds { line: line as usize, col: col as usize })
    } else if i > 0 && !in_text(text, line + i, col) {
        Some(
            ParseError::MoveOutOfBounds {
                line: (line + i - 1) as usize,
                col: col as usize,
                lines: 1,
                cols: 0,
            },
        )
    } else if col - 1 + CELL_CHAR_WIDTH > text[line + i - 1].len() {
        Some(
            ParseError::SliceOutOfBounds {
                line: (line + i) as usize,
                col: col as usize,
                width: CELL_CHAR_WIDTH,
            },
        )
    } else {
        block_fault_from(text, line, col, i + 1)
    }
}

/// The first failure met in reading the block at `(line, col)`, if any.
pub open spec fn block_fault(text: Seq<Seq<char>>, line: int, col: int) -> Option<ParseError> {
    block_fault_from(text, line, col, 0)
}

/// The row of cells whose top line is `line`, read from column `col` on and
/// appended to `acc`. After each cell the walk goes on where a step of
/// `CELL_CHAR_WIDTH + offset` columns stays on the line, one column back from
/// that step: cells share a border column when `offset` is 0.
pub open spec fn row_from(
    text: Seq<Seq<char>>,
    offset: nat,
    line: int,
    col: int,
    acc: Seq<CellView>,
) -> Result<Seq<CellView>, ParseError>
    decreases line_len(text, line) - col,
{
    match block_fault(text, line, col) {
        Some(e) => Err(e),
        None => {
            let row = acc.push(decode_block(block_at(text, line, col)));
            if col + CELL_CHAR_WIDTH + offset <= line_len(text, line) {
                row_from(text, offset, line, col + CELL_CHAR_WIDTH + offset - 1, row)
            } else {
                Ok(row)
            }
        },
    }
}

/// The rows of the grid from the row whose top line is `line` on, appended to
/// `acc`. The walk stops, with no error, where that line has no first
/// character. After each row it steps `CELL_LINE_HEIGHT + offset` lines down
/// from the row's first character: where that target has no first character
/// the grid is complete; else the next row starts one line back from it (rows
/// share a border line when `offset` is 0), and a line there without a first
/// character is a bounds failure.
pub open spec fn rows_from(
    text: Seq<Seq<char>>,
    offset: nat,
    line: int,
    acc: Seq<Seq<CellView>>,
) -> Result<Seq<Seq<CellView>>, ParseError>
    decreases text.len() - line,
{
    if !in_text(text, line, 1) {
        Ok(acc)
    } else {
        match row_from(text, offset, line, 1, Seq::empty()) {
            Err(e) => Err(e),
            Ok(row) => {
                let next = line + CELL_LINE_HEIGHT + offset;
                if !in_text(text, next, 1) {
                    Ok(acc.push(row))
                } else if !in_text(text, next - 1, 1) {
                    Err(
                        ParseError::MoveOutOfBounds {
                            line: next as usize,
                            col: 1,
                            lines: -1isize,
                            cols: 0,
                        },
                    )
                } else {
                    rows_from(text, offset, next - 1, acc.push(row))
                }
            },
        }
    }
}

/// The grid that the text `s` draws with overlap `offset`: 0 for the small
/// rendering, 1 for the large one.
pub open spec fn parse_grid(s: Seq<char>, offset: nat) -> Result<Seq<Seq<CellView>>, ParseError> {
    rows_from(text_lines(s), offset, 1, Seq::empty())
}

/// The small rendering where it decodes `s`; else the large one where that
/// decodes it; else both failures.
pub open spec fn detect_grid(s: Seq<char>) -> Result<Seq<Seq<CellView>>, ParseMazeError> {
    match parse_grid(s, 0) {
        Ok(g) => Ok(g),
        Err(sm) => match parse_grid(s, 1) {
            Ok(g) => Ok(g),
            Err(lg) => Err(ParseMazeError { sm_err: Some(sm), lg_err: Some(lg) }),
        },
    }
}

/// What a row of cells holds.
pub open spec fn row_view(row: Seq<Cell>) -> Seq<CellView> {
    row.map_values(|c: Cell| c@)
}

/// What a grid of cells holds, row by row.
pub open spec fn grid_view(cells: Seq<Vec<Cell>>) -> Seq<Seq<CellView>> {
    cells.map_values(|r: Vec<Cell>| row_view(r@))
}

/// A decoded maze: its cells row by row, top to bottom, each row left to right.
#[derive(Debug, Eq, PartialEq)]
pub struct Maze {
    pub cells: Vec<Vec<Cell>>,
}

impl View for Maze {
    type V = Seq<Seq<CellView>>;

    open spec fn view(&self) -> Seq<Seq<CellView>> {
        grid_view(self.cells@)
    }
}

impl std::str::FromStr for Maze {
    type Err = ParseMazeError;

    fn from_str(s: &str) -> (r: Result<Maze, ParseMazeError>)
        ensures
            match (r, detect_grid(s@)) {
                (Ok(m), Ok(g)) => m@ == g,
                (Err(e), Err(f)) => e == f,
                _ => false,
            },
    {
        Maze::parse_auto(s)
    }
}

/// Reads the block whose top left character is at the cursor, one line at a
/// time, and leaves the cursor on the block's last line.
fn read_block(parser: &mut ContentParser) -> (r: Result<Vec<String>, ParseError>)
    ensures
        final(parser).text() == old(parser).text(),
        final(parser).col() == old(parser).col(),
        ({
            let (text, line, col) = (
                old(parser).text(),
                old(parser).line() as int,
                old(parser).col() as int,
            );
            match block_fault(text, line, col) {
                Some(e) => r == Err::<Vec<String>, ParseError>(e),
                None => {
                    &&& r is Ok
                    &&& lines_view(r->Ok_0@) == block_at(text, line, col)
                    &&& final(parser).line() == line + CELL_LINE_HEIGHT - 1
                },
            }
        }),
{
    let ghost text = parser.text();
    let ghost line = parser.line() as int;
    let ghost col = parser.col() as int;
    let mut block: Vec<String> = Vec::new();
    let mut i: usize = 0;
    while i < CELL_LINE_HEIGHT
        invariant
            i <= CELL_LINE_HEIGHT,
            text == old(parser).text(),
            line == old(parser).line(),
            col == old(parser).col(),
            parser.text() == text,
            parser.col() == col,
            i == 0 ==> parser.line() == line,
            i > 0 ==> parser.line() == line + i - 1,
            block_fault(text, line, col) == block_fault_from(text, line, col, i as int),
            lines_view(block@) == block_at(text, line, col).take(i as int),
        decreases CELL_LINE_HEIGHT - i,
    {
        if i > 0 {
            match parser.next_line() {
                Ok(_) => {},
                Err(e) => return Err(e),
            }
        }
        let piece = match parser.slice(CELL_CHAR_WIDTH) {
            Ok(p) => p,
            Err(e) => return Err(e),
        };
        let ghost before = block@;
        block.push(piece);
        proof {
            assert(lines_view(block@) =~= lines_view(before).push(piece@));
            assert(lines_view(block@) =~= block_at(text, line, col).take(i + 1));
        }
        i = i + 1;
    }
    proof {
        assert(block_at(text, line, col).take(CELL_LINE_HEIGHT as int) =~= block_at(
            text,
            line,
            col,
        ));
    }
    Ok(block)
}

impl Maze {
    /// Decodes `s` in the small rendering, where neighbouring cells share
    /// their border column and line.
    pub fn parse_sm(s: &str) -> (r: Result<Maze, ParseError>)
        ensures
            match (r, parse_grid(s@, 0)) {
                (Ok(m), Ok(g)) => m@ == g,
                (Err(e), Err(f)) => e == f,
                _ => false,
            },
    {
        Self::do_parse(s, 0)
    }

    /// Decodes `s` in the large rendering, where every cell draws its own
    /// border columns and lines.
    pub fn parse_lg(s: &str) -> (r: Result<Maze, ParseError>)
        ensures
            match (r, parse_grid(s@, 1)) {
                (Ok(m), Ok(g)) => m@ == g,
                (Err(e), Err(f)) => e == f,
                _ => false,
            },
    {
        Self::do_parse(s, 1)
    }

    /// Tries the small rendering, then the large one, and reports both
    /// failures where neither decodes `s`.
    pub fn parse_auto(s: &str) -> (r: Result<Maze, ParseMazeError>)
        ensures
            match (r, detect_grid(s@)) {
                (Ok(m), Ok(g)) => m@ == g,
                (Err(e), Err(f)) => e == f,
                _ => false,
            },
    {
        match Self::parse_sm(s) {
            Ok(m) => Ok(m),
            Err(sm_err) => match Self::parse_lg(s) {
                Ok(m) => Ok(m),
                Err(lg_err) => Err(ParseMazeError { sm_err: Some(sm_err), lg_err: Some(lg_err) }),
            },
        }
    }

    /// Walks the cursor over `s` block by block, with the overlap `offset`
    /// between neighbouring cells.
    fn do_parse(s: &str, offset: isize) -> (r: Result<Maze, ParseError>)
        requires
            0 <= offset <= 1,
        ensures
            match (r, parse_grid(s@, offset as nat)) {
                (Ok(m), Ok(g)) => m@ == g,
                (Err(e), Err(f)) => e == f,
                _ => false,
            },
    {
        let ghost o = offset as nat;
        let mut parser = ContentParser::new(s);
        let ghost text = parser.text();
        let ghost goal = parse_grid(s@, o);
        let mut cells: Vec<Vec<Cell>> = Vec::new();
        proof {
            assert(grid_view(cells@) =~= Seq::<Seq<CellView>>::empty());
        }
        loop
            invariant
                parser.text() == text,
                text == text_lines(s@),
                goal == parse_grid(s@, o),
                o == offset,
                0 <= offset <= 1,
                parser.line() >= 1,
                parser.col() == 1,
                rows_from(text, o, parser.line() as int, grid_view(cells@)) == goal,
            decreases text.len() - parser.line(),
        {
            if parser.curr_char().is_err() {
                return Ok(Maze { cells });
            }
            let row_start = parser.curr_pos();
            let ghost line = row_start.0 as int;
            let mut row: Vec<Cell> = Vec::new();
            proof {
                assert(row_view(row@) =~= Seq::<CellView>::empty());
            }
            loop
                invariant_except_break
                    in_text(text, line, parser.col() as int),
                    row_from(text, o, line, parser.col() as int, row_view(row@)) == row_from(
                        text,
                        o,
                        line,
                        1,
                        Seq::empty(),
                    ),
                invariant
                    parser.text() == text,
                    parser.line() == line,
                    0 <= offset <= 1,
                    o == offset,
                    in_text(text, line, 1),
                    rows_from(text, o, line, grid_view(cells@)) == goal,
                    goal == parse_grid(s@, o),
                ensures
                    parser.text() == text,
                    parser.line() == line,
                    row_from(text, o, line, 1, Seq::empty()) == Ok::<
                        Seq<CellView>,
                        ParseError,
                    >(row_view(row@)),
                decreases line_len(text, line) - parser.col(),
            {
                let ghost col = parser.col() as int;
                let block = match read_block(&mut parser) {
                    Ok(b) => b,
                    Err(e) => {
                        proof {
                            assert(block_fault(text, line, col) == Some(e));
                            assert(row_from(text, o, line, col, row_view(row@)) == Err::<
                                Seq<CellView>,
                                ParseError,
                            >(e));
                            assert(rows_from(text, o, line, grid_view(cells@)) == Err::<
                                Seq<Seq<CellView>>,
                                ParseError,
                            >(e));
                        }
                        return Err(e);
                    },
                };
                let cell = match Cell::from_lines(&block) {
                    Ok(c) => c,
                    Err(e) => return Err(e),
                };
                let ghost before = row@;
                row.push(cell);
                proof {
                    assert(row_view(row@) =~= row_view(before).push(cell@));
                }
                let back = parser.move_lines(-(CELL_LINE_HEIGHT as isize) + 1);
                proof {
                    assert(back is Ok);
                }
                if parser.move_cols(CELL_CHAR_WIDTH as isize + offset).is_err() {
                    break;
                }
                let _ = parser.move_cols(-1);
            }
            let ghost acc = grid_view(cells@);
            cells.push(row);
            proof {
                assert(grid_view(cells@) =~= acc.push(row_view(row@)));
            }
            let _ = parser.go_to_pos(row_start);
            if parser.move_lines(CELL_LINE_HEIGHT as isize + offset).is_err() {
                return Ok(Maze { cells });
            }
            match parser.move_lines(-1) {
                Ok(_) => {},
                Err(e) => return Err(e),
            }
        }
    }
}

/// How many cells a row holds whose top line has `n` characters, counting
/// from the cell at column `col`.
spec fn cells_in_row(n: int, col: int, offset: nat) -> nat
    decreases n - col,
{
    if col + CELL_CHAR_WIDTH + offset <= n {
        1 + cells_in_row(n, col + CELL_CHAR_WIDTH + offset - 1, offset)
    } else {
        1
    }
}

proof fn lemma_row_length(
    text: Seq<Seq<char>>,
    offset: nat,
    line: int,
    col: int,
    acc: Seq<CellView>,
)
    requires
        row_from(text, offset, line, col, acc) is Ok,
    ensures
        row_from(text, offset, line, col, acc)->Ok_0.len() == acc.len() + cells_in_row(
            line_len(text, line),
            col,
            offset,
        ),
    decreases line_len(text, line) - col,
{
    let n = line_len(text, line);
    if col + CELL_CHAR_WIDTH + offset <= n {
        let row = acc.push(decode_block(block_at(text, line, col)));
        lemma_row_length(text, offset, line, col + CELL_CHAR_WIDTH + offset - 1, row);
    }
}

proof fn lemma_rows_length(
    text: Seq<Seq<char>>,
    offset: nat,
    line: int,
    acc: Seq<Seq<CellView>>,
    n: int,
)
    requires
        rows_from(text, offset, line, acc) is Ok,
        forall|i: int| 0 <= i < text.len() ==> #[trigger] text[i].len() == n,
        forall|i: int| 0 <= i < acc.len() ==> #[trigger] acc[i].len() == cells_in_row(n, 1, offset),
    ensures
        ({
            let g = rows_from(text, offset, line, acc)->Ok_0;
            forall|i: int| 0 <= i < g.len() ==> #[trigger] g[i].len() == cells_in_row(n, 1, offset)
        }),
    decreases text.len() - line,
{
    if in_text(text, line, 1) {
        let row = row_from(text, offset, line, 1, Seq::empty())->Ok_0;
        lemma_row_length(text, offset, line, 1, Seq::empty());
        assert(text[line - 1].len() == n);
        let next = acc.push(row);
        assert forall|i: int| 0 <= i < next.len() implies #[trigger] next[i].len() == cells_in_row(
            n,
            1,
            offset,
        ) by {
            if i < acc.len() {
                assert(next[i] == acc[i]);
            }
        }
        let after = line + CELL_LINE_HEIGHT + offset;
        if in_text(text, after, 1) && in_text(text, after - 1, 1) {
            lemma_rows_length(text, offset, after - 1, next, n);
        }
    }
}

/// Where every line of the text has the same length, a decoded grid has no
/// jagged rows: each row holds as many cells as the first.
pub proof fn lemma_rows_equal_length(s: Seq<char>, offset: nat)
    requires
        parse_grid(s, offset) is Ok,
        forall|i: int, j: int|
            0 <= i < text_lines(s).len() && 0 <= j < text_lines(s).len() ==> #[trigger] text_lines(
                s,
            )[i].len() == #[trigger] text_lines(s)[j].len(),
    ensures
        ({
            let g = parse_grid(s, offset)->Ok_0;
            forall|i: int| 0 <= i < g.len() ==> #[trigger] g[i].len() == g[0].len()
        }),
{
    let text = text_lines(s);
    if text.len() > 0 {
        let n = text[0].len() as int;
        assert forall|i: int| 0 <= i < text.len() implies #[trigger] text[i].len() == n by {
            assert(text[i].len() == text[0].len());
        }
        lemma_rows_length(text, offset, 1, Seq::empty(), n);
    }
}

/// A text whose first line has no first character, or that has no lines at
/// all, decodes in either rendering to a grid with no rows.
pub proof fn lemma_no_first_char_empty(s: Seq<char>)
    requires
        text_lines(s).len() == 0 || text_lines(s)[0].len() == 0,
    ensures
        parse_grid(s, 0) == Ok::<Seq<Seq<CellView>>, ParseError>(Seq::empty()),
        parse_grid(s, 1) == Ok::<Seq<Seq<CellView>>, ParseError>(Seq::empty()),
        detect_grid(s) == Ok::<Seq<Seq<CellView>>, ParseMazeError>(Seq::empty()),
{
}

/// A text that has a first character but fewer lines than one cell block
/// fails in both renderings, and the combined error carries both failures.
pub proof fn lemma_short_input_fails(s: Seq<char>)
    requires
        1 <= text_lines(s).len() < CELL_LINE_HEIGHT,
        text_lines(s)[0].len() >= 1,
    ensures
        parse_grid(s, 0) is Err,
        parse_grid(s, 1) is Err,
        detect_grid(s) == Err::<Seq<Seq<CellView>>, ParseMazeError>(
            ParseMazeError {
                sm_err: Some(parse_grid(s, 0)->Err_0),
                lg_err: Some(parse_grid(s, 1)->Err_0),
            },
        ),
{
    let text = text_lines(s);
    assert(block_fault_from(text, 1, 1, 2) is Some || block_fault_from(text, 1, 1, 1) is Some);
    assert(block_fault(text, 1, 1) is Some);
}

} // verus!
