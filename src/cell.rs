use vstd::prelude::*;
use vstd::string::{StrSliceExecFns, StringExecFns};

use crate::errors::ParseError;
use crate::lines::{lines_view, split_lines, text_lines};

verus! {

/// Dashes along the top and bottom wall of a cell.
pub const WALL_DASHES: usize = 3;

/// Characters across one cell block: the dashes and a corner on each side.
pub const CELL_CHAR_WIDTH: usize = WALL_DASHES + 2;

/// Pipes down the left and right wall of a cell.
pub const CELL_WALL_PIPES: usize = 1;

/// Lines down one cell block: the pipe rows and a border line above and below.
pub const CELL_LINE_HEIGHT: usize = CELL_WALL_PIPES + 2;

/// One square of a maze: which of its walls and corners are drawn, and the
/// text at its center.
#[derive(Clone, Debug, Default, Eq, PartialEq)]
pub struct Cell {
    pub wall_top: bool,
    pub wall_bottom: bool,
    pub wall_left: bool,
    pub wall_right: bool,
    pub corner_top_left: bool,
    pub corner_top_right: bool,
    pub corner_bottom_left: bool,
    pub corner_bottom_right: bool,
    pub inner_text: String,
}

/// What a `Cell` holds, with its text as a sequence of characters.
pub struct CellView {
    pub wall_top: bool,
    pub wall_bottom: bool,
    pub wall_left: bool,
    pub wall_right: bool,
    pub corner_top_left: bool,
    pub corner_top_right: bool,
    pub corner_bottom_left: bool,
    pub corner_bottom_right: bool,
    pub inner_text: Seq<char>,
}

impl View for Cell {
    type V = CellView;

    open spec fn view(&self) -> CellView {
        CellView {
            wall_top: self.wall_top,
            wall_bottom: self.wall_bottom,
            wall_left: self.wall_left,
            wall_right: self.wall_right,
            corner_top_left: self.corner_top_left,
            corner_top_right: self.corner_top_right,
            corner_bottom_left: self.corner_bottom_left,
            corner_bottom_right: self.corner_bottom_right,
            inner_text: self.inner_text@,
        }
    }
}

/// Whether `l` has the character `c` at index `i` (counted from 0).
pub open spec fn marked(l: Seq<char>, i: int, c: char) -> bool {
    0 <= i < l.len() && l[i] == c
}

/// The characters of `l` from index 1, at most `WALL_DASHES` of them.
pub open spec fn inner_of(l: Seq<char>) -> Seq<char> {
    l.subrange(
        if l.len() < 1 {
            l.len() as int
        } else {
            1
        },
        if l.len() < 1 + WALL_DASHES {
            l.len() as int
        } else {
            1 + WALL_DASHES
        },
    )
}

/// The cell that a block of `CELL_LINE_HEIGHT` lines draws: each flag is set
/// where its marker stands at its place, and is clear for any other character
/// or where the line is too short.
pub open spec fn decode_block(b: Seq<Seq<char>>) -> CellView {
    let (top, mid, bottom) = (b[0], b[1], b[CELL_LINE_HEIGHT - 1]);
    let right = CELL_CHAR_WIDTH - 1;
    CellView {
        wall_top: marked(top, 1, '-'),
        wall_bottom: marked(bottom, 1, '-'),
        wall_left: marked(mid, 0, '|'),
        wall_right: marked(mid, right, '|'),
        corner_top_left: marked(top, 0, '+'),
        corner_top_right: marked(top, right, '+'),
        corner_bottom_left: marked(bottom, 0, '+'),
        corner_bottom_right: marked(bottom, right, '+'),
        inner_text: inner_of(mid),
    }
}

/// Decoding a block of lines: the cell it draws where it has
/// `CELL_LINE_HEIGHT` lines, and a dimension error where it does not.
pub open spec fn decode_cell(b: Seq<Seq<char>>) -> Result<CellView, ParseError> {
    if b.len() == CELL_LINE_HEIGHT {
        Ok(decode_block(b))
    } else {
        Err(ParseError::Dimension { expected: CELL_LINE_HEIGHT, found: b.len() as usize })
    }
}

/// Whether `l` has the character `c` at index `i`.
fn has_marker(l: &String, i: usize, c: char) -> (r: bool)
    ensures
        r == marked(l@, i as int, c),
{
    let s = l.as_str();
    i < s.unicode_len() && s.get_char(i) == c
}

impl Cell {
    /// Decodes a block of lines, each the slice of one cell's width.
    pub fn from_lines(lines: &Vec<String>) -> (r: Result<Cell, ParseError>)
        ensures
            match (r, decode_cell(lines_view(lines@))) {
                (Ok(c), Ok(v)) => c@ == v,
                (Err(e), Err(f)) => e == f,
                _ => false,
            },
    {
        if lines.len() != CELL_LINE_HEIGHT {
            return Err(ParseError::Dimension { expected: CELL_LINE_HEIGHT, found: lines.len() });
        }
        let ghost b = lines_view(lines@);
        let top = &lines[0];
        let mid = &lines[1];
        let bottom = &lines[CELL_LINE_HEIGHT - 1];
        let right = CELL_CHAR_WIDTH - 1;
        let m = mid.as_str();
        let len = m.unicode_len();
        let lo = if len < 1 {
            len
        } else {
            1
        };
        let hi = if len < 1 + WALL_DASHES {
            len
        } else {
            1 + WALL_DASHES
        };
        let inner_text = String::from_str(m.substring_char(lo, hi));
        let cell = Cell {
            wall_top: has_marker(top, 1, '-'),
            wall_bottom: has_marker(bottom, 1, '-'),
            wall_left: has_marker(mid, 0, '|'),
            wall_right: has_marker(mid, right, '|'),
            corner_top_left: has_marker(top, 0, '+'),
            corner_top_right: has_marker(top, right, '+'),
            corner_bottom_left: has_marker(bottom, 0, '+'),
            corner_bottom_right: has_marker(bottom, right, '+'),
            inner_text,
        };
        proof {
            assert(b[0] == top@ && b[1] == mid@ && b[CELL_LINE_HEIGHT - 1] == bottom@);
        }
        Ok(cell)
    }

    /// Decodes a cell from its text: the block's lines, separated by newlines.
    pub fn decode(s: &str) -> (r: Result<Cell, ParseError>)
        ensures
            match (r, decode_cell(text_lines(s@))) {
                (Ok(c), Ok(v)) => c@ == v,
                (Err(e), Err(f)) => e == f,
                _ => false,
            },
    {
        Cell::from_lines(&split_lines(s))
    }
}

impl std::str::FromStr for Cell {
    type Err = ParseError;

    fn from_str(s: &str) -> (r: Result<Cell, ParseError>)
        ensures
            match (r, decode_cell(text_lines(s@))) {
                (Ok(c), Ok(v)) => c@ == v,
                (Err(e), Err(f)) => e == f,
                _ => false,
            },
    {
        Cell::decode(s)
    }
}

/// Decoding is a function of the block alone: the same lines decode to the
/// same cell, flag for flag and character for character.
pub proof fn lemma_decode_deterministic(a: Seq<Seq<char>>, b: Seq<Seq<char>>)
    requires
        a == b,
    ensures
        decode_cell(a) == decode_cell(b),
{
}

/// Decoding never rejects a character: a block of the right shape always
/// decodes, and a flag whose place holds anything but its marker is clear.
pub proof fn lemma_decode_permissive(b: Seq<Seq<char>>)
    requires
        b.len() == CELL_LINE_HEIGHT,
        forall|i: int| 0 <= i < b.len() ==> #[trigger] b[i].len() == CELL_CHAR_WIDTH,
    ensures
        decode_cell(b) is Ok,
        ({
            let c = decode_cell(b)->Ok_0;
            let (top, mid, bottom) = (b[0], b[1], b[CELL_LINE_HEIGHT - 1]);
            let right = CELL_CHAR_WIDTH - 1;
            &&& c.wall_top <==> top[1] == '-'
            &&& c.wall_bottom <==> bottom[1] == '-'
            &&& c.wall_left <==> mid[0] == '|'
            &&& c.wall_right <==> mid[right] == '|'
            &&& c.corner_top_left <==> top[0] == '+'
            &&& c.corner_top_right <==> top[right] == '+'
            &&& c.corner_bottom_left <==> bottom[0] == '+'
            &&& c.corner_bottom_right <==> bottom[right] == '+'
            &&& c.inner_text == mid.subrange(1, 1 + WALL_DASHES)
        }),
{
    assert(b[0].len() == CELL_CHAR_WIDTH);
    assert(b[1].len() == CELL_CHAR_WIDTH);
    assert(b[CELL_LINE_HEIGHT - 1].len() == CELL_CHAR_WIDTH);
}

} // verus!
