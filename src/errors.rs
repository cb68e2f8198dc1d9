use vstd::prelude::*;

verus! {

/// Why one attempt at decoding a diagram stopped.
///
/// Lines and columns are counted from 1, as the cursor counts them.
#[derive(Clone, Copy, Debug, PartialEq, Eq, Structural)]
pub enum ParseError {
    /// The position `(line, col)`, current or requested, lies outside the text.
    OutOfBounds { line: usize, col: usize },
    /// Moving from `(line, col)` by `lines` lines and `cols` columns would leave the text.
    MoveOutOfBounds { line: usize, col: usize, lines: isize, cols: isize },
    /// `width` characters from `(line, col)` run past the end of that line.
    SliceOutOfBounds { line: usize, col: usize, width: usize },
    /// A cell block has `found` lines where `expected` were needed.
    Dimension { expected: usize, found: usize },
}

/// Both renderings were tried and neither decoded the diagram.
///
/// Each field holds the reason one attempt failed, when that attempt ran.
#[derive(Clone, Copy, Debug, PartialEq, Eq, Structural)]
pub struct ParseMazeError {
    pub sm_err: Option<ParseError>,
    pub lg_err: Option<ParseError>,
}

} // verus!
