//! Source positions tracked while scanning: absolute offset, offset within
//! the current line, and line number.

use vstd::prelude::*;

verus! {

/// A position in the scanned text. `at_whole` is the absolute character
/// offset, `at_line` the offset within the current line, and `line_no` the
/// one-based line number. During a scan `at_whole` only grows; a newline
/// resets `at_line` to 0 and increments `line_no`.
#[derive(Debug, Clone, Copy, PartialEq, Eq, Structural)]
pub struct Position {
    pub line_no: usize,
    pub at_line: usize,
    pub at_whole: usize,
}

/// The mathematical value of a `Position`, with unbounded integers.
pub struct PosView {
    pub line: int,
    pub col: int,
    pub off: int,
}

impl View for Position {
    type V = PosView;

    open spec fn view(&self) -> PosView {
        PosView { line: self.line_no as int, col: self.at_line as int, off: self.at_whole as int }
    }
}

impl Position {
    pub fn new(line_no: usize, at_line: usize, at_whole: usize) -> (p: Position)
        ensures
            p == (Position { line_no, at_line, at_whole }),
    {
        Position { line_no, at_line, at_whole }
    }
}

} // verus!
