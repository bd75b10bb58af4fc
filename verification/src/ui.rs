//! Plain values shared with the terminal interface.
use vstd::prelude::*;

verus! {

/// A size on the terminal, in columns and rows.
#[derive(Debug, Clone, Copy, PartialEq, Eq, Structural)]
pub struct Size {
    /// Number of columns.
    pub w: usize,
    /// Number of rows.
    pub h: usize,
}

/// A location on the terminal or in a document.
#[derive(Debug, Clone, Copy, PartialEq, Eq, Structural)]
pub struct Loc {
    /// Column.
    pub x: usize,
    /// Row.
    pub y: usize,
}

/// The message below the status line.
#[derive(Debug)]
pub enum Feedback {
    /// Something went as it should.
    Info(String),
    /// Something deserves attention.
    Warning(String),
    /// There is nothing to say.
    Silent,
}

} // verus!
