//! The renderer abstraction: a single-method capability shared by every
//! back-end. One implementation delegates the final formatting to the
//! external converter; others may render in process.

use vstd::prelude::*;
use crate::book::MDBook;
use crate::errors::BuildError;

verus! {

/// A build strategy: one entry point that takes the book and produces the
/// build as a side effect. Every implementation must create the output
/// directory before writing anything, and either fully succeed or surface a
/// fatal error; partial output from a failed build is tolerated.
pub trait Renderer {
    fn render(&self, book: &MDBook) -> Result<(), BuildError>;
}

} // verus!
