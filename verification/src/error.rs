//! The errors of this library.
use vstd::prelude::*;

verus! {

/// Errors of this library.
#[derive(Debug)]
pub enum Error {
    /// Text that does not follow the syntax it was read as; the message
    /// quotes the text.
    Syntax(String),
}

} // verus!
