use vstd::prelude::*;

verus! {

/// A failure reported by a byte sink.
#[derive(Debug, Clone, Copy, PartialEq, Eq, Structural)]
pub enum Error {
    /// The requested range lies outside the sink's bytes.
    OutOfBounds,
}

impl Error {
    /// A human-readable description of the error.
    pub fn message(&self) -> (r: String)
        ensures
            r@ == "range out of bounds"@,
    {
        match *self {
            Error::OutOfBounds => String::from_str("range out of bounds"),
        }
    }
}

} // verus!
