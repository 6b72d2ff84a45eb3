use vstd::prelude::*;

verus! {

/// The errors of this library.
#[derive(Debug, Clone, Copy, PartialEq, Eq)]
pub enum Error {
    /// A concrete value was asked of an unbounded limit.
    NotFoundError,
}

} // verus!
