//! Why a call on the board fails.

use vstd::prelude::*;

verus! {

/// Why a call on the board fails. A failed call leaves the board as it was.
#[derive(Debug, Clone, Copy, PartialEq, Eq)]
pub enum MoonError {
    /// The board exists already: it is created once.
    AlreadyExists,
    /// With one more record the board would outgrow the bytes reserved for it.
    CapacityExceeded,
    /// No record has the identifier that was voted for.
    NotFound,
}

} // verus!
