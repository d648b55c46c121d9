//! Why a request is turned down.

use vstd::prelude::*;

verus! {

/// Why no plan was made.
#[derive(Clone, Copy, Debug, PartialEq, Eq, Structural)]
pub enum WalkError {
    /// The request is outside the domain of the walk: an offset that is not
    /// positive, a negative displacement, an angle out of range, or, where
    /// the target lies strictly between the allowed directions, slopes that
    /// are not valid or make no headway.
    InvalidParameter,
}

} // verus!
