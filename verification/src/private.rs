//! A crate-private marker type.

use vstd::prelude::*;

verus! {

/// Witness that a continuation action was minted by the controller itself.
/// The type cannot be named outside this crate, so external callers cannot
/// construct the internal actions that carry it.
#[derive(Clone, Copy, Debug)]
pub struct PrivateZst;

} // verus!
