//! The conditions the navigation engine can run into, and the policy that
//! recovers from each of them.

use vstd::prelude::*;

verus! {

/// What can go wrong while resolving or moving the focus.
#[derive(Clone, Copy, Debug, PartialEq, Eq, Structural)]
pub enum NavError {
    /// No item, or more than one item, is flagged as selected.
    SelectionInvariantViolated,
    /// The text of an index attribute is not a decimal number that fits.
    IndexAttributeUnparseable,
    /// The list holds no selectable item where one is needed.
    ElementNotFound,
}

/// The index to continue with after resolving the cursor: the resolved index,
/// or the input row when the cursor could not be resolved.
pub open spec fn spec_index_or_fallback(resolved: Result<usize, NavError>) -> usize {
    match resolved {
        Ok(index) => index,
        Err(_) => 0,
    }
}

/// Applies the fallback policy: a cursor that could not be resolved is treated
/// as resting on the input row.
pub fn index_or_fallback(resolved: Result<usize, NavError>) -> (index: usize)
    ensures
        index == spec_index_or_fallback(resolved),
{
    match resolved {
        Ok(index) => index,
        Err(_) => 0,
    }
}

} // verus!
