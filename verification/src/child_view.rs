//! Child-view identity: a view is identified by the value of its
//! viewport creation token.

use vstd::prelude::*;

verus! {

/// Identifier of a child view; the value of the viewport content id it
/// was created from.
#[derive(Debug, Copy, Clone, PartialEq, Eq, PartialOrd, Ord, Hash, Structural)]
pub struct ChildViewId(u64);

impl ChildViewId {
    /// The raw token value.
    pub closed spec fn value(&self) -> u64 {
        self.0
    }

    /// Identify a child view by its viewport content id's value.
    pub fn from_viewport_content_id(value: u64) -> (r: Self)
        ensures
            r.value() == value,
    {
        ChildViewId(value)
    }
}

} // verus!
