use vstd::prelude::*;

verus! {

/// Why a context may no longer be used.
#[derive(Clone, Copy, Debug, PartialEq, Eq, Structural)]
pub enum Reason {
    /// A deadline on the context, or on one of its ancestors, has passed.
    Timedout,
    /// The context, or one of its ancestors, was canceled.
    Canceled,
}

} // verus!
