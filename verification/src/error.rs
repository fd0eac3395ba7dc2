use vstd::prelude::*;

verus! {

/// The failures that a context reports to its caller.
#[derive(Clone, Copy, Debug, PartialEq, Eq, Structural)]
pub enum Error {
    /// A transaction was asked for and the context holds none.
    NoTx,
}

impl Error {
    /// The text shown to a user for this failure.
    pub fn message(&self) -> (r: &'static str)
        ensures
            r@ == "no active transaction"@,
    {
        match self {
            Error::NoTx => "no active transaction",
        }
    }
}

} // verus!
