use std::sync::atomic::AtomicBool;
use std::sync::atomic::Ordering;
use std::sync::Arc;
use vstd::prelude::*;

verus! {

/// Reads a cancellation signal. Another thread may raise it at any moment,
/// so nothing is known of the answer beforehand.
pub(crate) fn is_raised(signal: &Arc<AtomicBool>) -> (r: bool) {
    signal.load(Ordering::Relaxed)
}

/// `Arc::new`, for a flag that was just made. In contracts a signal stands
/// for the flag itself, not for what the flag holds at some moment.
/// Claimed: the handle stands for the flag it was given, and that flag is a
/// new one: no signal that was there before, such as `beside`, is the same.
#[verifier::external_body]
pub(crate) fn new_signal(flag: AtomicBool, beside: &Arc<AtomicBool>) -> (r: Arc<AtomicBool>)
    ensures
        r == flag,
        r != *beside,
{
    Arc::new(flag)
}

/// A handle on the cancellation signal of one context. It can be moved away
/// from the context, to another thread too, and outlive it.
#[derive(Clone, Debug)]
pub struct Canceller {
    cancelled: Arc<AtomicBool>,
}

impl Canceller {
    /// The signal that this handle raises.
    pub closed spec fn signal(&self) -> Arc<AtomicBool> {
        self.cancelled
    }

    /// A handle on the given signal.
    pub fn new(cancelled: Arc<AtomicBool>) -> (r: Canceller)
        ensures
            r.signal() == cancelled,
    {
        Canceller { cancelled }
    }

    /// Raises the signal. A second call changes nothing. The signal lives
    /// outside what contracts can see: readers find it raised when they next
    /// load it.
    pub fn cancel(&self) {
        self.cancelled.store(true, Ordering::Relaxed);
    }
}

} // verus!
