use std::time::Duration;
use trice::Instant;
use vstd::prelude::*;

verus! {

/// A point on the monotonic clock: `trice::Instant`, which is std's instant
/// on most targets and a type of `trice` itself on wasm32. Its inside is the
/// platform's business; what is claimed of it below holds of both.
#[verifier::external_type_specification]
#[verifier::external_body]
pub struct ExInstant(trice::Instant);

/// Where an instant lies on the clock's time line, in nanoseconds from an
/// origin that the platform picks. Only differences and order matter.
pub uninterp spec fn instant_nanos(t: Instant) -> int;

/// The length of a duration in nanoseconds.
pub uninterp spec fn duration_nanos(d: Duration) -> nat;

/// Reads the clock: `trice::Instant::now`. Nothing is claimed of the instant
/// that comes back.
#[verifier::external_body]
pub(crate) fn now() -> (r: Instant) {
    Instant::now()
}

/// The `<` of `trice::Instant`. Claimed: instants are ordered as their
/// places on the time line are.
#[verifier::external_body]
pub(crate) fn before(a: Instant, b: Instant) -> (r: bool)
    ensures
        r == (instant_nanos(a) < instant_nanos(b)),
{
    a < b
}

/// `trice::Instant::saturating_duration_since`, called only where `earlier`
/// is not the later one: on wasm32 it subtracts and does not saturate.
/// Claimed: the time from `earlier` to `later`.
#[verifier::external_body]
pub(crate) fn since(later: Instant, earlier: Instant) -> (r: Duration)
    requires
        instant_nanos(later) >= instant_nanos(earlier),
    ensures
        duration_nanos(r) == instant_nanos(later) - instant_nanos(earlier),
{
    later.saturating_duration_since(earlier)
}

/// `Duration::ZERO`. Claimed: it has no length.
#[verifier::external_body]
pub(crate) fn no_time() -> (r: Duration)
    ensures
        duration_nanos(r) == 0,
{
    Duration::ZERO
}

/// The instant that lies `d` after `t`, where the platform can tell it: it
/// cannot represent every instant.
pub uninterp spec fn instant_after(t: Instant, d: Duration) -> Option<Instant>;

/// `trice::Instant::checked_add`. Claimed: what comes back depends on `t`
/// and `d` alone; where an instant comes back, it lies `d` after `t`; and
/// one comes back where `d` has no length, since `t` itself can be told.
#[verifier::external_body]
pub(crate) fn shifted(t: Instant, d: Duration) -> (r: Option<Instant>)
    ensures
        r == instant_after(t, d),
        r matches Some(s) ==> instant_nanos(s) == instant_nanos(t) + duration_nanos(d),
        duration_nanos(d) == 0 ==> r is Some,
{
    t.checked_add(d)
}

} // verus!
