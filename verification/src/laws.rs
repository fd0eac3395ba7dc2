use crate::context::{Context, Scope};
use crate::clock::instant_nanos;
use crate::reason::Reason;
use std::sync::atomic::AtomicBool;
use std::sync::Arc;
use trice::Instant;
use vstd::prelude::*;

verus! {

/// A deadline only tightens: where a scope has the deadline `held` and a
/// later one is added, the deadline stays `held`.
pub proof fn lemma_deadline_tighten_only<T, Q, R, D>(
    scope: Scope<T, Q, R, D>,
    held: Instant,
    later: Instant,
)
    requires
        scope.deadline == Some(held),
        instant_nanos(later) > instant_nanos(held),
    ensures
        scope.tightened(later).deadline == Some(held),
{
}

/// After a deadline was added, the scope's deadline is no later than the
/// added one, and no later than the one it had.
pub proof fn lemma_deadline_is_soonest<T, Q, R, D>(scope: Scope<T, Q, R, D>, added: Instant)
    ensures
        instant_nanos(scope.tightest(added)) <= instant_nanos(added),
        scope.deadline matches Some(held) ==> instant_nanos(scope.tightest(added))
            <= instant_nanos(held),
        scope.tightest(added) == added || scope.deadline == Some(scope.tightest(added)),
{
}

/// The deadline in force is the soonest on the chain: where an ancestor has
/// a deadline, the context has one too, and it is no later.
pub proof fn lemma_deadline_soonest_on_chain<'a, T, Q, R, D>(
    c: &Context<'a, T, Q, R, D>,
    up: nat,
)
    requires
        c.wf(),
        c.ancestor(up) matches Some(a) && a@.deadline is Some,
    ensures
        c@.deadline is Some,
        instant_nanos(c@.deadline.unwrap()) <= instant_nanos(
            c.ancestor(up).unwrap()@.deadline.unwrap(),
        ),
    decreases up,
{
    if up > 0 {
        lemma_deadline_soonest_on_chain(c.parent_of().unwrap(), (up - 1) as nat);
    }
}

/// Being ok, being done and being timed out are read off one status: a
/// context is ok where the status is empty, done where it is not, and timed
/// out where the status says so. So done is the opposite of ok.
pub proof fn lemma_status_projections<'a, T, Q, R, D>(
    c: &Context<'a, T, Q, R, D>,
    seen: Seq<(int, bool)>,
)
    ensures
        c.ok_given(seen) == (c.status_given(seen) is None),
        c.done_given(seen) == !c.ok_given(seen),
        c.timedout_given(seen) == (c.status_given(seen) == Some(Reason::Timedout)),
        c.timedout_given(seen) ==> c.done_given(seen),
{
}

/// A context that lies `up` steps above another is on that one's chain.
pub proof fn lemma_ancestor_on_chain<'a, T, Q, R, D>(c: &Context<'a, T, Q, R, D>, up: nat)
    requires
        c.ancestor(up) is Some,
    ensures
        up < c.depth(),
    decreases up,
{
    if up > 0 {
        lemma_ancestor_on_chain(c.parent_of().unwrap(), (up - 1) as nat);
    }
}

/// Cancellation reaches every descendant: where the signal of a context is
/// found raised, every context below it, and the context itself, is done,
/// whenever the descendant was created and whatever else is observed.
pub proof fn lemma_cancel_reaches_descendants<'a, T, Q, R, D>(
    below: &Context<'a, T, Q, R, D>,
    canceled: &Context<'a, T, Q, R, D>,
    up: nat,
    seen: Seq<(int, bool)>,
)
    requires
        below.ancestor(up) == Some(*canceled),
        seen.len() == below.depth(),
        seen[up as int].1,
    ensures
        below.done_given(seen),
        up == 0 && !below@.expired_at(seen[0].0) ==> below.status_given(seen) == Some(
            Reason::Canceled,
        ),
    decreases up,
{
    lemma_ancestor_on_chain(below, up);
    if up > 0 {
        let p = below.parent_of().unwrap();
        lemma_cancel_reaches_descendants(p, canceled, (up - 1) as nat, seen.drop_first());
    }
}

/// Cancellation goes down only: the status of a context follows from what
/// is observed of the context and of its ancestors. What is observed of a
/// child, its signal too, has no part in the status of the parent.
pub proof fn lemma_cancel_spares_parent<'a, T, Q, R, D>(
    child: &Context<'a, T, Q, R, D>,
    seen: Seq<(int, bool)>,
    other: (int, bool),
)
    requires
        child.parent_of() is Some,
        seen.len() == child.depth(),
    ensures
        child.parent_of().unwrap().status_given(seen.update(0, other).drop_first())
            == child.parent_of().unwrap().status_given(seen.drop_first()),
        !child@.expired_at(seen[0].0) && !seen[0].1 ==> child.status_given(seen)
            == child.parent_of().unwrap().status_given(seen.drop_first()),
{
    assert(seen.update(0, other).drop_first() =~= seen.drop_first());
}

/// Raising a signal leaves every context alone that does not have it on
/// its chain: what is observed of such a context, and so its status, is as
/// before. A parent is spared when its child is canceled, because the
/// signal of a child is not the parent's.
pub proof fn lemma_cancel_spares_others<'a, T, Q, R, D>(
    c: &Context<'a, T, Q, R, D>,
    at: int,
    raised: Set<Arc<AtomicBool>>,
    signal: Arc<AtomicBool>,
)
    requires
        !c.signals().contains(signal),
    ensures
        c.sight(at, raised.insert(signal)) == c.sight(at, raised),
        c.status_given(c.sight(at, raised.insert(signal))) == c.status_given(
            c.sight(at, raised),
        ),
    decreases c.depth(),
{
    assert(c.signals()[0] == c@.signal);
    match c.parent_of() {
        Some(p) => {
            assert forall|i: int| 0 <= i < p.signals().len() implies p.signals()[i] != signal by {
                assert(c.signals()[i + 1] == p.signals()[i]);
            }
            lemma_cancel_spares_others(p, at, raised, signal);
        },
        None => {},
    }
}

/// The signal of a root is the only one on its chain, so a root is spared
/// by every signal but its own: by that of each of its children.
pub proof fn lemma_cancel_child_spares_root<'a, T, Q, R, D>(
    root: &Context<'a, T, Q, R, D>,
    child: &Context<'a, T, Q, R, D>,
    at: int,
    raised: Set<Arc<AtomicBool>>,
)
    requires
        root.parent_of() is None,
        child@.signal != root@.signal,
    ensures
        root.status_given(root.sight(at, raised.insert(child@.signal))) == root.status_given(
            root.sight(at, raised),
        ),
{
    assert forall|i: int| 0 <= i < root.signals().len() implies root.signals()[i]
        != child@.signal by {}
    lemma_cancel_spares_others(root, at, raised, child@.signal);
}

/// A context without a deadline on its chain never counts as timed out.
pub proof fn lemma_no_deadline_no_timeout<'a, T, Q, R, D>(
    c: &Context<'a, T, Q, R, D>,
    seen: Seq<(int, bool)>,
)
    requires
        c.wf(),
        c@.deadline is None,
    ensures
        !c.timedout_given(seen),
    decreases c.depth(),
{
    if seen.len() > 0 {
        match c.parent_of() {
            Some(p) => {
                lemma_no_deadline_no_timeout(p, seen.drop_first());
            },
            None => {},
        }
    }
}

/// A key resolves to the value of the nearest context that binds it: the
/// context's own value where it binds the key, whatever the ancestors
/// bind; else what the parent resolves the key to; and nothing where no
/// context on the chain binds it.
pub proof fn lemma_value_nearest<'a, T, Q, R, D>(c: &Context<'a, T, Q, R, D>, key: Seq<char>)
    ensures
        c@.local.contains_key(key) ==> c.resolve(key) == Some(c@.local[key]),
        !c@.local.contains_key(key) && c.parent_of() is Some ==> c.resolve(key)
            == c.parent_of().unwrap().resolve(key),
        !c@.local.contains_key(key) && c.parent_of() is None ==> c.resolve(key) is None,
        c.resolve(key) is Some <==> exists|up: nat| #[trigger] c.binds_at(up, key),
    decreases c.depth(),
{
    if c@.local.contains_key(key) {
        assert(c.binds_at(0, key));
    } else {
        match c.parent_of() {
            Some(p) => {
                lemma_value_nearest(p, key);
                if p.resolve(key) is Some {
                    let up = choose|up: nat| #[trigger] p.binds_at(up, key);
                    assert(c.binds_at(up + 1, key));
                }
                if exists|up: nat| #[trigger] c.binds_at(up, key) {
                    let up = choose|up: nat| #[trigger] c.binds_at(up, key);
                    assert(up > 0);
                    assert(p.binds_at((up - 1) as nat, key));
                }
            },
            None => {
                assert forall|up: nat| !#[trigger] c.binds_at(up, key) by {}
            },
        }
    }
}

/// A second value bound to a key in one context takes the place of the
/// first: the key then resolves to the second.
pub proof fn lemma_value_overwrite<'a, T, Q, R, D>(
    start: &Context<'a, T, Q, R, D>,
    once: &Context<'a, T, Q, R, D>,
    twice: &Context<'a, T, Q, R, D>,
    key: Seq<char>,
    first: D,
    second: D,
)
    requires
        once@.local == start@.local.insert(key, first),
        twice@.local == once@.local.insert(key, second),
    ensures
        twice.resolve(key) == Some(second),
        twice@.local == start@.local.insert(key, second),
{
    assert(start@.local.insert(key, first).insert(key, second) =~= start@.local.insert(
        key,
        second,
    ));
}

/// A value bound in a context leaves what other keys resolve to as it was.
pub proof fn lemma_value_other_keys<'a, T, Q, R, D>(
    before: &Context<'a, T, Q, R, D>,
    after: &Context<'a, T, Q, R, D>,
    key: Seq<char>,
    value: D,
    other: Seq<char>,
)
    requires
        after@.local == before@.local.insert(key, value),
        after.parent_of() == before.parent_of(),
        other != key,
    ensures
        after.resolve(other) == before.resolve(other),
{
}

/// A context holds a transaction exactly where it or one of its ancestors
/// does: so the transaction is handed out where one is bound anywhere on
/// the chain, and refused where none is.
pub proof fn lemma_transaction_in_chain<'a, T, Q, R, D>(c: &Context<'a, T, Q, R, D>)
    requires
        c.wf(),
    ensures
        c.transaction_in_chain() <==> c@.transaction is Some,
    decreases c.depth(),
{
    match c.parent_of() {
        Some(p) => {
            lemma_transaction_in_chain(p);
        },
        None => {},
    }
}

} // verus!
