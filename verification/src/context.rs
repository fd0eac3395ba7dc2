use crate::bindings::Bindings;
use crate::cancellation::Cancellation;
use crate::canceller::{is_raised, new_signal, Canceller};
use crate::clock::{
    before, duration_nanos, instant_after, instant_nanos, no_time, now, shifted, since,
};
use crate::error::Error;
use crate::reason::Reason;
use crate::shared::share;
use std::sync::atomic::AtomicBool;
use std::sync::Arc;
use std::time::Duration;
use trice::Instant;
use vstd::prelude::*;

verus! {

/// A value held by a context: its own, or lent by something that outlives
/// the context. Both read the same.
#[derive(Debug)]
pub enum Stored<'a, D> {
    Owned(D),
    Borrowed(&'a D),
}

impl<'a, D> Stored<'a, D> {
    /// The value that is read, whoever owns it.
    pub open spec fn held(self) -> D {
        match self {
            Stored::Owned(v) => v,
            Stored::Borrowed(v) => *v,
        }
    }

    /// Reads the value.
    pub fn get(&self) -> (r: &D)
        ensures
            *r == self.held(),
    {
        match self {
            Stored::Owned(v) => v,
            Stored::Borrowed(v) => *v,
        }
    }
}

impl<'a, D> From<D> for Stored<'a, D> {
    /// Takes the value over.
    fn from(v: D) -> (r: Self) {
        Stored::Owned(v)
    }
}

impl<'a, D> vstd::std_specs::convert::FromSpecImpl<D> for Stored<'a, D> {
    open spec fn obeys_from_spec() -> bool {
        true
    }

    open spec fn from_spec(v: D) -> Self {
        Stored::Owned(v)
    }
}

impl<'a, D> From<&'a D> for Stored<'a, D> {
    /// Borrows the value.
    fn from(v: &'a D) -> (r: Self) {
        Stored::Borrowed(v)
    }
}

impl<'a, D> vstd::std_specs::convert::FromSpecImpl<&'a D> for Stored<'a, D> {
    open spec fn obeys_from_spec() -> bool {
        true
    }

    open spec fn from_spec(v: &'a D) -> Self {
        Stored::Borrowed(v)
    }
}

/// What one context holds itself, its parent left aside.
pub struct Scope<T, Q, R, D> {
    /// The instant from which on the context counts as timed out.
    pub deadline: Option<Instant>,
    /// The context's own cancellation signal.
    pub signal: Arc<AtomicBool>,
    /// The values bound in this context itself.
    pub local: Map<Seq<char>, D>,
    /// The transaction that work in this context runs in.
    pub transaction: Option<Arc<T>>,
    /// The query executors, by table name.
    pub executors: Option<Map<Seq<char>, Q>>,
    /// The record that is being worked on.
    pub thing: Option<R>,
    /// The document that an iteration is at.
    pub doc: Option<D>,
}

impl<T, Q, R, D> Scope<T, Q, R, D> {
    /// A clock reading of `at` finds the deadline reached.
    pub open spec fn expired_at(self, at: int) -> bool {
        self.deadline matches Some(d) && instant_nanos(d) <= at
    }

    /// The deadline after `deadline` was added: the one held before where
    /// that is strictly sooner, else `deadline`.
    pub open spec fn tightest(self, deadline: Instant) -> Instant {
        match self.deadline {
            Some(current) => if instant_nanos(current) < instant_nanos(deadline) {
                current
            } else {
                deadline
            },
            None => deadline,
        }
    }

    /// The scope after `deadline` was added to it.
    pub open spec fn tightened(self, deadline: Instant) -> Self {
        Scope { deadline: Some(self.tightest(deadline)), ..self }
    }

    /// What adding a timeout does: `next` is this scope after the deadline
    /// `at` was added, and `at` is an instant that lies `timeout` after some
    /// reading of the clock.
    pub open spec fn tightened_by(self, timeout: Duration, at: Instant, next: Self) -> bool {
        &&& next == self.tightened(at)
        &&& exists|from: Instant|
            instant_nanos(at) == #[trigger] instant_nanos(from) + duration_nanos(timeout)
    }

    /// `left` is the time that remains until the deadline for a clock that
    /// reads `at`: nothing where no deadline is set, zero from the deadline on.
    pub open spec fn remaining(self, at: Instant, left: Option<Duration>) -> bool {
        match self.deadline {
            Some(d) => left matches Some(l) && duration_nanos(l) == if instant_nanos(d)
                >= instant_nanos(at) {
                instant_nanos(d) - instant_nanos(at)
            } else {
                0
            },
            None => left is None,
        }
    }

    /// What a scope has from the scope it was created under: each handle
    /// that the parent holds, or one put in its place, and a deadline that
    /// is no later than the parent's.
    pub open spec fn inherits(self, from: Self) -> bool {
        &&& from.deadline matches Some(theirs) ==> self.deadline matches Some(ours)
            && instant_nanos(ours) <= instant_nanos(theirs)
        &&& from.transaction is Some ==> self.transaction is Some
        &&& from.executors is Some ==> self.executors is Some
        &&& from.thing is Some ==> self.thing is Some
        &&& from.doc is Some ==> self.doc is Some
    }
}

/// What one check of a context yields: timed out where the deadline is
/// reached, else canceled where the signal is raised, else what the parent
/// reports.
pub open spec fn decide_spec(expired: bool, cancelled: bool, above: Option<Reason>) -> Option<
    Reason,
> {
    if expired {
        Some(Reason::Timedout)
    } else if cancelled {
        Some(Reason::Canceled)
    } else {
        above
    }
}

/// Decides the status of a context from what was observed of it and from
/// the status of its parent (`None` for a root).
pub fn decide(expired: bool, cancelled: bool, above: Option<Reason>) -> (r: Option<Reason>)
    ensures
        r == decide_spec(expired, cancelled, above),
{
    if expired {
        Some(Reason::Timedout)
    } else if cancelled {
        Some(Reason::Canceled)
    } else {
        above
    }
}

/// One scope of execution. It borrows the scope it is nested in, and reads
/// through it what it does not hold itself.
#[derive(Debug)]
pub struct Context<'a, T, Q, R, D> {
    parent: Option<&'a Context<'a, T, Q, R, D>>,
    deadline: Option<Instant>,
    cancelled: Arc<AtomicBool>,
    values: Bindings<Stored<'a, D>>,
    transaction: Option<Arc<T>>,
    query_executors: Option<Arc<Bindings<Q>>>,
    thing: Option<&'a R>,
    cursor_doc: Option<&'a D>,
}

impl<'a, T, Q, R, D> View for Context<'a, T, Q, R, D> {
    type V = Scope<T, Q, R, D>;

    closed spec fn view(&self) -> Scope<T, Q, R, D> {
        Scope {
            deadline: self.deadline,
            signal: self.cancelled,
            local: self.values@.map_values(|s: Stored<'a, D>| s.held()),
            transaction: self.transaction,
            executors: match self.query_executors {
                Some(e) => Some(e@),
                None => None,
            },
            thing: match self.thing {
                Some(r) => Some(*r),
                None => None,
            },
            doc: match self.cursor_doc {
                Some(d) => Some(*d),
                None => None,
            },
        }
    }
}

impl<'a, T, Q, R, D> Context<'a, T, Q, R, D> {
    /// The context that this one is nested in; none for a root.
    pub closed spec fn parent_of(&self) -> Option<&'a Context<'a, T, Q, R, D>> {
        self.parent
    }

    /// The context's own collections are in order.
    pub closed spec fn sound(&self) -> bool {
        &&& self.values.wf()
        &&& self.query_executors matches Some(e) ==> e.wf()
    }

    /// The context and its ancestors are in order, and each has what it
    /// inherits from its parent.
    pub open spec fn wf(&self) -> bool
        decreases self,
    {
        &&& self.sound()
        &&& match self.parent_of() {
            Some(p) => p.wf() && self@.inherits(p@),
            None => true,
        }
    }

    /// How many contexts the chain from this one to its root holds.
    pub open spec fn depth(&self) -> nat
        decreases self,
    {
        match self.parent_of() {
            Some(p) => 1 + p.depth(),
            None => 1,
        }
    }

    /// The context `up` steps above this one: itself for 0, its parent for 1.
    pub open spec fn ancestor(&self, up: nat) -> Option<Self>
        decreases up,
    {
        if up == 0 {
            Some(*self)
        } else {
            match self.parent_of() {
                Some(p) => p.ancestor((up - 1) as nat),
                None => None,
            }
        }
    }

    /// The status that follows from `seen`: for this context and then for
    /// each ancestor up to the root, what the clock read and whether the
    /// signal was found raised when that context was checked.
    pub open spec fn status_given(&self, seen: Seq<(int, bool)>) -> Option<Reason>
        decreases self,
    {
        if seen.len() == 0 {
            None
        } else {
            decide_spec(
                self@.expired_at(seen[0].0),
                seen[0].1,
                match self.parent_of() {
                    Some(p) => p.status_given(seen.drop_first()),
                    None => None,
                },
            )
        }
    }

    /// `r` is a status that a check of this context can yield: the one that
    /// follows from some observation of each context on its chain.
    pub open spec fn may_report(&self, r: Option<Reason>) -> bool {
        exists|seen: Seq<(int, bool)>|
            seen.len() == self.depth() && #[trigger] self.status_given(seen) == r
    }

    /// Work may go on, going by `seen`.
    pub open spec fn ok_given(&self, seen: Seq<(int, bool)>) -> bool {
        self.status_given(seen) is None
    }

    /// Work has to stop, going by `seen`.
    pub open spec fn done_given(&self, seen: Seq<(int, bool)>) -> bool {
        self.status_given(seen) is Some
    }

    /// Work has to stop because a deadline has passed, going by `seen`.
    pub open spec fn timedout_given(&self, seen: Seq<(int, bool)>) -> bool {
        self.status_given(seen) == Some(Reason::Timedout)
    }

    /// The context `up` steps above this one binds `key` itself.
    pub open spec fn binds_at(&self, up: nat, key: Seq<char>) -> bool {
        self.ancestor(up) matches Some(c) && c@.local.contains_key(key)
    }

    /// The value that `key` resolves to: the one bound here, else the one
    /// that the parent resolves it to.
    pub open spec fn resolve(&self, key: Seq<char>) -> Option<D>
        decreases self,
    {
        if self@.local.contains_key(key) {
            Some(self@.local[key])
        } else {
            match self.parent_of() {
                Some(p) => p.resolve(key),
                None => None,
            }
        }
    }

    /// This context or one of its ancestors holds a transaction.
    pub open spec fn transaction_in_chain(&self) -> bool
        decreases self,
    {
        self@.transaction is Some || match self.parent_of() {
            Some(p) => p.transaction_in_chain(),
            None => false,
        }
    }

    /// The signals of this context and of its ancestors, the nearest first.
    pub open spec fn signals(&self) -> Seq<Arc<AtomicBool>>
        decreases self,
    {
        match self.parent_of() {
            Some(p) => seq![self@.signal] + p.signals(),
            None => seq![self@.signal],
        }
    }

    /// What is observed of the chain where every clock reading is `at` and
    /// the signals that are raised are those in `raised`.
    pub open spec fn sight(&self, at: int, raised: Set<Arc<AtomicBool>>) -> Seq<(int, bool)>
        decreases self,
    {
        match self.parent_of() {
            Some(p) => seq![(at, raised.contains(self@.signal))] + p.sight(at, raised),
            None => seq![(at, raised.contains(self@.signal))],
        }
    }

    /// Creates an empty root context.
    pub fn background() -> (r: Self)
        ensures
            r.wf(),
            r.parent_of() is None,
            r@.deadline is None,
            r@.local == Map::<Seq<char>, D>::empty(),
            r@.transaction is None,
            r@.executors is None,
            r@.thing is None,
            r@.doc is None,
    {
        let r = Context {
            values: Bindings::new(),
            parent: None,
            deadline: None,
            cancelled: Arc::new(AtomicBool::new(false)),
            transaction: None,
            query_executors: None,
            thing: None,
            cursor_doc: None,
        };
        assert(r@.local =~= Map::<Seq<char>, D>::empty());
        r
    }

    /// Creates a child of `parent`. It has the parent's deadline and handles
    /// as they are now, a new signal that is not the parent's, and no values
    /// of its own.
    pub fn new(parent: &'a Context<'a, T, Q, R, D>) -> (r: Self)
        ensures
            parent.wf() ==> r.wf(),
            r.parent_of() == Some(parent),
            r@.deadline == parent@.deadline,
            r@.local == Map::<Seq<char>, D>::empty(),
            r@.transaction == parent@.transaction,
            r@.executors == parent@.executors,
            r@.thing == parent@.thing,
            r@.doc == parent@.doc,
            r@.signal != parent@.signal,
    {
        let transaction = match &parent.transaction {
            Some(t) => Some(share(t)),
            None => None,
        };
        let query_executors = match &parent.query_executors {
            Some(e) => Some(share(e)),
            None => None,
        };
        let r = Context {
            values: Bindings::new(),
            parent: Some(parent),
            deadline: parent.deadline,
            cancelled: new_signal(AtomicBool::new(false), &parent.cancelled),
            transaction,
            query_executors,
            thing: parent.thing,
            cursor_doc: parent.cursor_doc,
        };
        assert(r@.local =~= Map::<Seq<char>, D>::empty());
        r
    }

    /// Hands out a canceller on this context's signal. Once it is used, the
    /// context and the contexts below it are found canceled.
    pub fn add_cancel(&mut self) -> (r: Canceller)
        ensures
            *final(self) == *old(self),
            r.signal() == old(self)@.signal,
    {
        let cancelled = share(&self.cancelled);
        Canceller::new(cancelled)
    }

    /// Adds a deadline. Where the context has a sooner one, nothing changes.
    pub fn add_deadline(&mut self, deadline: Instant)
        requires
            old(self).wf(),
        ensures
            final(self).wf(),
            final(self).parent_of() == old(self).parent_of(),
            final(self)@ == old(self)@.tightened(deadline),
    {
        match self.deadline {
            Some(current) => {
                if !before(current, deadline) {
                    self.deadline = Some(deadline);
                }
            },
            None => {
                self.deadline = Some(deadline);
            },
        }
    }

    /// Adds the deadline that lies `timeout` after `from`, and returns it.
    /// Where the platform cannot tell that instant: no change, `None`. A
    /// `timeout` without length always gets its deadline.
    pub fn add_timeout_from(&mut self, from: Instant, timeout: Duration) -> (r: Option<Instant>)
        requires
            old(self).wf(),
        ensures
            final(self).wf(),
            final(self).parent_of() == old(self).parent_of(),
            r == instant_after(from, timeout),
            match r {
                Some(at) => final(self)@ == old(self)@.tightened(at) && instant_nanos(at)
                    == instant_nanos(from) + duration_nanos(timeout),
                None => final(self)@ == old(self)@ && duration_nanos(timeout) != 0,
            },
    {
        let r = shifted(from, timeout);
        match r {
            Some(at) => {
                self.add_deadline(at);
            },
            None => {},
        }
        r
    }

    /// Adds the deadline that lies `timeout` after the clock's reading, and
    /// returns it. Where the platform cannot tell that instant: no change,
    /// `None`. A `timeout` without length always gets its deadline.
    pub fn add_timeout(&mut self, timeout: Duration) -> (r: Option<Instant>)
        requires
            old(self).wf(),
        ensures
            final(self).wf(),
            final(self).parent_of() == old(self).parent_of(),
            exists|from: Instant| r == #[trigger] instant_after(from, timeout),
            match r {
                Some(at) => old(self)@.tightened_by(timeout, at, final(self)@),
                None => final(self)@ == old(self)@ && duration_nanos(timeout) != 0,
            },
    {
        let from = now();
        self.add_timeout_from(from, timeout)
    }

    /// Puts the context into a transaction, where one is given.
    pub fn add_transaction(&mut self, txn: Option<&Arc<T>>)
        requires
            old(self).wf(),
        ensures
            final(self).wf(),
            final(self).parent_of() == old(self).parent_of(),
            final(self)@ == (Scope {
                transaction: match txn {
                    Some(t) => Some(*t),
                    None => old(self)@.transaction,
                },
                ..old(self)@
            }),
    {
        match txn {
            Some(t) => {
                self.transaction = Some(share(t));
            },
            None => {},
        }
    }

    /// Sets the record that is being worked on.
    pub fn add_thing(&mut self, thing: &'a R)
        requires
            old(self).wf(),
        ensures
            final(self).wf(),
            final(self).parent_of() == old(self).parent_of(),
            final(self)@ == (Scope { thing: Some(*thing), ..old(self)@ }),
    {
        self.thing = Some(thing);
    }

    /// Sets the document that an iteration is at. An iterator creates a
    /// child context for each document and sets it there.
    pub fn add_cursor_doc(&mut self, doc: &'a D)
        requires
            old(self).wf(),
        ensures
            final(self).wf(),
            final(self).parent_of() == old(self).parent_of(),
            final(self)@ == (Scope { doc: Some(*doc), ..old(self)@ }),
    {
        self.cursor_doc = Some(doc);
    }

    /// Sets the query executors.
    pub fn set_query_executors(&mut self, executors: Bindings<Q>)
        requires
            old(self).wf(),
            executors.wf(),
        ensures
            final(self).wf(),
            final(self).parent_of() == old(self).parent_of(),
            final(self)@ == (Scope { executors: Some(executors@), ..old(self)@ }),
    {
        self.query_executors = Some(Arc::new(executors));
    }

    /// Binds `key` to `value` in this context. A value bound to `key` here
    /// before is given up; the ancestors keep theirs.
    pub fn add_value(&mut self, key: String, value: Stored<'a, D>)
        requires
            old(self).wf(),
        ensures
            final(self).wf(),
            final(self).parent_of() == old(self).parent_of(),
            final(self)@ == (Scope {
                local: old(self)@.local.insert(key@, value.held()),
                ..old(self)@
            }),
    {
        self.values.insert(key, value);
        assert(final(self)@.local =~= old(self)@.local.insert(key@, value.held()));
    }

    /// The time that remains until the deadline for a clock that reads `at`.
    pub fn timeout_at(&self, at: Instant) -> (r: Option<Duration>)
        ensures
            self@.remaining(at, r),
    {
        match self.deadline {
            Some(d) => if before(d, at) {
                Some(no_time())
            } else {
                Some(since(d, at))
            },
            None => None,
        }
    }

    /// The time that remains until the deadline, if one is set: a long job
    /// need not be started where little is left.
    pub fn timeout(&self) -> (r: Option<Duration>)
        ensures
            exists|at: Instant| #[trigger] self@.remaining(at, r),
    {
        let at = now();
        self.timeout_at(at)
    }

    /// The transaction that the context is in.
    pub fn clone_transaction(&self) -> (r: Result<Arc<T>, Error>)
        ensures
            match r {
                Ok(t) => self@.transaction == Some(t),
                Err(e) => e == Error::NoTx && self@.transaction is None,
            },
    {
        match &self.transaction {
            None => Err(Error::NoTx),
            Some(txn) => Ok(share(txn)),
        }
    }

    /// The record that is being worked on.
    pub fn thing(&self) -> (r: Option<&R>)
        ensures
            match r {
                Some(t) => self@.thing == Some(*t),
                None => self@.thing is None,
            },
    {
        self.thing
    }

    /// The document that an iteration is at.
    pub fn doc(&self) -> (r: Option<&D>)
        ensures
            match r {
                Some(d) => self@.doc == Some(*d),
                None => self@.doc is None,
            },
    {
        self.cursor_doc
    }

    /// The query executor for the table `tb`.
    pub fn get_query_executor(&self, tb: &str) -> (r: Option<&Q>)
        requires
            self.wf(),
        ensures
            match r {
                Some(q) => self@.executors matches Some(m) && m.contains_key(tb@) && m[tb@] == *q,
                None => !(self@.executors matches Some(m) && m.contains_key(tb@)),
            },
    {
        match &self.query_executors {
            Some(qe) => qe.get(tb),
            None => None,
        }
    }

    /// Whether a clock that reads `at` finds the deadline reached.
    pub fn expired_at(&self, at: Instant) -> (r: bool)
        ensures
            r == self@.expired_at(instant_nanos(at)),
    {
        match self.deadline {
            Some(deadline) => !before(at, deadline),
            None => false,
        }
    }

    /// What `status_with` goes by: the one clock reading `at` for every
    /// context on the chain, and for each context, the nearest first,
    /// whether its signal was found raised.
    pub open spec fn readings(&self, at: Instant, raised: Seq<bool>) -> Seq<(int, bool)> {
        Seq::new(self.depth(), |i: int| (instant_nanos(at), raised[i]))
    }

    /// The status of the context for given observations: a clock that reads
    /// `at`, and `raised`, which says for this context and then for each
    /// ancestor up to the root whether its signal is raised. The walk is
    /// that of `done`: the deadline, then the context's own signal, then
    /// the parent.
    pub fn status_with(&self, at: Instant, raised: &Vec<bool>) -> (r: Option<Reason>)
        requires
            raised@.len() == self.depth(),
        ensures
            r == self.status_given(self.readings(at, raised@)),
    {
        let r = self.status_from(at, raised, 0);
        assert(self.readings(at, raised@.skip(0)) =~= self.readings(at, raised@));
        r
    }

    /// The status of the context where `raised` holds what was observed of
    /// it and of its ancestors from the place `from` on.
    fn status_from(&self, at: Instant, raised: &Vec<bool>, from: usize) -> (r: Option<Reason>)
        requires
            from + self.depth() == raised@.len(),
        ensures
            r == self.status_given(self.readings(at, raised@.skip(from as int))),
        decreases self,
    {
        let expired = self.expired_at(at);
        let cancelled = raised[from];
        let above = if expired || cancelled {
            None
        } else {
            match self.parent {
                Some(p) => {
                    assert(from + 1 + p.depth() == raised@.len() == raised.len());
                    p.status_from(at, raised, from + 1)
                },
                None => None,
            }
        };
        proof {
            let seen = self.readings(at, raised@.skip(from as int));
            assert(seen[0] == (instant_nanos(at), cancelled));
            match self.parent {
                Some(p) => {
                    assert(seen.drop_first() =~= p.readings(at, raised@.skip(from + 1)));
                },
                None => {},
            }
        }
        decide(expired, cancelled, above)
    }

    /// Checks the context: `None` where work may go on, else the reason to
    /// stop. The deadline is checked first, then the context's own signal,
    /// then the parent.
    pub fn done(&self) -> (r: Option<Reason>)
        ensures
            self.may_report(r),
        decreases self,
    {
        let at = now();
        let expired = self.expired_at(at);
        let raised = if expired {
            false
        } else {
            is_raised(&self.cancelled)
        };
        let ghost mut rest: Seq<(int, bool)> = Seq::new(
            (self.depth() - 1) as nat,
            |i: int| (0int, false),
        );
        let above = if expired || raised {
            None
        } else {
            match self.parent {
                Some(p) => {
                    let above = p.done();
                    proof {
                        rest = choose|seen: Seq<(int, bool)>|
                            seen.len() == p.depth() && #[trigger] p.status_given(seen) == above;
                    }
                    above
                },
                None => None,
            }
        };
        proof {
            let seen = seq![(instant_nanos(at), raised)] + rest;
            assert(seen.drop_first() =~= rest);
            assert(seen.len() == self.depth());
            assert(self.status_given(seen) == decide_spec(expired, raised, above));
        }
        decide(expired, raised, above)
    }

    /// Whether work may go on.
    pub fn is_ok(&self) -> (r: bool)
        ensures
            exists|seen: Seq<(int, bool)>|
                seen.len() == self.depth() && r == #[trigger] self.ok_given(seen),
    {
        let status = self.done();
        let r = status.is_none();
        proof {
            let seen = choose|seen: Seq<(int, bool)>|
                seen.len() == self.depth() && #[trigger] self.status_given(seen) == status;
            assert(seen.len() == self.depth() && r == self.ok_given(seen));
        }
        r
    }

    /// Whether work has to stop.
    pub fn is_done(&self) -> (r: bool)
        ensures
            exists|seen: Seq<(int, bool)>|
                seen.len() == self.depth() && r == #[trigger] self.done_given(seen),
    {
        let status = self.done();
        let r = status.is_some();
        proof {
            let seen = choose|seen: Seq<(int, bool)>|
                seen.len() == self.depth() && #[trigger] self.status_given(seen) == status;
            assert(seen.len() == self.depth() && r == self.done_given(seen));
        }
        r
    }

    /// Whether work has to stop because a deadline has passed.
    pub fn is_timedout(&self) -> (r: bool)
        ensures
            exists|seen: Seq<(int, bool)>|
                seen.len() == self.depth() && r == #[trigger] self.timedout_given(seen),
    {
        let status = self.done();
        let r = match status {
            Some(Reason::Timedout) => true,
            _ => false,
        };
        proof {
            let seen = choose|seen: Seq<(int, bool)>|
                seen.len() == self.depth() && #[trigger] self.status_given(seen) == status;
            assert(seen.len() == self.depth() && r == self.timedout_given(seen));
        }
        r
    }

    /// A view of the cancellation status that can outlive the context: it
    /// watches the context's deadline and the signals along its chain.
    pub fn cancellation(&self) -> (r: Cancellation)
        ensures
            r.deadline_of() == self@.deadline,
            r.signals() == self.signals(),
    {
        let mut found: Vec<Arc<AtomicBool>> = Vec::new();
        let mut at: &Context<'a, T, Q, R, D> = self;
        assert(found@ + at.signals() =~= self.signals());
        loop
            invariant_except_break
                found@ + at.signals() == self.signals(),
            ensures
                found@ == self.signals(),
            decreases at.depth(),
        {
            let ghost so_far = found@;
            found.push(share(&at.cancelled));
            match at.parent {
                Some(p) => {
                    assert(found@ + p.signals() =~= so_far + at.signals());
                    at = p;
                },
                None => {
                    assert(found@ =~= so_far + at.signals());
                    break ;
                },
            }
        }
        Cancellation::new(self.deadline, found)
    }

    /// The value that `key` is bound to in this context or, where it is not
    /// bound here, in the nearest ancestor that binds it.
    pub fn value(&self, key: &str) -> (r: Option<&D>)
        requires
            self.wf(),
        ensures
            match r {
                Some(v) => self.resolve(key@) == Some(*v),
                None => self.resolve(key@) is None,
            },
        decreases self,
    {
        match self.values.get(key) {
            Some(v) => Some(v.get()),
            None => match self.parent {
                Some(p) => p.value(key),
                None => None,
            },
        }
    }
}

impl<'a, T, Q, R, D> Default for Context<'a, T, Q, R, D> {
    fn default() -> (r: Self)
        ensures
            r.wf(),
            r.parent_of() is None,
            r@.deadline is None,
            r@.local == Map::<Seq<char>, D>::empty(),
            r@.transaction is None,
            r@.executors is None,
            r@.thing is None,
            r@.doc is None,
    {
        Context::background()
    }
}

} // verus!
