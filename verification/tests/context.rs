use ctx::bindings::Bindings;
use ctx::cancellation::Cancellation;
use ctx::canceller::Canceller;
use ctx::context::{decide, Context, Stored};
use ctx::error::Error;
use ctx::reason::Reason;
use std::sync::atomic::AtomicBool;
use std::sync::Arc;
use std::time::Duration;
use trice::Instant;

type Ctx<'a> = Context<'a, String, u32, u64, i64>;

#[test]
fn background_is_empty_and_ok() {
    let root: Ctx = Context::background();
    assert_eq!(root.done(), None);
    assert!(root.is_ok());
    assert!(!root.is_done());
    assert!(!root.is_timedout());
    assert_eq!(root.timeout(), None);
    assert_eq!(root.thing(), None);
    assert_eq!(root.doc(), None);
    assert_eq!(root.value("x"), None);
    assert_eq!(root.get_query_executor("person"), None);
    assert!(matches!(root.clone_transaction(), Err(Error::NoTx)));
}

#[test]
fn default_is_background() {
    let root: Ctx = Context::default();
    assert!(root.is_ok());
    assert_eq!(root.timeout(), None);
    assert_eq!(root.value("x"), None);
}

#[test]
fn later_deadline_does_not_loosen() {
    let base = Instant::now();
    let mut root: Ctx = Context::background();
    root.add_deadline(base + Duration::from_secs(5));
    root.add_deadline(base + Duration::from_secs(10));
    assert_eq!(root.timeout_at(base), Some(Duration::from_secs(5)));
    assert!(root.expired_at(base + Duration::from_secs(5)));
    assert!(!root.expired_at(base + Duration::from_secs(4)));
}

#[test]
fn sooner_deadline_tightens() {
    let base = Instant::now();
    let mut root: Ctx = Context::background();
    root.add_deadline(base + Duration::from_secs(10));
    root.add_deadline(base + Duration::from_secs(3));
    assert_eq!(root.timeout_at(base), Some(Duration::from_secs(3)));
    root.add_deadline(base + Duration::from_secs(3));
    assert_eq!(root.timeout_at(base), Some(Duration::from_secs(3)));
}

#[test]
fn timeout_at_is_exact_and_saturates() {
    let base = Instant::now();
    let mut root: Ctx = Context::background();
    root.add_deadline(base + Duration::from_millis(1500));
    assert_eq!(
        root.timeout_at(base + Duration::from_millis(500)),
        Some(Duration::from_millis(1000))
    );
    assert_eq!(
        root.timeout_at(base + Duration::from_millis(1500)),
        Some(Duration::ZERO)
    );
    assert_eq!(
        root.timeout_at(base + Duration::from_secs(60)),
        Some(Duration::ZERO)
    );
}

#[test]
fn expired_at_counts_the_deadline_itself() {
    let base = Instant::now();
    let mut root: Ctx = Context::background();
    assert!(!root.expired_at(base));
    root.add_deadline(base);
    assert!(root.expired_at(base));
    assert!(root.expired_at(base + Duration::from_nanos(1)));
    let mut other: Ctx = Context::background();
    other.add_deadline(base + Duration::from_nanos(1));
    assert!(!other.expired_at(base));
}

#[test]
fn zero_timeout_times_out_at_once() {
    let mut root: Ctx = Context::background();
    let before = Instant::now();
    let added = root.add_timeout(Duration::ZERO).unwrap();
    assert!(before <= added);
    assert!(added <= Instant::now());
    assert!(root.expired_at(added));
    assert_eq!(root.timeout_at(added), Some(Duration::ZERO));
    assert!(root.is_timedout());
    assert_eq!(root.done(), Some(Reason::Timedout));
    assert!(root.is_done());
    assert!(!root.is_ok());
    assert_eq!(root.timeout(), Some(Duration::ZERO));
}

#[test]
fn long_timeout_leaves_time() {
    let mut root: Ctx = Context::background();
    let before = Instant::now();
    let added = root.add_timeout(Duration::from_secs(3600)).unwrap();
    assert!(before + Duration::from_secs(3600) <= added);
    assert!(added <= Instant::now() + Duration::from_secs(3600));
    assert_eq!(root.timeout_at(added), Some(Duration::ZERO));
    assert_eq!(
        root.timeout_at(before + Duration::from_secs(3600)),
        Some(added - (before + Duration::from_secs(3600)))
    );
    assert!(root.is_ok());
    assert!(!root.is_timedout());
    let left = root.timeout().unwrap();
    assert!(left <= Duration::from_secs(3600));
    assert!(left > Duration::from_secs(3000));
}

#[test]
fn timeout_from_a_given_instant() {
    let base = Instant::now();
    let mut root: Ctx = Context::background();
    let added = root.add_timeout_from(base, Duration::from_secs(5));
    assert_eq!(added, Some(base + Duration::from_secs(5)));
    assert_eq!(root.timeout_at(base), Some(Duration::from_secs(5)));
    let later = root.add_timeout_from(base, Duration::from_secs(9));
    assert_eq!(later, Some(base + Duration::from_secs(9)));
    assert_eq!(root.timeout_at(base), Some(Duration::from_secs(5)));
    let sooner = root.add_timeout_from(base, Duration::from_millis(1));
    assert_eq!(sooner, Some(base + Duration::from_millis(1)));
    assert_eq!(root.timeout_at(base), Some(Duration::from_millis(1)));
}

#[test]
fn timeout_without_length_from_a_given_instant() {
    let base = Instant::now();
    let mut root: Ctx = Context::background();
    assert_eq!(root.add_timeout_from(base, Duration::ZERO), Some(base));
    assert!(root.expired_at(base));
    assert_eq!(root.timeout_at(base), Some(Duration::ZERO));
    assert_eq!(
        root.status_with(base, &vec![false]),
        Some(Reason::Timedout)
    );
}

#[test]
fn timeout_from_beyond_the_clock_changes_nothing() {
    let base = Instant::now();
    let mut root: Ctx = Context::background();
    assert_eq!(root.add_timeout_from(base, Duration::MAX), None);
    assert_eq!(root.timeout_at(base), None);
    root.add_deadline(base + Duration::from_secs(2));
    assert_eq!(root.add_timeout_from(base, Duration::MAX), None);
    assert_eq!(root.timeout_at(base), Some(Duration::from_secs(2)));
}

#[test]
fn timeout_beyond_the_clock_changes_nothing() {
    let mut root: Ctx = Context::background();
    assert_eq!(root.add_timeout(Duration::MAX), None);
    assert_eq!(root.timeout(), None);
    assert!(root.is_ok());
}

#[test]
fn timeout_does_not_loosen_a_deadline() {
    let base = Instant::now();
    let mut root: Ctx = Context::background();
    root.add_deadline(base + Duration::from_secs(1));
    let added = root.add_timeout(Duration::from_secs(3600)).unwrap();
    assert!(base + Duration::from_secs(3600) <= added);
    assert_eq!(root.timeout_at(base), Some(Duration::from_secs(1)));
    assert!(!root.expired_at(base));
    assert!(root.expired_at(base + Duration::from_secs(1)));
}

#[test]
fn cancel_root_reaches_child() {
    let mut root: Ctx = Context::background();
    let canceller = root.add_cancel();
    let child: Ctx = Context::new(&root);
    assert!(child.is_ok());
    canceller.cancel();
    assert!(child.is_done());
    assert_eq!(child.done(), Some(Reason::Canceled));
    assert!(!child.is_timedout());
    assert_eq!(root.done(), Some(Reason::Canceled));
}

#[test]
fn cancel_reaches_descendants_made_before_and_after() {
    let mut root: Ctx = Context::background();
    let canceller = root.add_cancel();
    let early: Ctx = Context::new(&root);
    let deep: Ctx = Context::new(&early);
    canceller.cancel();
    let late: Ctx = Context::new(&root);
    assert!(root.is_done());
    assert!(early.is_done());
    assert!(deep.is_done());
    assert!(late.is_done());
    assert_eq!(deep.done(), Some(Reason::Canceled));
    assert_eq!(late.done(), Some(Reason::Canceled));
}

#[test]
fn cancel_spares_parent_and_siblings() {
    let root: Ctx = Context::background();
    let mut child: Ctx = Context::new(&root);
    let sibling: Ctx = Context::new(&root);
    let canceller = child.add_cancel();
    let below: Ctx = Context::new(&child);
    canceller.cancel();
    assert!(child.is_done());
    assert!(below.is_done());
    assert!(root.is_ok());
    assert!(sibling.is_ok());
    assert_eq!(root.done(), None);
    assert_eq!(sibling.done(), None);
}

#[test]
fn cancel_twice_is_cancel_once() {
    let mut root: Ctx = Context::background();
    let canceller = root.add_cancel();
    canceller.cancel();
    canceller.cancel();
    assert_eq!(root.done(), Some(Reason::Canceled));
}

#[test]
fn second_canceller_shares_the_signal() {
    let mut root: Ctx = Context::background();
    let first = root.add_cancel();
    let second = root.add_cancel();
    assert!(root.is_ok());
    second.cancel();
    assert!(root.is_done());
    first.cancel();
    assert!(root.is_done());
}

#[test]
fn cloned_canceller_cancels_too() {
    let mut root: Ctx = Context::background();
    let canceller = root.add_cancel();
    let copy = canceller.clone();
    copy.cancel();
    assert_eq!(root.done(), Some(Reason::Canceled));
}

#[test]
fn canceller_outlives_its_context() {
    let canceller = {
        let mut root: Ctx = Context::background();
        root.add_cancel()
    };
    canceller.cancel();
    canceller.cancel();
}

#[test]
fn canceller_on_a_given_signal() {
    let signal = Arc::new(AtomicBool::new(false));
    let canceller = Canceller::new(signal.clone());
    let watch = Cancellation::new(None, vec![signal]);
    assert!(!watch.is_done());
    canceller.cancel();
    assert!(watch.is_done());
}

#[test]
fn deadline_is_checked_before_the_signal() {
    let mut root: Ctx = Context::background();
    let canceller = root.add_cancel();
    root.add_timeout(Duration::ZERO);
    canceller.cancel();
    assert_eq!(root.done(), Some(Reason::Timedout));
    assert!(root.is_timedout());
}

#[test]
fn own_signal_is_checked_before_the_parent() {
    let mut root: Ctx = Context::background();
    root.add_timeout(Duration::ZERO);
    let mut fresh: Ctx = Context::background();
    let canceller = fresh.add_cancel();
    canceller.cancel();
    assert_eq!(fresh.done(), Some(Reason::Canceled));
    let child: Ctx = Context::new(&root);
    assert_eq!(child.done(), Some(Reason::Timedout));
}

#[test]
fn status_projections_agree() {
    let mut root: Ctx = Context::background();
    assert_eq!(root.is_ok(), root.done().is_none());
    assert_eq!(root.is_done(), !root.is_ok());
    let canceller = root.add_cancel();
    canceller.cancel();
    assert_eq!(root.is_ok(), root.done().is_none());
    assert_eq!(root.is_done(), !root.is_ok());
    assert_eq!(root.is_timedout(), root.done() == Some(Reason::Timedout));
    let mut timed: Ctx = Context::background();
    timed.add_timeout(Duration::ZERO);
    assert_eq!(timed.is_ok(), timed.done().is_none());
    assert_eq!(timed.is_done(), !timed.is_ok());
    assert_eq!(timed.is_timedout(), timed.done() == Some(Reason::Timedout));
}

#[test]
fn status_with_walks_up_the_chain() {
    let base = Instant::now();
    let root: Ctx = Context::background();
    let mid: Ctx = Context::new(&root);
    let leaf: Ctx = Context::new(&mid);
    assert_eq!(leaf.status_with(base, &vec![false, false, false]), None);
    assert_eq!(
        leaf.status_with(base, &vec![true, false, false]),
        Some(Reason::Canceled)
    );
    assert_eq!(
        leaf.status_with(base, &vec![false, true, false]),
        Some(Reason::Canceled)
    );
    assert_eq!(
        leaf.status_with(base, &vec![false, false, true]),
        Some(Reason::Canceled)
    );
    assert_eq!(mid.status_with(base, &vec![false, true]), Some(Reason::Canceled));
    assert_eq!(mid.status_with(base, &vec![false, false]), None);
    assert_eq!(root.status_with(base, &vec![false]), None);
    assert_eq!(root.status_with(base, &vec![true]), Some(Reason::Canceled));
}

#[test]
fn status_with_takes_deadline_then_signal_then_parent() {
    let base = Instant::now();
    let soon = base + Duration::from_secs(1);
    let late = base + Duration::from_secs(5);
    let mut root: Ctx = Context::background();
    root.add_deadline(late);
    let mut child: Ctx = Context::new(&root);
    child.add_deadline(soon);
    assert_eq!(child.status_with(base, &vec![false, false]), None);
    assert_eq!(
        child.status_with(soon, &vec![false, false]),
        Some(Reason::Timedout)
    );
    assert_eq!(
        child.status_with(soon, &vec![true, true]),
        Some(Reason::Timedout)
    );
    assert_eq!(root.status_with(soon, &vec![false]), None);
    assert_eq!(root.status_with(soon, &vec![true]), Some(Reason::Canceled));
    assert_eq!(root.status_with(late, &vec![true]), Some(Reason::Timedout));
    assert_eq!(
        child.status_with(base, &vec![false, true]),
        Some(Reason::Canceled)
    );
    let plain: Ctx = Context::background();
    let mut tight: Ctx = Context::new(&plain);
    tight.add_deadline(soon);
    let below: Ctx = Context::new(&tight);
    assert_eq!(
        below.status_with(late, &vec![false, false, false]),
        Some(Reason::Timedout)
    );
    assert_eq!(plain.status_with(late, &vec![false]), None);
}

#[test]
fn decide_follows_the_order() {
    assert_eq!(decide(false, false, None), None);
    assert_eq!(decide(false, false, Some(Reason::Canceled)), Some(Reason::Canceled));
    assert_eq!(decide(false, false, Some(Reason::Timedout)), Some(Reason::Timedout));
    assert_eq!(decide(false, true, None), Some(Reason::Canceled));
    assert_eq!(decide(false, true, Some(Reason::Timedout)), Some(Reason::Canceled));
    assert_eq!(decide(true, false, None), Some(Reason::Timedout));
    assert_eq!(decide(true, true, None), Some(Reason::Timedout));
    assert_eq!(decide(true, true, Some(Reason::Canceled)), Some(Reason::Timedout));
}

#[test]
fn child_value_shadows_parent_value() {
    let mut root: Ctx = Context::background();
    root.add_value("x".to_string(), Stored::Owned(1));
    let mut child: Ctx = Context::new(&root);
    child.add_value("x".to_string(), Stored::Owned(2));
    assert_eq!(root.value("x"), Some(&1));
    assert_eq!(child.value("x"), Some(&2));
}

#[test]
fn value_resolves_through_ancestors() {
    let mut root: Ctx = Context::background();
    root.add_value("a".to_string(), Stored::Owned(10));
    root.add_value("b".to_string(), Stored::Owned(20));
    let mut mid: Ctx = Context::new(&root);
    mid.add_value("b".to_string(), Stored::Owned(21));
    let leaf: Ctx = Context::new(&mid);
    assert_eq!(leaf.value("a"), Some(&10));
    assert_eq!(leaf.value("b"), Some(&21));
    assert_eq!(leaf.value("c"), None);
    assert_eq!(mid.value("a"), Some(&10));
    assert_eq!(root.value("b"), Some(&20));
    assert_eq!(leaf.value(""), None);
    assert_eq!(leaf.value("ab"), None);
}

#[test]
fn second_value_overwrites_first() {
    let mut root: Ctx = Context::background();
    root.add_value("x".to_string(), Stored::Owned(1));
    root.add_value("y".to_string(), Stored::Owned(5));
    root.add_value("x".to_string(), Stored::Owned(2));
    assert_eq!(root.value("x"), Some(&2));
    assert_eq!(root.value("y"), Some(&5));
}

#[test]
fn borrowed_and_owned_values_read_alike() {
    let outside: i64 = 7;
    let mut root: Ctx = Context::background();
    root.add_value("lent".to_string(), Stored::Borrowed(&outside));
    root.add_value("own".to_string(), Stored::Owned(7));
    assert_eq!(root.value("lent"), Some(&7));
    assert_eq!(root.value("own"), root.value("lent"));
    assert_eq!(Stored::Owned(3i64).get(), &3);
    assert_eq!(Stored::Borrowed(&outside).get(), &7);
}

#[test]
fn stored_from_value_or_reference() {
    let outside: i64 = 11;
    let mut root: Ctx = Context::background();
    root.add_value("own".to_string(), Stored::from(4));
    root.add_value("lent".to_string(), Stored::from(&outside));
    assert!(matches!(Stored::from(4i64), Stored::Owned(4)));
    assert!(matches!(Stored::from(&outside), Stored::Borrowed(&11)));
    assert_eq!(root.value("own"), Some(&4));
    assert_eq!(root.value("lent"), Some(&11));
}

#[test]
fn child_inherits_from_parent() {
    let base = Instant::now();
    let record: u64 = 42;
    let row: i64 = -3;
    let txn = Arc::new("txn".to_string());
    let mut executors: Bindings<u32> = Bindings::new();
    executors.insert("person".to_string(), 9);
    let mut root: Ctx = Context::background();
    root.add_deadline(base + Duration::from_secs(2));
    root.add_transaction(Some(&txn));
    root.set_query_executors(executors);
    root.add_thing(&record);
    root.add_cursor_doc(&row);
    root.add_value("x".to_string(), Stored::Owned(1));
    let child: Ctx = Context::new(&root);
    assert_eq!(child.timeout_at(base), Some(Duration::from_secs(2)));
    assert!(Arc::ptr_eq(&child.clone_transaction().unwrap(), &txn));
    assert_eq!(child.get_query_executor("person"), Some(&9));
    assert_eq!(child.get_query_executor("animal"), None);
    assert_eq!(child.thing(), Some(&42));
    assert_eq!(child.doc(), Some(&-3));
    assert_eq!(child.value("x"), Some(&1));
}

#[test]
fn child_overrides_leave_parent_alone() {
    let base = Instant::now();
    let record: u64 = 42;
    let other_record: u64 = 43;
    let row: i64 = -3;
    let other_row: i64 = -4;
    let txn = Arc::new("one".to_string());
    let other_txn = Arc::new("two".to_string());
    let mut root: Ctx = Context::background();
    root.add_deadline(base + Duration::from_secs(2));
    root.add_transaction(Some(&txn));
    root.add_thing(&record);
    root.add_cursor_doc(&row);
    let mut child: Ctx = Context::new(&root);
    child.add_deadline(base + Duration::from_secs(1));
    child.add_transaction(Some(&other_txn));
    child.add_thing(&other_record);
    child.add_cursor_doc(&other_row);
    let sibling: Ctx = Context::new(&root);
    assert_eq!(child.timeout_at(base), Some(Duration::from_secs(1)));
    assert!(Arc::ptr_eq(&child.clone_transaction().unwrap(), &other_txn));
    assert_eq!(child.thing(), Some(&43));
    assert_eq!(child.doc(), Some(&-4));
    assert_eq!(root.timeout_at(base), Some(Duration::from_secs(2)));
    assert!(Arc::ptr_eq(&root.clone_transaction().unwrap(), &txn));
    assert_eq!(root.thing(), Some(&42));
    assert_eq!(root.doc(), Some(&-3));
    assert_eq!(sibling.timeout_at(base), Some(Duration::from_secs(2)));
    assert_eq!(sibling.thing(), Some(&42));
}

#[test]
fn child_cannot_loosen_inherited_deadline() {
    let base = Instant::now();
    let mut root: Ctx = Context::background();
    root.add_deadline(base + Duration::from_secs(2));
    let mut child: Ctx = Context::new(&root);
    child.add_deadline(base + Duration::from_secs(9));
    assert_eq!(child.timeout_at(base), Some(Duration::from_secs(2)));
}

#[test]
fn transaction_missing_then_bound() {
    let mut root: Ctx = Context::background();
    assert!(matches!(root.clone_transaction(), Err(Error::NoTx)));
    let txn = Arc::new("txn".to_string());
    root.add_transaction(Some(&txn));
    let got = root.clone_transaction().unwrap();
    assert!(Arc::ptr_eq(&got, &txn));
    assert_eq!(*got, "txn");
}

#[test]
fn transaction_found_from_any_depth() {
    let txn = Arc::new("txn".to_string());
    let mut root: Ctx = Context::background();
    root.add_transaction(Some(&txn));
    let mid: Ctx = Context::new(&root);
    let leaf: Ctx = Context::new(&mid);
    assert!(Arc::ptr_eq(&leaf.clone_transaction().unwrap(), &txn));
    let bare: Ctx = Context::background();
    let bare_child: Ctx = Context::new(&bare);
    assert!(matches!(bare_child.clone_transaction(), Err(Error::NoTx)));
}

#[test]
fn no_transaction_given_keeps_the_held_one() {
    let txn = Arc::new("txn".to_string());
    let mut root: Ctx = Context::background();
    root.add_transaction(None);
    assert!(matches!(root.clone_transaction(), Err(Error::NoTx)));
    root.add_transaction(Some(&txn));
    root.add_transaction(None);
    assert!(Arc::ptr_eq(&root.clone_transaction().unwrap(), &txn));
}

#[test]
fn error_has_a_message() {
    assert_eq!(Error::NoTx.message(), "no active transaction");
    assert_eq!(Error::NoTx, Error::NoTx);
}

#[test]
fn query_executors_by_table() {
    let mut executors: Bindings<u32> = Bindings::new();
    executors.insert("person".to_string(), 1);
    executors.insert("animal".to_string(), 2);
    let mut root: Ctx = Context::background();
    assert_eq!(root.get_query_executor("person"), None);
    root.set_query_executors(executors);
    assert_eq!(root.get_query_executor("person"), Some(&1));
    assert_eq!(root.get_query_executor("animal"), Some(&2));
    assert_eq!(root.get_query_executor("plant"), None);
}

#[test]
fn bindings_insert_get_len() {
    let mut b: Bindings<i32> = Bindings::new();
    assert_eq!(b.len(), 0);
    assert_eq!(b.get("a"), None);
    b.insert("a".to_string(), 1);
    b.insert("b".to_string(), 2);
    assert_eq!(b.len(), 2);
    assert_eq!(b.get("a"), Some(&1));
    assert_eq!(b.get("b"), Some(&2));
    b.insert("a".to_string(), 3);
    assert_eq!(b.len(), 2);
    assert_eq!(b.get("a"), Some(&3));
    assert_eq!(b.get("b"), Some(&2));
    assert_eq!(b.get("A"), None);
    assert_eq!(b.get("aa"), None);
}

#[test]
fn cancellation_watches_the_chain() {
    let mut root: Ctx = Context::background();
    let canceller = root.add_cancel();
    let watch = {
        let child: Ctx = Context::new(&root);
        child.cancellation()
    };
    let alone = {
        let other: Ctx = Context::background();
        other.cancellation()
    };
    assert!(!watch.is_done());
    canceller.cancel();
    assert!(watch.is_done());
    assert!(!alone.is_done());
}

#[test]
fn cancellation_watches_the_deadline() {
    let base = Instant::now();
    let mut root: Ctx = Context::background();
    root.add_deadline(base);
    let watch = root.cancellation();
    assert!(watch.is_done());
    assert!(watch.expired_at(base));
    let open = Cancellation::new(Some(base + Duration::from_secs(3600)), vec![]);
    assert!(!open.is_done());
    assert!(!open.expired_at(base));
    let never = Cancellation::new(None, vec![]);
    assert!(!never.is_done());
}
