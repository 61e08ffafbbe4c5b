use karmaio::driver::helpers::scopes::{
    current_scope_ids, with_scope, AttachResult, AttachedScopes, ScopeId, ScopeTable, SubscribeResult, TableIds,
};
use karmaio::driver::op_table::{OpKey, OpTable};
use std::sync::atomic::{AtomicUsize, Ordering};
use std::sync::Arc;
use std::task::{Wake, Waker};

fn fake_key(label: &'static str) -> OpKey {
    let mut table = OpTable::new(4).unwrap();
    table.insert(label).unwrap()
}

fn distinct_keys(count: usize) -> Vec<OpKey> {
    let mut table = OpTable::new(count).unwrap();
    let mut keys = Vec::new();
    for label in 0..count {
        keys.push(table.insert(label).unwrap());
    }
    keys
}

struct WakeCounter(AtomicUsize);

impl Wake for WakeCounter {
    fn wake(self: Arc<Self>) {
        self.0.fetch_add(1, Ordering::SeqCst);
    }
}

#[test]
fn cancel_is_idempotent_and_sticky() {
    let mut table = ScopeTable::new(&mut TableIds::new());
    let id = table.insert();
    assert!(!table.is_cancelled(id));

    let first = table.cancel(id);
    assert!(first.ops.is_empty());
    assert!(table.is_cancelled(id));

    let second = table.cancel(id);
    assert!(second.ops.is_empty());
    assert!(second.waiters.is_empty());
    assert!(table.is_cancelled(id));
}

#[test]
fn attach_then_cancel_snapshots_the_op() {
    let mut table = ScopeTable::new(&mut TableIds::new());
    let id = table.insert();
    let key = fake_key("op");

    assert_eq!(table.attach(id, key), AttachResult::Attached);
    let cancelled = table.cancel(id);
    assert_eq!(cancelled.ops, vec![key]);
    assert_eq!(table.attach(id, fake_key("later")), AttachResult::Cancelled);
}

#[test]
fn detach_removes_the_op_from_an_active_scope() {
    let mut table = ScopeTable::new(&mut TableIds::new());
    let id = table.insert();
    let key = fake_key("op");

    assert_eq!(table.attach(id, key), AttachResult::Attached);
    table.detach(key);
    assert!(table.cancel(id).ops.is_empty());
}

#[test]
fn detach_after_cancel_is_a_no_op_on_the_empty_set() {
    let mut table = ScopeTable::new(&mut TableIds::new());
    let id = table.insert();
    let key = fake_key("op");
    table.attach(id, key);
    let _ = table.cancel(id);
    table.detach(key);
    assert!(table.is_cancelled(id));
}

#[test]
fn nested_scopes_both_track_the_same_op() {
    let mut table = ScopeTable::new(&mut TableIds::new());
    let a = table.insert();
    let b = table.insert();
    let key = fake_key("op");

    assert_eq!(table.attach(a, key), AttachResult::Attached);
    assert_eq!(table.attach(b, key), AttachResult::Attached);

    let cancelled_a = table.cancel(a);
    assert_eq!(cancelled_a.ops, vec![key]);
    // The scopes of the operation are both known until it is detached; `b`
    // still has the key.
    let cancelled_b = table.cancel(b);
    assert_eq!(cancelled_b.ops, vec![key]);
}

#[test]
fn dropped_scope_generation_does_not_alias_a_reuse() {
    let mut table = ScopeTable::new(&mut TableIds::new());
    let first = table.insert();
    let _ = table.remove(first);

    let second = table.insert();
    assert_ne!(first, second);
    assert!(table.is_cancelled(first));
    assert!(!table.is_cancelled(second));
    assert_eq!(table.attach(first, fake_key("stale")), AttachResult::Cancelled);
    assert_eq!(table.attach(second, fake_key("fresh")), AttachResult::Attached);
}

#[test]
fn missing_scope_is_cancelled() {
    let mut ids = TableIds::new();
    let mut table = ScopeTable::new(&mut ids);
    let mut other = ScopeTable::new(&mut ids);
    let id = other.insert();
    assert!(table.is_cancelled(id));
    assert!(matches!(
        table.subscribe(id, None, Waker::noop().clone()).result,
        SubscribeResult::Ready
    ));
}

#[test]
fn subscribe_on_cancelled_scope_completes_immediately() {
    let mut table = ScopeTable::new(&mut TableIds::new());
    let id = table.insert();
    let _ = table.cancel(id);
    assert!(matches!(
        table.subscribe(id, None, Waker::noop().clone()).result,
        SubscribeResult::Ready
    ));
}

#[test]
fn unsubscribe_releases_waiter() {
    let mut table = ScopeTable::new(&mut TableIds::new());
    let id = table.insert();
    let registration = match table.subscribe(id, None, Waker::noop().clone()).result {
        SubscribeResult::Pending(registration) => registration,
        SubscribeResult::Ready => panic!("active scope completed a waiter"),
    };
    assert_eq!(table.waiter_count(id), 1);

    drop(table.unsubscribe(id, registration));
    assert_eq!(table.waiter_count(id), 0);
    assert!(table.cancel(id).waiters.is_empty());
}

#[test]
fn subscribing_again_keeps_one_waiter() {
    let mut table = ScopeTable::new(&mut TableIds::new());
    let id = table.insert();
    let first = Waker::from(Arc::new(WakeCounter(AtomicUsize::new(0))));
    let registration = match table.subscribe(id, None, first.clone()).result {
        SubscribeResult::Pending(registration) => registration,
        SubscribeResult::Ready => panic!("active scope completed a waiter"),
    };

    // The same task: the new waker is not needed.
    let same = table.subscribe(id, Some(registration), first.clone());
    assert_eq!(same.result, SubscribeResult::Pending(registration));
    assert!(same.deferred_drop.is_some());
    assert_eq!(table.waiter_count(id), 1);

    // Another task: its waker takes the place of the old one.
    let counter = Arc::new(WakeCounter(AtomicUsize::new(0)));
    let other = table.subscribe(id, Some(registration), Waker::from(counter.clone()));
    assert_eq!(other.result, SubscribeResult::Pending(registration));
    assert_eq!(table.waiter_count(id), 1);

    for waker in table.cancel(id).waiters {
        waker.wake();
    }
    assert_eq!(counter.0.load(Ordering::SeqCst), 1);
}

#[test]
fn cancelling_twice_wakes_nobody_twice() {
    let mut table = ScopeTable::new(&mut TableIds::new());
    let id = table.insert();
    let keys = distinct_keys(3);
    for key in &keys {
        assert_eq!(table.attach(id, *key), AttachResult::Attached);
    }
    let _ = table.subscribe(id, None, Waker::noop().clone());

    let first = table.cancel(id);
    assert_eq!(first.ops.len(), 3);
    for key in &keys {
        assert!(first.ops.contains(key));
    }
    assert_eq!(first.waiters.len(), 1);

    let second = table.cancel(id);
    assert!(second.ops.is_empty());
    assert!(second.waiters.is_empty());
}

#[test]
fn removing_a_scope_cancels_it() {
    let mut table = ScopeTable::new(&mut TableIds::new());
    let id = table.insert();
    let key = fake_key("op");
    table.attach(id, key);
    let removed = table.remove(id);
    assert_eq!(removed.ops, vec![key]);
    assert!(table.is_cancelled(id));
    assert!(table.remove(id).ops.is_empty());
}

#[test]
fn attached_scopes_stay_distinct() {
    let mut table = ScopeTable::new(&mut TableIds::new());
    let ids = [table.insert(), table.insert(), table.insert(), table.insert()];
    let mut attached = AttachedScopes::Empty;
    for id in ids {
        attached.insert(id);
        attached.insert(id);
    }
    assert_eq!(attached.iter(), ids.to_vec());
    for id in ids {
        assert!(attached.contains(id));
    }
    assert!(!attached.contains(table.insert()));
}

#[test]
fn scope_ids_are_made_of_their_parts() {
    let id = ScopeId::from_parts(3, 7, 9).unwrap();
    assert_eq!(id.slot(), 7);
    assert_eq!(id.generation(), 9);
    assert_ne!(id, ScopeId::from_parts(4, 7, 9).unwrap());
    assert_ne!(id, ScopeId::from_parts(3, 8, 9).unwrap());
    assert_ne!(id, ScopeId::from_parts(3, 7, 10).unwrap());
    assert!(ScopeId::from_parts(3, usize::MAX, 9).is_none());
}

#[test]
fn scopes_nest() {
    let mut table = ScopeTable::new(&mut TableIds::new());
    let outer = table.insert();
    let inner = table.insert();
    assert!(current_scope_ids(None).is_empty());
    let seen = with_scope(None, outer, |frame| {
        with_scope(Some(frame), inner, |frame| current_scope_ids(Some(frame)))
    });
    assert_eq!(seen, vec![inner, outer]);
}

#[test]
fn tables_have_different_numbers() {
    let mut ids = TableIds::new();
    let first = ids.next_table_id();
    let second = ids.next_table_id();
    assert_ne!(first, second);
}

#[test]
fn cancelled_scopes_stay_cancelled() {
    let mut table = ScopeTable::new(&mut TableIds::new());
    let first = table.insert();
    let second = table.insert();
    let _ = table.cancel(first);
    let _ = table.attach(second, fake_key("op"));
    let third = table.insert();
    table.detach(fake_key("op"));
    let _ = table.remove(second);
    let fourth = table.insert();
    assert!(table.is_cancelled(first));
    assert!(table.is_cancelled(second));
    assert!(!table.is_cancelled(third));
    assert!(!table.is_cancelled(fourth));
}

#[test]
fn live_scopes_share_no_slot() {
    let mut table = ScopeTable::new(&mut TableIds::new());
    assert!(table.has_room());
    let first = table.insert();
    let second = table.insert();
    assert_ne!(first.slot(), second.slot());
    let _ = table.remove(first);
    let third = table.insert();
    assert_eq!(third.slot(), first.slot());
    assert_eq!(third.generation(), first.generation() + 1);
    assert_ne!(third.slot(), second.slot());
}
