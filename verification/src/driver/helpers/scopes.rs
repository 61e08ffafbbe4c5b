//! Generational cancellation scopes.
//!
//! A [`ScopeId`] names one cancellation source. Using a slot again bumps its
//! generation, so that a dropped source cannot cancel a later occupant. What is
//! attached to a scope is recorded with the scope and, the other way round,
//! with the operation, so that the end of an operation does not search every
//! scope.
use crate::driver::op_table::OpKey;
use crate::slab::Slab;
use crate::task::wakes_already;
use std::collections::{HashMap, HashSet};
use std::task::Waker;
use vstd::prelude::*;

verus! {

/// Identity of a cancellation scope: its table, its slot, and the generation of
/// the slot's occupant.
#[derive(Clone, Copy, Debug, PartialEq, Eq, Hash, Structural)]
pub struct ScopeId {
    table: u64,
    entry: u64,
}

impl ScopeId {
    pub closed spec fn spec_table(self) -> u64 {
        self.table
    }

    pub closed spec fn spec_slot(self) -> nat {
        (self.entry % 0x1_0000_0000) as nat
    }

    pub closed spec fn spec_generation(self) -> nat {
        (self.entry / 0x1_0000_0000) as nat
    }

    /// The identity with these parts. A slot that is too large and the
    /// generation zero name nothing.
    pub fn from_parts(table: u64, slot: usize, generation: u32) -> (id: Option<ScopeId>)
        ensures
            id is Some <==> slot <= u32::MAX && generation != 0,
            id matches Some(id) ==> {
                &&& id.spec_table() == table
                &&& id.spec_slot() == slot
                &&& id.spec_generation() == generation
            },
    {
        if slot as u64 > u32::MAX as u64 || generation == 0 {
            return None;
        }
        let high: u64 = generation as u64;
        Some(ScopeId { table, entry: high * 0x1_0000_0000 + slot as u64 })
    }

    pub fn slot(self) -> (slot: u32)
        ensures
            slot == self.spec_slot(),
    {
        (self.entry % 0x1_0000_0000) as u32
    }

    pub fn generation(self) -> (generation: u32)
        ensures
            generation == self.spec_generation(),
    {
        (self.entry / 0x1_0000_0000) as u32
    }

    /// An identity is determined by its table, its slot and its generation.
    pub proof fn law_parts_determine(a: ScopeId, b: ScopeId)
        requires
            a.spec_table() == b.spec_table(),
            a.spec_slot() == b.spec_slot(),
            a.spec_generation() == b.spec_generation(),
        ensures
            a == b,
    {
    }
}

/// One of the scopes that wrap the current poll, and the scopes around it.
pub struct ScopeFrame<'a> {
    id: ScopeId,
    parent: Option<&'a ScopeFrame<'a>>,
}

/// The scopes that wrap the current poll, the innermost first.
pub closed spec fn scope_ids(current: Option<&ScopeFrame<'_>>) -> Seq<ScopeId>
    decreases current,
{
    match current {
        Some(frame) => seq![frame.id] + scope_ids(frame.parent),
        None => Seq::empty(),
    }
}

/// Outside any scope there are none.
pub proof fn law_no_scope_outside()
    ensures
        scope_ids(None) == Seq::<ScopeId>::empty(),
{
}

/// Run `f` inside the scope `id`, within the scopes that are current.
pub fn with_scope<R, F: FnOnce(&ScopeFrame<'_>) -> R>(current: Option<&ScopeFrame<'_>>, id: ScopeId, f: F) -> (result: R)
    requires
        forall|frame: &ScopeFrame<'_>|
            scope_ids(Some(frame)) == seq![id] + scope_ids(current) ==> #[trigger] call_requires(f, (frame,)),
    ensures
        exists|frame: &ScopeFrame<'_>|
            scope_ids(Some(frame)) == seq![id] + scope_ids(current) && #[trigger] call_ensures(
                f,
                (frame,),
                result,
            ),
{
    let frame = ScopeFrame { id, parent: current };
    assert(scope_ids(Some(&frame)) == seq![id] + scope_ids(current));
    f(&frame)
}

/// The scopes that wrap the current poll, the innermost first.
pub fn current_scope_ids(current: Option<&ScopeFrame<'_>>) -> (ids: Vec<ScopeId>)
    ensures
        ids@ == scope_ids(current),
{
    let mut ids: Vec<ScopeId> = Vec::new();
    let mut frame = current;
    assert(ids@ + scope_ids(frame) =~= scope_ids(current));
    while frame.is_some()
        invariant
            ids@ + scope_ids(frame) == scope_ids(current),
        decreases frame,
    {
        let ghost before = ids@;
        let inner = frame.unwrap();
        ids.push(inner.id);
        frame = inner.parent;
        assert(ids@ + scope_ids(frame) =~= before + (seq![inner.id] + scope_ids(inner.parent)));
    }
    assert(ids@ + Seq::<ScopeId>::empty() =~= ids@);
    ids
}

/// Hands out table identities, each once.
pub struct TableIds {
    next: u64,
}

impl TableIds {
    pub closed spec fn spec_next(&self) -> u64 {
        self.next
    }

    pub fn new() -> (ids: Self)
        ensures
            ids.spec_next() == 1,
    {
        TableIds { next: 1 }
    }

    /// Whether there is an identity left.
    pub fn has_next(&self) -> (left: bool)
        ensures
            left == (self.spec_next() < u64::MAX),
    {
        self.next < u64::MAX
    }

    /// An identity that was not handed out before.
    pub fn next_table_id(&mut self) -> (id: u64)
        requires
            old(self).spec_next() < u64::MAX,
        ensures
            id == old(self).spec_next(),
            final(self).spec_next() == id + 1,
    {
        let id = self.next;
        self.next = id + 1;
        id
    }
}

/// Identity of one registration to be told of a cancellation.
#[derive(Clone, Copy, Debug, PartialEq, Eq, Hash, Structural)]
pub struct WaiterId(u64);

impl WaiterId {
    pub closed spec fn spec_number(self) -> u64 {
        self.0
    }
}

/// A cancellation scope.
pub enum Scope {
    Active { ops: HashSet<u64>, waiters: HashMap<u64, Waker> },
    Cancelled,
}

/// A cancellation scope as a value.
#[verifier::ext_equal]
pub enum ScopeView {
    Active { ops: Set<OpKey>, waiters: Map<WaiterId, Waker> },
    Cancelled,
}

impl View for Scope {
    type V = ScopeView;

    closed spec fn view(&self) -> ScopeView {
        match *self {
            Scope::Active { ops, waiters } => ScopeView::Active {
                ops: Set::new(|key: OpKey| ops@.contains(key.spec_raw())),
                waiters: Map::new(
                    |id: WaiterId| waiters@.contains_key(id.0),
                    |id: WaiterId| waiters@[id.0],
                ),
            },
            Scope::Cancelled => ScopeView::Cancelled,
        }
    }
}

/// The scopes that one operation is attached to, mostly a few.
pub enum AttachedScopes {
    Empty,
    One(ScopeId),
    Two(ScopeId, ScopeId),
    More(Vec<ScopeId>),
}

impl View for AttachedScopes {
    type V = Seq<ScopeId>;

    open spec fn view(&self) -> Seq<ScopeId> {
        match *self {
            AttachedScopes::Empty => Seq::empty(),
            AttachedScopes::One(a) => seq![a],
            AttachedScopes::Two(a, b) => seq![a, b],
            AttachedScopes::More(ids) => ids@,
        }
    }
}

impl AttachedScopes {
    /// Add a scope, unless it is there.
    pub fn insert(&mut self, id: ScopeId)
        ensures
            final(self)@ == (if old(self)@.contains(id) {
                old(self)@
            } else {
                old(self)@.push(id)
            }),
    {
        if self.contains(id) {
            return;
        }
        let mut ids = AttachedScopes::Empty;
        std::mem::swap(self, &mut ids);
        *self = match ids {
            AttachedScopes::Empty => AttachedScopes::One(id),
            AttachedScopes::One(a) => AttachedScopes::Two(a, id),
            AttachedScopes::Two(a, b) => {
                let mut ids: Vec<ScopeId> = Vec::new();
                ids.push(a);
                ids.push(b);
                ids.push(id);
                AttachedScopes::More(ids)
            },
            AttachedScopes::More(mut ids) => {
                ids.push(id);
                AttachedScopes::More(ids)
            },
        };
        assert(self@ =~= old(self)@.push(id));
    }

    pub fn contains(&self, id: ScopeId) -> (found: bool)
        ensures
            found == self@.contains(id),
    {
        match self {
            AttachedScopes::Empty => false,
            AttachedScopes::One(a) => {
                assert(self@[0] == *a);
                *a == id
            },
            AttachedScopes::Two(a, b) => {
                assert(self@[0] == *a && self@[1] == *b);
                *a == id || *b == id
            },
            AttachedScopes::More(ids) => {
                let mut next: usize = 0;
                while next < ids.len()
                    invariant
                        next <= ids@.len(),
                        ids@ == self@,
                        forall|i: int| 0 <= i < next ==> ids@[i] != id,
                    decreases ids@.len() - next,
                {
                    if ids[next] == id {
                        assert(ids@[next as int] == id);
                        return true;
                    }
                    next += 1;
                }
                false
            },
        }
    }

    /// The scopes in the order in which they were added.
    pub fn iter(&self) -> (ids: Vec<ScopeId>)
        ensures
            ids@ == self@,
    {
        let mut list: Vec<ScopeId> = Vec::new();
        match self {
            AttachedScopes::Empty => {},
            AttachedScopes::One(a) => {
                list.push(*a);
            },
            AttachedScopes::Two(a, b) => {
                list.push(*a);
                list.push(*b);
            },
            AttachedScopes::More(ids) => {
                let mut next: usize = 0;
                while next < ids.len()
                    invariant
                        next <= ids@.len(),
                        list@ == ids@.subrange(0, next as int),
                    decreases ids@.len() - next,
                {
                    list.push(ids[next]);
                    next += 1;
                    assert(list@ =~= ids@.subrange(0, next as int));
                }
            },
        }
        assert(list@ =~= self@);
        list
    }

    /// A scope is never listed twice.
    pub proof fn law_insert_keeps_scopes_distinct(before: AttachedScopes, id: ScopeId, after: Seq<ScopeId>)
        requires
            before@.no_duplicates(),
            after == (if before@.contains(id) {
                before@
            } else {
                before@.push(id)
            }),
        ensures
            after.no_duplicates(),
            after.contains(id),
    {
        if !before@.contains(id) {
            assert(after.last() == id);
        }
    }
}

/// Outcome of attaching an operation to a scope.
#[derive(Clone, Copy, Debug, PartialEq, Eq, Structural)]
pub enum AttachResult {
    Attached,
    /// The scope is cancelled, or gone.
    Cancelled,
}

/// What was attached to a scope when it was cancelled.
pub struct ScopeCancel {
    pub ops: Vec<OpKey>,
    pub waiters: Vec<Waker>,
}

/// Outcome of registering to be told of a cancellation.
#[derive(Clone, Copy, Debug, PartialEq, Eq, Structural)]
pub enum SubscribeResult {
    Ready,
    Pending(WaiterId),
}

/// Outcome of a registration, and a waker to drop once the table is no longer
/// borrowed.
pub struct ScopeSubscribe {
    pub result: SubscribeResult,
    pub deferred_drop: Option<Waker>,
}

/// A call on a table of scopes, as far as it says which scopes there are and
/// which of them are cancelled.
pub enum ScopeCall {
    /// A scope was made under this identity.
    Insert(ScopeId),
    Cancel(ScopeId),
    Remove(ScopeId),
    /// Operations or registrations came or went.
    Other,
}

/// The cancellation scopes of one driver.
pub struct ScopeTable {
    id: u64,
    entries: Slab<Scope>,
    generations: Vec<u32>,
    attachments: HashMap<u64, AttachedScopes>,
    next_waiter: u64,
}

impl ScopeTable {
    spec fn holds(&self, id: ScopeId) -> bool {
        &&& id.table == self.id
        &&& id.spec_slot() < self.generations@.len()
        &&& self.generations@[id.spec_slot() as int] == id.spec_generation()
        &&& self.entries@.contains_key(id.spec_slot() as usize)
    }

    /// The scopes that exist.
    pub closed spec fn spec_scopes(&self) -> Map<ScopeId, ScopeView> {
        Map::new(|id: ScopeId| self.holds(id), |id: ScopeId| self.entries@[id.spec_slot() as usize]@)
    }

    /// The scopes that each operation was attached to.
    pub closed spec fn spec_attachments(&self) -> Map<OpKey, Seq<ScopeId>> {
        Map::new(
            |key: OpKey| self.attachments@.contains_key(key.spec_raw()),
            |key: OpKey| self.attachments@[key.spec_raw()]@,
        )
    }

    pub closed spec fn spec_table(&self) -> u64 {
        self.id
    }

    /// The number of the next registration.
    pub closed spec fn spec_next_waiter(&self) -> u64 {
        self.next_waiter
    }

    /// The slot of the next scope.
    pub closed spec fn spec_next_slot(&self) -> usize {
        self.entries.spec_vacant_key()
    }

    /// No scope was ever made in a slot from here on.
    pub closed spec fn spec_slot_end(&self) -> nat {
        self.entries.spec_end()
    }

    /// Whether no scope will exist under `id` any more.
    pub closed spec fn retired(&self, id: ScopeId) -> bool {
        &&& id.table == self.id
        &&& id.spec_slot() < self.generations@.len()
        &&& 0 < id.spec_generation() < self.generations@[id.spec_slot() as int]
    }

    /// What was retired stays retired.
    pub open spec fn keeps_retired(&self, before: &Self) -> bool {
        forall|id: ScopeId|
            #![trigger before.retired(id)]
            #![trigger self.retired(id)]
            before.retired(id) ==> self.retired(id)
    }

    /// What was cancelled stays cancelled.
    pub open spec fn keeps_cancelled(&self, before: &Self) -> bool {
        forall|id: ScopeId|
            #![trigger before.spec_is_cancelled(id)]
            #![trigger self.spec_is_cancelled(id)]
            before.spec_is_cancelled(id) ==> self.spec_is_cancelled(id)
    }

    /// Whether a scope was made under `id`, be it still there or not.
    pub open spec fn issued(&self, id: ScopeId) -> bool {
        self.spec_scopes().contains_key(id) || self.retired(id)
    }

    /// What a call does to the identities that were handed out, and to which of
    /// their scopes are cancelled: only a call that names a scope cancels it,
    /// and no call undoes that.
    pub open spec fn follows(&self, before: &Self, call: ScopeCall) -> bool {
        &&& forall|id: ScopeId|
            #![trigger self.issued(id)]
            #![trigger before.issued(id)]
            self.issued(id) <==> before.issued(id) || call == ScopeCall::Insert(id)
        &&& call matches ScopeCall::Insert(id) ==> {
            &&& !before.issued(id)
            &&& self.spec_scopes().contains_key(id)
            &&& !self.spec_is_cancelled(id)
        }
        &&& forall|id: ScopeId|
            #![trigger self.spec_is_cancelled(id)]
            #![trigger before.spec_is_cancelled(id)]
            before.issued(id) ==> (self.spec_is_cancelled(id) <==> before.spec_is_cancelled(id) || call
                == ScopeCall::Cancel(id) || call == ScopeCall::Remove(id))
        &&& forall|id: ScopeId|
            #![trigger self.spec_scopes().contains_key(id)]
            before.spec_scopes().contains_key(id) && id.spec_generation() == u32::MAX
                ==> self.spec_scopes().contains_key(id)
    }

    /// Every operation of an active scope knows of the scope.
    pub closed spec fn wf(&self) -> bool {
        &&& self.entries.wf()
        &&& self.entries.spec_end() <= self.generations@.len()
        &&& forall|i: int| 0 <= i < self.generations@.len() ==> (#[trigger] self.generations@[i]) >= 1
        &&& attached(self.spec_scopes(), self.spec_attachments())
        &&& numbered(self.spec_scopes(), self.next_waiter)
    }
}

/// No registration has a number that is still to be handed out.
pub open spec fn numbered(scopes: Map<ScopeId, ScopeView>, next: u64) -> bool {
    forall|id: ScopeId, waiter: WaiterId|
        #![trigger scopes.contains_key(id), waiter.spec_number()]
        scopes.contains_key(id) && (scopes[id] matches ScopeView::Active { waiters, .. }
            && waiters.contains_key(waiter)) ==> waiter.spec_number() < next
}

/// Every operation of an active scope knows of the scope.
pub open spec fn attached(scopes: Map<ScopeId, ScopeView>, attachments: Map<OpKey, Seq<ScopeId>>) -> bool {
    forall|id: ScopeId, key: OpKey|
        #![trigger scopes.contains_key(id), attachments.contains_key(key)]
        scopes.contains_key(id) && (scopes[id] matches ScopeView::Active { ops, .. } && ops.contains(key))
            ==> attachments.contains_key(key) && attachments[key].contains(id)
}

/// Scopes that stay as they are, end, or hold nothing keep the books in order.
proof fn lemma_links_kept(
    before: Map<ScopeId, ScopeView>,
    after: Map<ScopeId, ScopeView>,
    attachments: Map<OpKey, Seq<ScopeId>>,
    next: u64,
)
    requires
        attached(before, attachments),
        numbered(before, next),
        forall|id: ScopeId| #[trigger]
            after.contains_key(id) ==> {
                ||| before.contains_key(id) && after[id] == before[id]
                ||| after[id] is Cancelled
                ||| after[id] == (ScopeView::Active { ops: Set::empty(), waiters: Map::empty() })
            },
    ensures
        attached(after, attachments),
        numbered(after, next),
{
    assert forall|id: ScopeId, key: OpKey|
        #![trigger after.contains_key(id), attachments.contains_key(key)]
        after.contains_key(id) && (after[id] matches ScopeView::Active { ops, .. } && ops.contains(key))
            implies attachments.contains_key(key) && attachments[key].contains(id) by {
        assert(before.contains_key(id));
        assert(attachments.contains_key(key));
    }
    assert forall|id: ScopeId, waiter: WaiterId|
        #![trigger after.contains_key(id), waiter.spec_number()]
        after.contains_key(id) && (after[id] matches ScopeView::Active { waiters, .. }
            && waiters.contains_key(waiter)) implies waiter.spec_number() < next by {
        assert(before.contains_key(id));
    }
}

/// What is handed out of the registrations of a scope: each waker once, in some
/// order.
pub open spec fn snapshot(waiters: Map<WaiterId, Waker>, wakers: Seq<Waker>) -> bool {
    exists|order: Seq<WaiterId>| #[trigger] in_order(waiters, order, wakers)
}

/// The wakers of all registrations in this order.
pub open spec fn in_order(waiters: Map<WaiterId, Waker>, order: Seq<WaiterId>, wakers: Seq<Waker>) -> bool {
    &&& order.no_duplicates()
    &&& order.len() == wakers.len()
    &&& forall|id: WaiterId| #[trigger] order.contains(id) <==> waiters.contains_key(id)
    &&& forall|i: int| 0 <= i < order.len() ==> (#[trigger] wakers[i]) == waiters[order[i]]
}

/// The operations of a scope, each once, in some order.
fn list_ops(ops: &HashSet<u64>) -> (keys: Vec<OpKey>)
    ensures
        keys@.no_duplicates(),
        forall|key: OpKey| #[trigger] keys@.contains(key) <==> ops@.contains(key.spec_raw()),
{
    broadcast use vstd::std_specs::hash::group_hash_axioms;

    let mut keys: Vec<OpKey> = Vec::new();
    let ghost mut all: Seq<u64> = Seq::empty();
    for raw in iter: ops.iter()
        invariant
            iter.seq().unref().to_set() == ops@,
            iter.seq().no_duplicates(),
            keys@.len() == iter.index(),
            all == iter.seq().unref().subrange(0, iter.index()),
            forall|i: int| 0 <= i < keys@.len() ==> (#[trigger] keys@[i]).spec_raw() == *iter.seq()[i],
            keys@.len() == iter.seq().len() ==> all.to_set() == ops@,
    {
        keys.push(OpKey::from_raw(*raw));
        proof {
            all = all.push(*raw);
        }
        assert(all =~= iter.seq().unref().subrange(0, iter.index() + 1));
        assert(iter.index() + 1 == iter.seq().len() ==> all =~= iter.seq().unref());
    }
    proof {
        assert forall|key: OpKey| #[trigger] keys@.contains(key) <==> ops@.contains(key.spec_raw()) by {
            if keys@.contains(key) {
                let i = choose|i: int| 0 <= i < keys@.len() && keys@[i] == key;
                assert(all[i] == key.spec_raw());
                assert(all.to_set().contains(all[i]));
            }
            if ops@.contains(key.spec_raw()) {
                assert(all.to_set().contains(key.spec_raw()));
                let i = choose|i: int| 0 <= i < all.len() && all[i] == key.spec_raw();
                OpKey::lemma_raw_injective(keys@[i], key);
                assert(keys@[i] == key);
            }
        }
    }
    keys
}

/// The numbers of the registrations of a scope, each once, in some order.
fn list_waiters(waiters: &HashMap<u64, Waker>) -> (numbers: Vec<u64>)
    ensures
        numbers@.no_duplicates(),
        forall|number: u64| #[trigger] numbers@.contains(number) <==> waiters@.contains_key(number),
{
    broadcast use vstd::std_specs::hash::group_hash_axioms;

    let mut numbers: Vec<u64> = Vec::new();
    for number in iter: waiters.keys()
        invariant
            iter.seq().unref().to_set() == waiters@.dom(),
            iter.seq().no_duplicates(),
            numbers@ == iter.seq().unref().subrange(0, iter.index()),
            iter.index() == iter.seq().len() ==> numbers@.to_set() == waiters@.dom(),
            numbers@.no_duplicates(),
    {
        numbers.push(*number);
        assert(numbers@ =~= iter.seq().unref().subrange(0, iter.index() + 1));
        assert(iter.index() + 1 == iter.seq().len() ==> numbers@ =~= iter.seq().unref());
        assert forall|i: int, j: int| 0 <= i < j < numbers@.len() implies numbers@[i] != numbers@[j] by {
            assert(*iter.seq()[i] == numbers@[i]);
            assert(*iter.seq()[j] == numbers@[j]);
        }
    }
    assert forall|number: u64| #[trigger] numbers@.contains(number) <==> waiters@.contains_key(number) by {
        assert(numbers@.to_set().contains(number) <==> waiters@.dom().contains(number));
    }
    numbers
}

/// Take the wakers out of the registrations of a scope.
fn take_wakers(mut waiters: HashMap<u64, Waker>) -> (wakers: Vec<Waker>)
    ensures
        snapshot(
            Map::new(|id: WaiterId| waiters@.contains_key(id.0), |id: WaiterId| waiters@[id.0]),
            wakers@,
        ),
{
    broadcast use vstd::std_specs::hash::group_hash_axioms;

    let ghost all = waiters@;
    let numbers = list_waiters(&waiters);
    let mut wakers: Vec<Waker> = Vec::new();
    let mut next: usize = 0;
    assert forall|i: int| 0 <= i < numbers@.len() implies all.contains_key(#[trigger] numbers@[i]) by {
        assert(numbers@.contains(numbers@[i]));
    }
    while next < numbers.len()
        invariant
            next <= numbers@.len(),
            numbers@.no_duplicates(),
            forall|number: u64| #[trigger] numbers@.contains(number) <==> all.contains_key(number),
            forall|i: int|
                next <= i < numbers@.len() ==> waiters@.contains_key(#[trigger] numbers@[i])
                    && waiters@[numbers@[i]] == all[numbers@[i]],
            wakers@.len() == next,
            forall|i: int| 0 <= i < next ==> (#[trigger] wakers@[i]) == all[numbers@[i]],
        decreases numbers@.len() - next,
    {
        if let Some(waker) = waiters.remove(&numbers[next]) {
            wakers.push(waker);
        }
        next += 1;
    }
    proof {
        let view = Map::new(|id: WaiterId| all.contains_key(id.0), |id: WaiterId| all[id.0]);
        let order = Seq::new(numbers@.len(), |i: int| WaiterId(numbers@[i]));
        assert forall|id: WaiterId| #[trigger] order.contains(id) <==> view.contains_key(id) by {
            if order.contains(id) {
                let i = choose|i: int| 0 <= i < order.len() && order[i] == id;
                assert(numbers@.contains(numbers@[i]));
            }
            if view.contains_key(id) {
                assert(numbers@.contains(id.0));
                let i = choose|i: int| 0 <= i < numbers@.len() && numbers@[i] == id.0;
                assert(order[i] == id);
            }
        }
        assert forall|i: int| 0 <= i < order.len() implies (#[trigger] wakers@[i]) == view[order[i]] by {
            assert(numbers@.contains(numbers@[i]));
            assert(order[i].0 == numbers@[i]);
        }
        assert(order.no_duplicates());
        assert(in_order(view, order, wakers@));
    }
    wakers
}

impl ScopeTable {
    /// An empty table with an identity of its own.
    pub fn new(ids: &mut TableIds) -> (table: Self)
        requires
            old(ids).spec_next() < u64::MAX,
        ensures
            final(ids).spec_next() == old(ids).spec_next() + 1,
            table.wf(),
            table.spec_table() == old(ids).spec_next(),
            table.spec_scopes() == Map::<ScopeId, ScopeView>::empty(),
            table.spec_attachments() == Map::<OpKey, Seq<ScopeId>>::empty(),
            table.spec_next_waiter() == 1,
            table.spec_next_slot() == 0,
            table.spec_slot_end() == 0,
            forall|id: ScopeId| !table.retired(id),
    {
        let entries = Slab::new();
        let first = entries.vacant_key();
        let table = ScopeTable {
            id: ids.next_table_id(),
            entries,
            generations: Vec::new(),
            attachments: HashMap::new(),
            next_waiter: 1,
        };
        assert(table.spec_scopes() =~= Map::<ScopeId, ScopeView>::empty());
        assert(table.spec_attachments() =~= Map::<OpKey, Seq<ScopeId>>::empty());
        table
    }

    /// The scope under `id`, if it exists.
    pub fn get(&self, id: ScopeId) -> (scope: Option<&Scope>)
        requires
            self.wf(),
        ensures
            scope is Some <==> self.spec_scopes().contains_key(id),
            scope matches Some(scope) ==> scope@ == self.spec_scopes()[id],
    {
        if id.table != self.id {
            return None;
        }
        let slot = id.slot() as usize;
        if slot >= self.generations.len() || self.generations[slot] != id.generation() {
            return None;
        }
        self.entries.get(slot)
    }

    /// The scope under `id`, if it exists, for update in place.
    fn get_mut(&mut self, id: ScopeId) -> (scope: Option<&mut Scope>)
        requires
            old(self).entries.wf(),
            old(self).entries.spec_end() <= old(self).generations@.len(),
        ensures
            final(self).id == old(self).id,
            final(self).generations == old(self).generations,
            final(self).attachments == old(self).attachments,
            final(self).next_waiter == old(self).next_waiter,
            final(self).entries.wf(),
            final(self).entries.spec_end() == old(self).entries.spec_end(),
            final(self).entries.spec_vacant_key() == old(self).entries.spec_vacant_key(),
            scope is Some <==> old(self).spec_scopes().contains_key(id),
            scope is None ==> final(self).spec_scopes() == old(self).spec_scopes(),
            scope matches Some(scope) ==> {
                &&& scope@ == old(self).spec_scopes()[id]
                &&& final(self).spec_scopes() == old(self).spec_scopes().insert(id, final(scope)@)
            },
    {
        if id.table != self.id {
            return None;
        }
        let slot = id.slot() as usize;
        if slot >= self.generations.len() || self.generations[slot] != id.generation() {
            return None;
        }
        proof {
            assert forall|other: ScopeId| self.holds(other) && other.spec_slot() == id.spec_slot() implies other
                == id by {
                ScopeId::law_parts_determine(other, id);
            }
        }
        self.entries.get_mut(slot)
    }

    /// Whether there is a number for another waiter.
    pub fn has_number(&self) -> (number: bool)
        requires
            self.wf(),
        ensures
            number == (self.spec_next_waiter() < u64::MAX),
    {
        self.next_waiter < u64::MAX
    }

    /// Whether an identity can name the slot of the next scope.
    pub fn has_room(&self) -> (room: bool)
        requires
            self.wf(),
        ensures
            room == (self.spec_next_slot() <= u32::MAX),
    {
        self.entries.vacant_key() as u64 <= u32::MAX as u64
    }

    /// Make a scope. Its identity was never used before.
    pub fn insert(&mut self) -> (id: ScopeId)
        requires
            old(self).wf(),
            old(self).spec_next_slot() <= u32::MAX,
        ensures
            final(self).wf(),
            final(self).spec_table() == old(self).spec_table(),
            id.spec_table() == old(self).spec_table(),
            id.spec_slot() == old(self).spec_next_slot(),
            !old(self).spec_scopes().contains_key(id),
            !old(self).retired(id),
            final(self).spec_scopes() == old(self).spec_scopes().insert(
                id,
                ScopeView::Active { ops: Set::empty(), waiters: Map::empty() },
            ),
            final(self).spec_attachments() == old(self).spec_attachments(),
            final(self).spec_next_waiter() == old(self).spec_next_waiter(),
            old(self).spec_next_slot() <= old(self).spec_slot_end(),
            final(self).spec_slot_end() == (if id.spec_slot() == old(self).spec_slot_end() {
                old(self).spec_slot_end() + 1
            } else {
                old(self).spec_slot_end()
            }),
            final(self).spec_next_slot() <= final(self).spec_slot_end(),
            final(self).keeps_retired(old(self)),
            final(self).follows(old(self), ScopeCall::Insert(id)),
    {
        let slot = self.entries.vacant_key();
        if self.generations.len() <= slot {
            self.generations.push(1);
        }
        let generation = self.generations[slot];
        let id = ScopeId::from_parts(self.id, slot, generation).unwrap();
        let scope = Scope::Active { ops: HashSet::new(), waiters: HashMap::new() };
        let ghost view = scope@;
        let _ = self.entries.insert(scope);
        proof {
            assert(view =~~= ScopeView::Active { ops: Set::empty(), waiters: Map::empty() });
            assert forall|other: ScopeId| self.holds(other) && other.spec_slot() == id.spec_slot() implies other
                == id by {
                ScopeId::law_parts_determine(other, id);
            }
            assert(self.spec_scopes() =~= old(self).spec_scopes().insert(id, view));
            assert(self.spec_attachments() =~= old(self).spec_attachments());
            lemma_links_kept(
                old(self).spec_scopes(),
                self.spec_scopes(),
                self.spec_attachments(),
                self.next_waiter,
            );
            self.entries.lemma_vacant_key_is_bounded();
        }
        id
    }

    /// Whether the scope is cancelled. A scope that does not exist is.
    pub open spec fn spec_is_cancelled(&self, id: ScopeId) -> bool {
        !self.spec_scopes().contains_key(id) || self.spec_scopes()[id] is Cancelled
    }

    /// Whether the scope is cancelled. A scope that does not exist is.
    pub fn is_cancelled(&self, id: ScopeId) -> (cancelled: bool)
        requires
            self.wf(),
        ensures
            cancelled == self.spec_is_cancelled(id),
    {
        match self.get(id) {
            Some(Scope::Active { .. }) => false,
            Some(Scope::Cancelled) => true,
            None => true,
        }
    }

    /// What cancelling a scope hands out.
    pub open spec fn spec_snapshot(&self, id: ScopeId, cancelled: ScopeCancel) -> bool {
        if self.spec_is_cancelled(id) {
            &&& cancelled.ops@.len() == 0
            &&& cancelled.waiters@.len() == 0
        } else {
            let scope = self.spec_scopes()[id];
            &&& cancelled.ops@.no_duplicates()
            &&& forall|key: OpKey| #[trigger] cancelled.ops@.contains(key) <==> scope->ops.contains(key)
            &&& snapshot(scope->waiters, cancelled.waiters@)
        }
    }

    /// Cancel a scope, and hand out what is attached to it. Cancelling again
    /// hands out nothing.
    pub fn cancel(&mut self, id: ScopeId) -> (cancelled: ScopeCancel)
        requires
            old(self).wf(),
        ensures
            final(self).wf(),
            final(self).spec_table() == old(self).spec_table(),
            final(self).spec_scopes() == (if old(self).spec_scopes().contains_key(id) {
                old(self).spec_scopes().insert(id, ScopeView::Cancelled)
            } else {
                old(self).spec_scopes()
            }),
            final(self).spec_attachments() == old(self).spec_attachments(),
            final(self).spec_next_waiter() == old(self).spec_next_waiter(),
            final(self).spec_next_slot() == old(self).spec_next_slot(),
            final(self).spec_slot_end() == old(self).spec_slot_end(),
            final(self).follows(old(self), ScopeCall::Cancel(id)),
            final(self).keeps_retired(old(self)),
            final(self).keeps_cancelled(old(self)),
            final(self).spec_is_cancelled(id),
            old(self).spec_snapshot(id, cancelled),
    {
        let mut scope = Scope::Cancelled;
        if let Some(current) = self.get_mut(id) {
            std::mem::swap(current, &mut scope);
        }
        assert(self.spec_attachments() =~= old(self).spec_attachments());
        match scope {
            Scope::Active { ops, waiters } => ScopeCancel {
                ops: list_ops(&ops),
                waiters: take_wakers(waiters),
            },
            Scope::Cancelled => ScopeCancel { ops: Vec::new(), waiters: Vec::new() },
        }
    }

    /// Remove a scope, cancelling it first. A scope that does not exist is left
    /// alone.
    ///
    /// A slot that has used up its generations stays taken by a cancelled
    /// scope.
    pub fn remove(&mut self, id: ScopeId) -> (cancelled: ScopeCancel)
        requires
            old(self).wf(),
        ensures
            final(self).wf(),
            final(self).spec_table() == old(self).spec_table(),
            final(self).spec_scopes() == (if !old(self).spec_scopes().contains_key(id) {
                old(self).spec_scopes()
            } else if id.spec_generation() < u32::MAX {
                old(self).spec_scopes().remove(id)
            } else {
                old(self).spec_scopes().insert(id, ScopeView::Cancelled)
            }),
            final(self).spec_attachments() == old(self).spec_attachments(),
            final(self).spec_next_waiter() == old(self).spec_next_waiter(),
            final(self).spec_slot_end() == old(self).spec_slot_end(),
            final(self).spec_next_slot() == (if old(self).spec_scopes().contains_key(id) && id.spec_generation()
                < u32::MAX {
                id.spec_slot()
            } else {
                old(self).spec_next_slot() as nat
            }),
            final(self).spec_next_slot() <= final(self).spec_slot_end(),
            final(self).follows(old(self), ScopeCall::Remove(id)),
            final(self).keeps_retired(old(self)),
            final(self).keeps_cancelled(old(self)),
            final(self).spec_is_cancelled(id),
            old(self).spec_scopes().contains_key(id) && id.spec_generation() < u32::MAX ==> final(self).retired(
                id,
            ),
            old(self).spec_snapshot(id, cancelled),
    {
        let cancelled = self.cancel(id);
        proof {
            self.entries.lemma_vacant_key_is_bounded();
        }
        if self.get(id).is_none() {
            return cancelled;
        }
        let ghost before = *self;
        let slot = id.slot() as usize;
        let generation = id.generation();
        if generation < u32::MAX {
            let _ = self.entries.try_remove(slot);
            self.generations[slot] = generation + 1;
            proof {
                assert forall|other: ScopeId| before.holds(other) && other.spec_slot() == id.spec_slot() implies other
                    == id by {
                    ScopeId::law_parts_determine(other, id);
                }
                assert forall|other: ScopeId| #[trigger] self.holds(other) <==> before.holds(other) && other != id by {
                    if other.spec_slot() != id.spec_slot() {
                        assert(self.entries@.contains_key(other.spec_slot() as usize)
                            == before.entries@.contains_key(other.spec_slot() as usize));
                    }
                }
                assert(self.spec_scopes() =~= before.spec_scopes().remove(id));
                assert(self.spec_scopes() =~= old(self).spec_scopes().remove(id));
                assert(self.spec_attachments() =~= before.spec_attachments());
                lemma_links_kept(
                    before.spec_scopes(),
                    self.spec_scopes(),
                    self.spec_attachments(),
                    self.next_waiter,
                );
                self.entries.lemma_vacant_key_is_bounded();
            }
        }
        cancelled
    }

    /// Attach an operation to a scope.
    pub fn attach(&mut self, id: ScopeId, key: OpKey) -> (result: AttachResult)
        requires
            old(self).wf(),
        ensures
            final(self).wf(),
            final(self).spec_table() == old(self).spec_table(),
            final(self).spec_next_waiter() == old(self).spec_next_waiter(),
            final(self).spec_next_slot() == old(self).spec_next_slot(),
            final(self).spec_slot_end() == old(self).spec_slot_end(),
            final(self).follows(old(self), ScopeCall::Other),
            final(self).keeps_retired(old(self)),
            final(self).keeps_cancelled(old(self)),
            attached_as(old(self), id, key, final(self), result),
            if old(self).spec_is_cancelled(id) {
                &&& result is Cancelled
                &&& final(self).spec_scopes() == old(self).spec_scopes()
                &&& final(self).spec_attachments() == old(self).spec_attachments()
            } else {
                &&& result is Attached
                &&& final(self).spec_scopes() == old(self).spec_scopes().insert(
                    id,
                    ScopeView::Active {
                        ops: old(self).spec_scopes()[id]->ops.insert(key),
                        waiters: old(self).spec_scopes()[id]->waiters,
                    },
                )
                &&& final(self).spec_attachments() == old(self).spec_attachments().insert(
                    key,
                    with_scope_added(old(self).spec_attachments(), key, id),
                )
            },
    {
        broadcast use vstd::std_specs::hash::group_hash_axioms;

        let ghost scopes = self.spec_scopes();
        let raw = key.as_u64();
        let mut active = false;
        if let Some(scope) = self.get_mut(id) {
            if let Scope::Active { ops, .. } = scope {
                let _ = ops.insert(raw);
                active = true;
            }
        }
        if !active {
            assert(self.spec_scopes() =~= scopes);
            assert(self.spec_attachments() =~= old(self).spec_attachments());
            return AttachResult::Cancelled;
        }
        let ghost after = ScopeView::Active {
            ops: scopes[id]->ops.insert(key),
            waiters: scopes[id]->waiters,
        };
        assert(self.spec_scopes()[id] =~~= after) by {
            assert forall|k: OpKey| k.spec_raw() == raw implies k == key by {
                OpKey::lemma_raw_injective(k, key);
            }
        }
        assert(self.spec_scopes() =~= scopes.insert(id, after));
        let mut list = match self.attachments.remove(&raw) {
            Some(list) => list,
            None => AttachedScopes::Empty,
        };
        list.insert(id);
        let _ = self.attachments.insert(raw, list);
        proof {
            assert forall|k: OpKey| k.spec_raw() == raw implies k == key by {
                OpKey::lemma_raw_injective(k, key);
            }
            let added = with_scope_added(old(self).spec_attachments(), key, id);
            assert(list@ =~= added);
            assert(self.spec_attachments() =~= old(self).spec_attachments().insert(key, added));
            assert(self.spec_scopes() =~= scopes.insert(id, after));
            assert(added.contains(id)) by {
                if !attached_to(old(self).spec_attachments(), key).contains(id) {
                    assert(added.last() == id);
                }
            }
            assert forall|other: ScopeId, k: OpKey|
                #![trigger self.spec_scopes().contains_key(other), self.spec_attachments().contains_key(k)]
                self.spec_scopes().contains_key(other) && (self.spec_scopes()[other] matches ScopeView::Active {
                    ops,
                    ..
                } && ops.contains(k)) implies self.spec_attachments().contains_key(k)
                && self.spec_attachments()[k].contains(other) by {
                assert(scopes.contains_key(other));
                if k == key {
                    if other != id {
                        assert(old(self).spec_attachments().contains_key(key));
                        let list = old(self).spec_attachments()[key];
                        let i = choose|i: int| 0 <= i < list.len() && list[i] == other;
                        assert(added[i] == other);
                    }
                } else {
                    assert(old(self).spec_attachments().contains_key(k));
                }
            }
        }
        AttachResult::Attached
    }

    /// Remove an operation from every scope that it is attached to.
    pub fn detach(&mut self, key: OpKey)
        requires
            old(self).wf(),
        ensures
            final(self).wf(),
            final(self).spec_table() == old(self).spec_table(),
            final(self).spec_next_waiter() == old(self).spec_next_waiter(),
            final(self).spec_next_slot() == old(self).spec_next_slot(),
            final(self).spec_slot_end() == old(self).spec_slot_end(),
            final(self).follows(old(self), ScopeCall::Other),
            final(self).keeps_retired(old(self)),
            final(self).keeps_cancelled(old(self)),
            final(self).spec_attachments() == old(self).spec_attachments().remove(key),
            final(self).spec_scopes() == old(self).spec_scopes().map_values(
                |scope: ScopeView| scope.spec_detach(key),
            ),
            detached_as(old(self), key, final(self)),
    {
        broadcast use vstd::std_specs::hash::group_hash_axioms;

        let raw = key.as_u64();
        let ghost scopes = self.spec_scopes();
        let ghost attachments = self.spec_attachments();
        let Some(list) = self.attachments.remove(&raw) else {
            proof {
                assert(self.spec_attachments() =~= attachments.remove(key)) by {
                    assert forall|k: OpKey| k.spec_raw() == raw implies k == key by {
                        OpKey::lemma_raw_injective(k, key);
                    }
                }
                assert(!attachments.contains_key(key));
                assert forall|id: ScopeId| #[trigger] scopes.contains_key(id) implies scopes[id]
                    == scopes[id].spec_detach(key) by {
                    if let ScopeView::Active { ops, waiters } = scopes[id] {
                        assert(!ops.contains(key));
                        assert(ops.remove(key) =~= ops);
                    }
                }
                let after = scopes.map_values(|scope: ScopeView| scope.spec_detach(key));
                assert(self.spec_scopes() =~= scopes);
                assert(scopes =~= after);
                assert(attached(self.spec_scopes(), self.spec_attachments())) by {
                    assert(self.spec_attachments() =~= attachments);
                }
            }
            return;
        };
        let ids = list.iter();
        let mut next: usize = 0;
        proof {
            assert forall|k: OpKey| k.spec_raw() == raw implies k == key by {
                OpKey::lemma_raw_injective(k, key);
            }
            assert(self.spec_attachments() =~= attachments.remove(key));
            assert(self.spec_scopes() =~= scopes);
            assert(ids@ == attachments[key]);
        }
        while next < ids.len()
            invariant
                next <= ids@.len(),
                raw == key.spec_raw(),
                scopes == old(self).spec_scopes(),
                self.entries.wf(),
                self.entries.spec_end() <= self.generations@.len(),
                forall|i: int| 0 <= i < self.generations@.len() ==> (#[trigger] self.generations@[i]) >= 1,
                self.id == old(self).id,
                self.generations == old(self).generations,
                self.next_waiter == old(self).next_waiter,
                self.entries.spec_vacant_key() == old(self).entries.spec_vacant_key(),
                self.entries.spec_end() == old(self).entries.spec_end(),
                self.spec_attachments() == attachments.remove(key),
                self.spec_scopes().dom() == scopes.dom(),
                forall|id: ScopeId| #[trigger]
                    scopes.contains_key(id) ==> self.spec_scopes()[id] == (if ids@.subrange(
                        0,
                        next as int,
                    ).contains(id) {
                        scopes[id].spec_detach(key)
                    } else {
                        scopes[id]
                    }),
            decreases ids@.len() - next,
        {
            let id = ids[next];
            let ghost current = self.spec_scopes();
            let ghost done = ids@.subrange(0, next as int);
            if let Some(scope) = self.get_mut(id) {
                if let Scope::Active { ops, .. } = scope {
                    let _ = ops.remove(&raw);
                }
            }
            proof {
                assert forall|k: OpKey| k.spec_raw() == raw implies k == key by {
                    OpKey::lemma_raw_injective(k, key);
                }
                if scopes.contains_key(id) {
                    assert(current.dom().contains(id));
                    assert(self.spec_scopes()[id] =~~= current[id].spec_detach(key));
                    assert(scopes[id].spec_detach(key).spec_detach(key) =~~= scopes[id].spec_detach(key));
                    assert(self.spec_scopes() =~= current.insert(id, scopes[id].spec_detach(key)));
                } else {
                    assert(!current.dom().contains(id));
                }
                assert(self.spec_scopes().dom() =~= scopes.dom());
                assert(ids@.subrange(0, next + 1) =~= done.push(id));
                assert forall|k: ScopeId| #[trigger] done.push(id).contains(k) <==> done.contains(k) || k == id by {
                    if done.contains(k) {
                        let i = choose|i: int| 0 <= i < done.len() && done[i] == k;
                        assert(done.push(id)[i] == k);
                    }
                    assert(done.push(id).last() == id);
                }
            }
            next += 1;
        }
        proof {
            assert(ids@.subrange(0, next as int) =~= ids@);
            let after = scopes.map_values(|scope: ScopeView| scope.spec_detach(key));
            assert forall|id: ScopeId| #[trigger] scopes.contains_key(id) implies self.spec_scopes()[id]
                == after[id] by {
                if !ids@.contains(id) {
                    if let ScopeView::Active { ops, waiters } = scopes[id] {
                        assert(attachments.contains_key(key));
                        assert(!ops.contains(key));
                        assert(ops.remove(key) =~= ops);
                    }
                }
            }
            assert(self.spec_scopes() =~= after);
            assert forall|other: ScopeId, k: OpKey|
                #![trigger self.spec_scopes().contains_key(other), self.spec_attachments().contains_key(k)]
                self.spec_scopes().contains_key(other) && (self.spec_scopes()[other] matches ScopeView::Active {
                    ops,
                    ..
                } && ops.contains(k)) implies self.spec_attachments().contains_key(k)
                && self.spec_attachments()[k].contains(other) by {
                assert(scopes.contains_key(other));
                assert(attachments.contains_key(k));
            }
            assert forall|other: ScopeId, waiter: WaiterId|
                #![trigger self.spec_scopes().contains_key(other), waiter.spec_number()]
                self.spec_scopes().contains_key(other) && (self.spec_scopes()[other] matches ScopeView::Active {
                    waiters,
                    ..
                } && waiters.contains_key(waiter)) implies waiter.spec_number() < self.next_waiter by {
                assert(scopes.contains_key(other));
            }
        }
    }

    /// Register, or register again, to be told when a scope is cancelled.
    /// `same` says whether the registered waker, if there is one, is known to
    /// wake the same task.
    pub fn subscribe_as(
        &mut self,
        id: ScopeId,
        registration: Option<WaiterId>,
        waker: Waker,
        same: bool,
    ) -> (outcome: ScopeSubscribe)
        requires
            old(self).wf(),
            old(self).spec_takes_number(id, registration) ==> old(self).spec_next_waiter() < u64::MAX,
        ensures
            final(self).wf(),
            final(self).spec_table() == old(self).spec_table(),
            final(self).spec_attachments() == old(self).spec_attachments(),
            final(self).spec_next_slot() == old(self).spec_next_slot(),
            final(self).spec_slot_end() == old(self).spec_slot_end(),
            final(self).follows(old(self), ScopeCall::Other),
            final(self).keeps_retired(old(self)),
            final(self).keeps_cancelled(old(self)),
            subscribed_as(old(self), id, registration, waker, same, final(self), outcome),
    {
        broadcast use vstd::std_specs::hash::group_hash_axioms;

        let ghost scopes = self.spec_scopes();
        if let Some(registration) = registration {
            let mut found = false;
            let mut replaced: Option<Waker> = None;
            let mut spare: Option<Waker> = Some(waker);
            match self.get_mut(id) {
                None => {},
                Some(scope) => {
                    if let Scope::Active { waiters, .. } = scope {
                        if let Some(registered) = waiters.remove(&registration.0) {
                            found = true;
                            let waker = spare.take().unwrap();
                            if same {
                                let _ = waiters.insert(registration.0, registered);
                                replaced = Some(waker);
                            } else {
                                let _ = waiters.insert(registration.0, waker);
                                replaced = Some(registered);
                            }
                        }
                    }
                },
            }
            if found {
                proof {
                    let kept = crate::task::refreshed(scopes[id]->waiters[registration], waker, same);
                    let after = ScopeView::Active {
                        ops: scopes[id]->ops,
                        waiters: scopes[id]->waiters.insert(registration, kept),
                    };
                    assert(self.spec_scopes()[id] =~~= after);
                    assert(self.spec_scopes() =~= scopes.insert(id, after));
                    assert(self.spec_attachments() =~= old(self).spec_attachments());
                    lemma_waiter_added(scopes, id, registration, kept, self.spec_attachments(), self.next_waiter);
                }
                return ScopeSubscribe {
                    result: SubscribeResult::Pending(registration),
                    deferred_drop: replaced,
                };
            }
            proof {
                assert(scopes.contains_key(id) ==> self.spec_scopes()[id] =~~= scopes[id]);
                assert(self.spec_scopes() =~= scopes);
                assert(self.spec_attachments() =~= old(self).spec_attachments());
            }
            if self.is_cancelled(id) {
                return ScopeSubscribe { result: SubscribeResult::Ready, deferred_drop: spare };
            }
            return self.subscribe_new(id, spare.unwrap());
        }
        self.subscribe_new(id, waker)
    }

    fn subscribe_new(&mut self, id: ScopeId, waker: Waker) -> (outcome: ScopeSubscribe)
        requires
            old(self).wf(),
            old(self).spec_next_waiter() < u64::MAX,
        ensures
            final(self).wf(),
            final(self).spec_table() == old(self).spec_table(),
            final(self).spec_attachments() == old(self).spec_attachments(),
            final(self).spec_next_slot() == old(self).spec_next_slot(),
            final(self).spec_slot_end() == old(self).spec_slot_end(),
            final(self).follows(old(self), ScopeCall::Other),
            final(self).keeps_retired(old(self)),
            final(self).keeps_cancelled(old(self)),
            subscribed_as(old(self), id, None, waker, false, final(self), outcome),
    {
        broadcast use vstd::std_specs::hash::group_hash_axioms;

        let ghost scopes = self.spec_scopes();
        let registration = WaiterId(self.next_waiter);
        self.next_waiter = self.next_waiter + 1;
        assert(self.spec_scopes() =~= scopes);
        let mut spare: Option<Waker> = Some(waker);
        if let Some(scope) = self.get_mut(id) {
            if let Scope::Active { waiters, .. } = scope {
                let waker = spare.take().unwrap();
                let _ = waiters.insert(registration.0, waker);
            }
        }
        assert(self.spec_attachments() =~= old(self).spec_attachments());
        if spare.is_some() {
            assert(self.spec_scopes() =~= scopes);
            return ScopeSubscribe { result: SubscribeResult::Ready, deferred_drop: spare };
        }
        proof {
            let after = ScopeView::Active {
                ops: scopes[id]->ops,
                waiters: scopes[id]->waiters.insert(registration, waker),
            };
            assert(self.spec_scopes()[id] =~~= after);
            assert(self.spec_scopes() =~= scopes.insert(id, after));
            assert(numbered(scopes, self.next_waiter));
            lemma_waiter_added(scopes, id, registration, waker, self.spec_attachments(), self.next_waiter);
            assert(!scopes[id]->waiters.contains_key(registration)) by {
                assert(scopes.contains_key(id));
                assert(registration.spec_number() == old(self).next_waiter);
            }
        }
        ScopeSubscribe { result: SubscribeResult::Pending(registration), deferred_drop: None }
    }

    /// Register, or register again, to be told when a scope is cancelled.
    pub fn subscribe(&mut self, id: ScopeId, registration: Option<WaiterId>, waker: Waker) -> (outcome: ScopeSubscribe)
        requires
            old(self).wf(),
            old(self).spec_takes_number(id, registration) ==> old(self).spec_next_waiter() < u64::MAX,
        ensures
            final(self).wf(),
            final(self).spec_table() == old(self).spec_table(),
            final(self).spec_attachments() == old(self).spec_attachments(),
            final(self).spec_next_slot() == old(self).spec_next_slot(),
            final(self).spec_slot_end() == old(self).spec_slot_end(),
            final(self).follows(old(self), ScopeCall::Other),
            final(self).keeps_retired(old(self)),
            final(self).keeps_cancelled(old(self)),
            exists|same: bool| #[trigger]
                subscribed_as(old(self), id, registration, waker, same, final(self), outcome) && (old(
                    self,
                ).spec_registered(id, registration) matches Some(registered) ==> crate::task::judged(
                    registered,
                    waker,
                    same,
                )),
    {
        broadcast use vstd::std_specs::hash::group_hash_axioms;

        let mut same = false;
        if let Some(registration) = registration {
            if let Some(Scope::Active { waiters, .. }) = self.get(id) {
                if let Some(registered) = waiters.get(&registration.0) {
                    same = wakes_already(registered, &waker);
                }
            }
        }
        self.subscribe_as(id, registration, waker, same)
    }

    /// The waker under a registration, if the scope still has it.
    pub open spec fn spec_registered(&self, id: ScopeId, registration: Option<WaiterId>) -> Option<Waker> {
        if !self.spec_is_cancelled(id) && registration is Some
            && self.spec_scopes()[id]->waiters.contains_key(registration->0) {
            Some(self.spec_scopes()[id]->waiters[registration->0])
        } else {
            None
        }
    }

    /// Whether a registration takes a new number: it does unless it is an
    /// earlier one that is still there, or whose scope is over.
    pub open spec fn spec_takes_number(&self, id: ScopeId, registration: Option<WaiterId>) -> bool {
        match registration {
            None => true,
            Some(registration) => !self.spec_is_cancelled(id)
                && !self.spec_scopes()[id]->waiters.contains_key(registration),
        }
    }

    /// Drop a registration. Answers with its waker, if the scope still had it.
    pub fn unsubscribe(&mut self, id: ScopeId, registration: WaiterId) -> (waker: Option<Waker>)
        requires
            old(self).wf(),
        ensures
            final(self).wf(),
            final(self).spec_table() == old(self).spec_table(),
            final(self).spec_attachments() == old(self).spec_attachments(),
            final(self).spec_next_waiter() == old(self).spec_next_waiter(),
            final(self).spec_next_slot() == old(self).spec_next_slot(),
            final(self).spec_slot_end() == old(self).spec_slot_end(),
            final(self).follows(old(self), ScopeCall::Other),
            final(self).keeps_retired(old(self)),
            final(self).keeps_cancelled(old(self)),
            if old(self).spec_is_cancelled(id) {
                &&& waker is None
                &&& final(self).spec_scopes() == old(self).spec_scopes()
            } else {
                let scope = old(self).spec_scopes()[id];
                &&& waker == (if scope->waiters.contains_key(registration) {
                    Some(scope->waiters[registration])
                } else {
                    None
                })
                &&& final(self).spec_scopes() == old(self).spec_scopes().insert(
                    id,
                    ScopeView::Active { ops: scope->ops, waiters: scope->waiters.remove(registration) },
                )
            },
    {
        broadcast use vstd::std_specs::hash::group_hash_axioms;

        let ghost scopes = self.spec_scopes();
        let mut waker: Option<Waker> = None;
        if let Some(scope) = self.get_mut(id) {
            if let Scope::Active { waiters, .. } = scope {
                waker = waiters.remove(&registration.0);
            }
        }
        proof {
            assert(self.spec_attachments() =~= old(self).spec_attachments());
            if old(self).spec_is_cancelled(id) {
                assert(self.spec_scopes() =~= scopes);
            } else {
                let after = ScopeView::Active {
                    ops: scopes[id]->ops,
                    waiters: scopes[id]->waiters.remove(registration),
                };
                assert(self.spec_scopes()[id] =~~= after);
                assert(self.spec_scopes() =~= scopes.insert(id, after));
                assert forall|other: ScopeId, key: OpKey|
                    #![trigger self.spec_scopes().contains_key(other), self.spec_attachments().contains_key(key)]
                    self.spec_scopes().contains_key(other) && (self.spec_scopes()[other] matches ScopeView::Active {
                        ops,
                        ..
                    } && ops.contains(key)) implies self.spec_attachments().contains_key(key)
                    && self.spec_attachments()[key].contains(other) by {
                    assert(scopes.contains_key(other));
                    assert(old(self).spec_attachments().contains_key(key));
                }
                assert forall|other: ScopeId, waiter: WaiterId|
                    #![trigger self.spec_scopes().contains_key(other), waiter.spec_number()]
                    self.spec_scopes().contains_key(other) && (self.spec_scopes()[other] matches ScopeView::Active {
                        waiters,
                        ..
                    } && waiters.contains_key(waiter)) implies waiter.spec_number() < self.next_waiter by {
                    assert(scopes.contains_key(other));
                }
            }
        }
        waker
    }

    /// How many registrations a scope has.
    pub fn waiter_count(&self, id: ScopeId) -> (count: usize)
        requires
            self.wf(),
        ensures
            count == (if self.spec_is_cancelled(id) {
                0
            } else {
                self.spec_scopes()[id]->waiters.dom().len()
            }),
    {
        broadcast use vstd::std_specs::hash::group_hash_axioms;

        match self.get(id) {
            Some(Scope::Active { waiters, .. }) => {
                proof {
                    let view = self.spec_scopes()[id]->waiters;
                    let named = |number: u64| WaiterId(number);
                    assert(waiters@.dom().map(named) =~= view.dom()) by {
                        assert forall|id: WaiterId| view.dom().contains(id) implies waiters@.dom().map(named).contains(id) by {
                            assert(waiters@.dom().contains(id.0) && named(id.0) == id);
                        }
                    }
                    vstd::set_lib::lemma_map_size(waiters@.dom(), view.dom(), named);
                }
                waiters.len()
            },
            _ => 0,
        }
    }
}

/// The outcome of a registration.
///
/// A cancelled scope is reported at once. A registration that is still there
/// keeps its number and one of the two wakers. Otherwise the waker is kept
/// under a new number. The waker that is not kept comes back.
pub open spec fn subscribed_as(
    before: &ScopeTable,
    id: ScopeId,
    registration: Option<WaiterId>,
    waker: Waker,
    same: bool,
    after: &ScopeTable,
    outcome: ScopeSubscribe,
) -> bool {
    let scopes = before.spec_scopes();
    let number = if before.spec_takes_number(id, registration) {
        before.spec_next_waiter() + 1
    } else {
        before.spec_next_waiter() as int
    };
    &&& after.spec_next_waiter() == number
    &&& if before.spec_is_cancelled(id) {
        &&& outcome.result is Ready
        &&& outcome.deferred_drop == Some(waker)
        &&& after.spec_scopes() == scopes
    } else if before.spec_takes_number(id, registration) {
        &&& outcome.result matches SubscribeResult::Pending(fresh)
        &&& fresh.spec_number() == before.spec_next_waiter()
        &&& !scopes[id]->waiters.contains_key(fresh)
        &&& outcome.deferred_drop is None
        &&& after.spec_scopes() == scopes.insert(
            id,
            ScopeView::Active { ops: scopes[id]->ops, waiters: scopes[id]->waiters.insert(fresh, waker) },
        )
    } else {
        let waiter = registration->0;
        let registered = scopes[id]->waiters[waiter];
        &&& outcome.result == SubscribeResult::Pending(waiter)
        &&& outcome.deferred_drop == Some(
            if same {
                waker
            } else {
                registered
            },
        )
        &&& after.spec_scopes() == scopes.insert(
            id,
            ScopeView::Active {
                ops: scopes[id]->ops,
                waiters: scopes[id]->waiters.insert(waiter, crate::task::refreshed(registered, waker, same)),
            },
        )
    }
}

/// A registration with a number that was handed out keeps the books in order.
proof fn lemma_waiter_added(
    scopes: Map<ScopeId, ScopeView>,
    id: ScopeId,
    waiter: WaiterId,
    waker: Waker,
    attachments: Map<OpKey, Seq<ScopeId>>,
    next: u64,
)
    requires
        scopes.contains_key(id),
        scopes[id] is Active,
        attached(scopes, attachments),
        numbered(scopes, next),
        waiter.spec_number() < next || scopes[id]->waiters.contains_key(waiter),
    ensures
        attached(
            scopes.insert(
                id,
                ScopeView::Active { ops: scopes[id]->ops, waiters: scopes[id]->waiters.insert(waiter, waker) },
            ),
            attachments,
        ),
        numbered(
            scopes.insert(
                id,
                ScopeView::Active { ops: scopes[id]->ops, waiters: scopes[id]->waiters.insert(waiter, waker) },
            ),
            next,
        ),
{
    let after = scopes.insert(
        id,
        ScopeView::Active { ops: scopes[id]->ops, waiters: scopes[id]->waiters.insert(waiter, waker) },
    );
    assert forall|other: ScopeId, key: OpKey|
        #![trigger after.contains_key(other), attachments.contains_key(key)]
        after.contains_key(other) && (after[other] matches ScopeView::Active { ops, .. } && ops.contains(key))
            implies attachments.contains_key(key) && attachments[key].contains(other) by {
        assert(scopes.contains_key(other));
        assert(attachments.contains_key(key));
    }
    assert forall|other: ScopeId, w: WaiterId|
        #![trigger after.contains_key(other), w.spec_number()]
        after.contains_key(other) && (after[other] matches ScopeView::Active { waiters, .. }
            && waiters.contains_key(w)) implies w.spec_number() < next by {
        assert(scopes.contains_key(other));
    }
}

/// The outcome of attaching an operation to a scope.
pub open spec fn attached_as(
    before: &ScopeTable,
    id: ScopeId,
    key: OpKey,
    after: &ScopeTable,
    result: AttachResult,
) -> bool {
    if before.spec_is_cancelled(id) {
        &&& result is Cancelled
        &&& after.spec_scopes() == before.spec_scopes()
        &&& after.spec_attachments() == before.spec_attachments()
    } else {
        &&& result is Attached
        &&& after.spec_scopes() == before.spec_scopes().insert(
            id,
            ScopeView::Active {
                ops: before.spec_scopes()[id]->ops.insert(key),
                waiters: before.spec_scopes()[id]->waiters,
            },
        )
        &&& after.spec_attachments() == before.spec_attachments().insert(
            key,
            with_scope_added(before.spec_attachments(), key, id),
        )
    }
}

/// The outcome of removing an operation from its scopes.
pub open spec fn detached_as(before: &ScopeTable, key: OpKey, after: &ScopeTable) -> bool {
    &&& after.spec_attachments() == before.spec_attachments().remove(key)
    &&& after.spec_scopes() == before.spec_scopes().map_values(|scope: ScopeView| scope.spec_detach(key))
}

impl ScopeView {
    /// The scope without an operation.
    pub open spec fn spec_detach(self, key: OpKey) -> ScopeView {
        match self {
            ScopeView::Active { ops, waiters } => ScopeView::Active { ops: ops.remove(key), waiters },
            ScopeView::Cancelled => ScopeView::Cancelled,
        }
    }
}

/// The scopes that an operation was attached to.
pub open spec fn attached_to(attachments: Map<OpKey, Seq<ScopeId>>, key: OpKey) -> Seq<ScopeId> {
    if attachments.contains_key(key) {
        attachments[key]
    } else {
        Seq::empty()
    }
}

/// The scopes that an operation was attached to, and one more.
pub open spec fn with_scope_added(attachments: Map<OpKey, Seq<ScopeId>>, key: OpKey, id: ScopeId) -> Seq<ScopeId> {
    let list = attached_to(attachments, key);
    if list.contains(id) {
        list
    } else {
        list.push(id)
    }
}

impl ScopeTable {
    /// Cancelling is idempotent: what is cancelled again hands out nothing and
    /// changes nothing.
    pub proof fn law_cancel_is_idempotent(&self, id: ScopeId, again: ScopeCancel)
        requires
            self.wf(),
            self.spec_is_cancelled(id),
            self.spec_snapshot(id, again),
        ensures
            again.ops@.len() == 0,
            again.waiters@.len() == 0,
            self.spec_scopes().contains_key(id) ==> self.spec_scopes().insert(id, ScopeView::Cancelled)
                == self.spec_scopes(),
    {
        if self.spec_scopes().contains_key(id) {
            assert(self.spec_scopes().insert(id, ScopeView::Cancelled) =~= self.spec_scopes());
        }
    }

    /// A retired identity finds nothing, so whoever holds it sees a cancelled
    /// scope, whatever now occupies the slot.
    pub proof fn law_retired_scope_is_cancelled(&self, id: ScopeId)
        requires
            self.wf(),
            self.retired(id),
        ensures
            !self.spec_scopes().contains_key(id),
            self.spec_is_cancelled(id),
    {
    }

    /// Two scopes that exist at a time have slots of their own.
    pub proof fn law_scopes_share_no_slot(&self, a: ScopeId, b: ScopeId)
        requires
            self.wf(),
            self.spec_scopes().contains_key(a),
            self.spec_scopes().contains_key(b),
            a.spec_slot() == b.spec_slot(),
        ensures
            a == b,
    {
        ScopeId::law_parts_determine(a, b);
    }

    /// A scope is cancelled if and only if a call cancelled or removed it since
    /// it was made. So it stays cancelled for good, and calls that name other
    /// scopes do not touch it.
    pub proof fn law_cancelled_for_good(tables: Seq<ScopeTable>, calls: Seq<ScopeCall>, id: ScopeId)
        requires
            tables.len() == calls.len() + 1,
            forall|i: int|
                0 <= i < calls.len() ==> (#[trigger] tables[i + 1]).follows(&tables[i], calls[i]),
            calls.len() > 0,
            calls[0] == ScopeCall::Insert(id),
        ensures
            tables.last().issued(id),
            tables.last().spec_is_cancelled(id) <==> exists|i: int|
                1 <= i < calls.len() && (#[trigger] calls[i] == ScopeCall::Cancel(id) || calls[i]
                    == ScopeCall::Remove(id)),
        decreases calls.len(),
    {
        let last = calls.len() - 1;
        assert(tables[last + 1].follows(&tables[last], calls[last]));
        if last > 0 {
            let shorter = tables.drop_last();
            let fewer = calls.drop_last();
            assert forall|i: int| 0 <= i < fewer.len() implies (#[trigger] shorter[i + 1]).follows(
                &shorter[i],
                fewer[i],
            ) by {
                assert(tables[i + 1].follows(&tables[i], calls[i]));
            }
            Self::law_cancelled_for_good(shorter, fewer, id);
            assert(shorter.last() == tables[last]);
            assert(tables[last + 1].spec_is_cancelled(id) <==> tables[last].spec_is_cancelled(id) || calls[last]
                == ScopeCall::Cancel(id) || calls[last] == ScopeCall::Remove(id));
            if exists|i: int|
                1 <= i < fewer.len() && (#[trigger] fewer[i] == ScopeCall::Cancel(id) || fewer[i]
                    == ScopeCall::Remove(id)) {
                let i = choose|i: int|
                    1 <= i < fewer.len() && (#[trigger] fewer[i] == ScopeCall::Cancel(id) || fewer[i]
                        == ScopeCall::Remove(id));
                assert(calls[i] == fewer[i]);
            }
            if exists|i: int|
                1 <= i < calls.len() && (#[trigger] calls[i] == ScopeCall::Cancel(id) || calls[i]
                    == ScopeCall::Remove(id)) {
                let i = choose|i: int|
                    1 <= i < calls.len() && (#[trigger] calls[i] == ScopeCall::Cancel(id) || calls[i]
                        == ScopeCall::Remove(id));
                if i < last {
                    assert(fewer[i] == calls[i]);
                }
            }
        }
    }

    /// The slot of a scope that has used up its generations is never used again:
    /// every scope made later has another slot.
    pub proof fn law_exhausted_slot_is_skipped(
        tables: Seq<ScopeTable>,
        calls: Seq<ScopeCall>,
        id: ScopeId,
        later: ScopeId,
    )
        requires
            tables.len() == calls.len() + 1,
            forall|i: int| 0 <= i < tables.len() ==> (#[trigger] tables[i]).wf(),
            forall|i: int|
                0 <= i < calls.len() ==> (#[trigger] tables[i + 1]).follows(&tables[i], calls[i]),
            tables[0].spec_scopes().contains_key(id),
            id.spec_generation() == u32::MAX,
        ensures
            tables.last().spec_scopes().contains_key(id),
            calls.len() > 0 && calls.last() == ScopeCall::Insert(later) ==> later.spec_slot() != id.spec_slot(),
        decreases calls.len(),
    {
        if calls.len() > 0 {
            let last = calls.len() - 1;
            let shorter = tables.drop_last();
            let fewer = calls.drop_last();
            assert(tables[last + 1].follows(&tables[last], calls[last]));
            assert forall|i: int| 0 <= i < fewer.len() implies (#[trigger] shorter[i + 1]).follows(
                &shorter[i],
                fewer[i],
            ) by {
                assert(tables[i + 1].follows(&tables[i], calls[i]));
            }
            assert forall|i: int| 0 <= i < shorter.len() implies (#[trigger] shorter[i]).wf() by {
                assert(tables[i].wf());
            }
            Self::law_exhausted_slot_is_skipped(shorter, fewer, id, later);
            assert(shorter.last() == tables[last]);
            assert(tables.last() == tables[last + 1]);
            assert(tables[last + 1].spec_scopes().contains_key(id));
            if calls.last() == ScopeCall::Insert(later) && later.spec_slot() == id.spec_slot() {
                tables.last().law_scopes_share_no_slot(later, id);
                assert(tables[last].issued(id));
            }
        }
    }

    /// An identity of another table finds nothing.
    pub proof fn law_foreign_scope_is_cancelled(&self, id: ScopeId)
        requires
            self.wf(),
            id.spec_table() != self.spec_table(),
        ensures
            !self.spec_scopes().contains_key(id),
            self.spec_is_cancelled(id),
    {
    }

    /// Every operation of an active scope is known to be attached to it, so
    /// detaching an operation reaches every scope that would cancel it.
    pub proof fn law_active_operations_are_attached(&self, id: ScopeId, key: OpKey)
        requires
            self.wf(),
            !self.spec_is_cancelled(id),
            self.spec_scopes()[id]->ops.contains(key),
        ensures
            self.spec_attachments().contains_key(key),
            self.spec_attachments()[key].contains(id),
    {
        assert(self.spec_scopes().contains_key(id));
        assert(self.spec_attachments().contains_key(key));
    }
}

impl ScopeTable {
    /// A scope is cancelled if it does not exist or was cancelled, and not otherwise.
    pub proof fn law_live_scopes_are_not_cancelled(&self, id: ScopeId, cancelled: bool)
        requires
            self.wf(),
            call_ensures(ScopeTable::is_cancelled, (self, id), cancelled),
        ensures
            !self.spec_scopes().contains_key(id) ==> cancelled,
            self.spec_scopes().contains_key(id) ==> (cancelled <==> self.spec_scopes()[id] is Cancelled),
    {
    }

    /// Cancelling a scope hands out every operation that is attached to it, once, and
    /// none that is not.
    pub proof fn law_cancel_reaches_every_operation(&self, id: ScopeId, cancelled: ScopeCancel, key: OpKey)
        requires
            self.spec_snapshot(id, cancelled),
        ensures
            self.spec_scopes().contains_key(id) && self.spec_scopes()[id] is Active ==> (cancelled.ops@.contains(key)
                <==> self.spec_scopes()[id]->ops.contains(key)),
            cancelled.ops@.no_duplicates(),
            self.spec_is_cancelled(id) ==> !cancelled.ops@.contains(key),
    {
    }

    /// Cancelling a scope hands out the waker of everybody who registered for it.
    pub proof fn law_cancel_wakes_everybody(&self, id: ScopeId, cancelled: ScopeCancel, waiter: WaiterId)
        requires
            self.spec_snapshot(id, cancelled),
            self.spec_scopes().contains_key(id),
            self.spec_scopes()[id] matches ScopeView::Active { waiters, .. } && waiters.contains_key(waiter),
        ensures
            cancelled.waiters@.contains(self.spec_scopes()[id]->waiters[waiter]),
    {
        let waiters = self.spec_scopes()[id]->waiters;
        let order = choose|order: Seq<WaiterId>| #[trigger] in_order(waiters, order, cancelled.waiters@);
        assert(order.contains(waiter));
        let i = choose|i: int| 0 <= i < order.len() && order[i] == waiter;
        assert(cancelled.waiters@[i] == waiters[waiter]);
    }

    /// Cancelling a scope wakes only those who registered for it.
    pub proof fn law_cancel_wakes_nobody_else(&self, id: ScopeId, cancelled: ScopeCancel, i: int) -> (waiter: WaiterId)
        requires
            self.spec_snapshot(id, cancelled),
            0 <= i < cancelled.waiters@.len(),
        ensures
            !self.spec_is_cancelled(id),
            self.spec_scopes()[id]->waiters.contains_key(waiter),
            self.spec_scopes()[id]->waiters[waiter] == cancelled.waiters@[i],
    {
        let waiters = self.spec_scopes()[id]->waiters;
        let order = choose|order: Seq<WaiterId>| #[trigger] in_order(waiters, order, cancelled.waiters@);
        assert(order.contains(order[i]));
        order[i]
    }

    /// An operation that is attached to a live scope is handed out when the scope is
    /// cancelled, and so is everything that was attached before. One that comes too
    /// late is told so, and attached to nothing.
    pub proof fn law_attached_operation_is_cancelled_with_its_scope(
        &self,
        id: ScopeId,
        key: OpKey,
        after: ScopeTable,
        result: AttachResult,
        cancelled: ScopeCancel,
        other: OpKey,
    )
        requires
            attached_as(self, id, key, &after, result),
            after.spec_snapshot(id, cancelled),
        ensures
            self.spec_scopes().contains_key(id) && self.spec_scopes()[id] is Active ==> {
                &&& result is Attached
                &&& cancelled.ops@.contains(key)
                &&& self.spec_scopes()[id]->ops.contains(other) ==> cancelled.ops@.contains(other)
            },
            !self.spec_scopes().contains_key(id) || self.spec_scopes()[id] is Cancelled ==> result is Cancelled
                && cancelled.ops@.len() == 0,
    {
    }

    /// An operation that is over is handed out by no scope any more; what else a scope
    /// hands out stays.
    pub proof fn law_detached_operation_is_not_cancelled(
        &self,
        key: OpKey,
        after: ScopeTable,
        id: ScopeId,
        cancelled: ScopeCancel,
        other: OpKey,
    )
        requires
            detached_as(self, key, &after),
            after.spec_snapshot(id, cancelled),
            other != key,
        ensures
            !cancelled.ops@.contains(key),
            self.spec_is_cancelled(id) <==> after.spec_is_cancelled(id),
            !self.spec_is_cancelled(id) ==> (cancelled.ops@.contains(other) <==> self.spec_scopes()[id]->ops.contains(
                other,
            )),
            !self.spec_is_cancelled(id) ==> after.spec_scopes()[id]->waiters == self.spec_scopes()[id]->waiters,
    {
    }

    /// Whoever registers with a live scope is told to wait, and is woken when the
    /// scope is cancelled: through the waker that it brought last, unless the one that
    /// it left before wakes it already. Whoever comes too late is told at once.
    pub proof fn law_registered_task_is_woken_by_the_cancellation(
        &self,
        id: ScopeId,
        registration: Option<WaiterId>,
        waker: Waker,
        same: bool,
        after: ScopeTable,
        outcome: ScopeSubscribe,
        cancelled: ScopeCancel,
    )
        requires
            subscribed_as(self, id, registration, waker, same, &after, outcome),
            after.spec_snapshot(id, cancelled),
        ensures
            !self.spec_scopes().contains_key(id) || self.spec_scopes()[id] is Cancelled ==> outcome.result is Ready,
            self.spec_scopes().contains_key(id) && self.spec_scopes()[id] is Active ==> {
                let renewed = registration is Some && self.spec_scopes()[id]->waiters.contains_key(registration->0);
                &&& outcome.result is Pending
                &&& renewed ==> outcome.result == SubscribeResult::Pending(registration->0)
                &&& !renewed || !same ==> cancelled.waiters@.contains(waker)
                &&& renewed && same ==> cancelled.waiters@.contains(self.spec_scopes()[id]->waiters[registration->0])
            },
    {
        if !self.spec_is_cancelled(id) {
            let waiter = outcome.result->Pending_0;
            after.law_cancel_wakes_everybody(id, cancelled, waiter);
        }
    }
}

impl ScopeTable {
    /// Every registration gets a number that no earlier one got, and keeps it when it is
    /// renewed: whoever registers next is told apart from everybody who registered before.
    pub proof fn law_registrations_are_told_apart(
        &self,
        id: ScopeId,
        waker: Waker,
        same: bool,
        after: ScopeTable,
        first: ScopeSubscribe,
        next: ScopeId,
        registration: Option<WaiterId>,
        other: Waker,
        again: bool,
        last: ScopeTable,
        second: ScopeSubscribe,
    )
        requires
            subscribed_as(self, id, None, waker, same, &after, first),
            subscribed_as(&after, next, registration, other, again, &last, second),
        ensures
            first.result matches SubscribeResult::Pending(earlier) ==> (second.result matches SubscribeResult::Pending(
                later,
            ) ==> (registration is None ==> earlier != later)),
            after.spec_next_waiter() == self.spec_next_waiter() + 1,
            registration matches Some(waiter) ==> (after.spec_scopes().contains_key(next) && after.spec_scopes()[next]
                is Active && after.spec_scopes()[next]->waiters.contains_key(waiter) ==> last.spec_next_waiter()
                == after.spec_next_waiter() && second.result == SubscribeResult::Pending(waiter)),
    {
    }

    /// Of two wakers for one registration the one that is not kept is handed out, to be
    /// dropped later; a waker for a scope that is cancelled is handed out too.
    pub proof fn law_other_waker_is_dropped_later(
        &self,
        id: ScopeId,
        registration: Option<WaiterId>,
        waker: Waker,
        same: bool,
        after: ScopeTable,
        outcome: ScopeSubscribe,
    )
        requires
            subscribed_as(self, id, registration, waker, same, &after, outcome),
        ensures
            outcome.result is Ready ==> outcome.deferred_drop == Some(waker),
            outcome.result matches SubscribeResult::Pending(waiter) ==> {
                let kept = after.spec_scopes()[id]->waiters[waiter];
                let renewed = self.spec_scopes()[id]->waiters.contains_key(waiter);
                &&& renewed && same ==> kept == self.spec_scopes()[id]->waiters[waiter] && outcome.deferred_drop
                    == Some(waker)
                &&& renewed && !same ==> kept == waker && outcome.deferred_drop == Some(
                    self.spec_scopes()[id]->waiters[waiter],
                )
                &&& !renewed ==> kept == waker && outcome.deferred_drop is None
            },
    {
    }

    /// Somebody is registered with a live scope under a number that was given out for it
    /// and not taken back, and nowhere else.
    pub proof fn law_who_is_registered(&self, id: ScopeId, waiter: WaiterId)
        ensures
            self.spec_registered(id, None) is None,
            self.spec_scopes().contains_key(id) && self.spec_scopes()[id] is Active ==> (self.spec_registered(
                id,
                Some(waiter),
            ) is Some <==> self.spec_scopes()[id]->waiters.contains_key(waiter)),
            self.spec_registered(id, Some(waiter)) matches Some(waker) ==> waker
                == self.spec_scopes()[id]->waiters[waiter],
            !self.spec_scopes().contains_key(id) || self.spec_scopes()[id] is Cancelled ==> self.spec_registered(
                id,
                Some(waiter),
            ) is None,
    {
    }
}

/// An operation that is attached to a scope is attached to what it was before, in the
/// same order, and to that scope once.
pub proof fn law_operation_keeps_its_scopes(
    attachments: Map<OpKey, Seq<ScopeId>>,
    key: OpKey,
    id: ScopeId,
    other: ScopeId,
)
    ensures
        with_scope_added(attachments, key, id).contains(id),
        attachments.contains_key(key) && attachments[key].contains(other) ==> with_scope_added(
            attachments,
            key,
            id,
        ).contains(other),
        with_scope_added(attachments, key, id).contains(other) ==> other == id || attachments.contains_key(key)
            && attachments[key].contains(other),
        attachments.contains_key(key) ==> with_scope_added(attachments, key, id).take(attachments[key].len() as int)
            == attachments[key],
        attachments.contains_key(key) && attachments[key].no_duplicates() ==> with_scope_added(
            attachments,
            key,
            id,
        ).no_duplicates(),
{
    let list = attached_to(attachments, key);
    let added = with_scope_added(attachments, key, id);
    if !list.contains(id) {
        assert(added[list.len() as int] == id);
    }
    if list.contains(other) {
        let i = choose|i: int| 0 <= i < list.len() && list[i] == other;
        assert(added[i] == other);
    }
    assert(added.take(list.len() as int) =~= list);
}

} // verus!
