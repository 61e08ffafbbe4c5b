//! Lifecycles of kqueue operations.
//!
//! The platform reports when a descriptor can make progress. An operation then
//! tries its system call again, so an operation is either attempted, or waits
//! for one readiness filter, or waits for a blocking job.
use crate::driver::op_table::{CompletionKey, OpKey, OpTable};
use crate::driver::ops::{defer, Completed, Completion, DeferredAction, IgnoredOp, Op};
use crate::error::{ErrorKind, IoError};
use crate::task::{bring, Poll};
use std::collections::HashMap;
use std::task::Waker;
use vstd::prelude::*;

verus! {

/// What a descriptor has to become ready for.
#[derive(Clone, Copy, Debug, PartialEq, Eq, Hash, Structural)]
pub enum Direction {
    Read,
    Write,
}

/// A readiness filter: a descriptor and a direction.
#[derive(Clone, Copy, Debug, PartialEq, Eq, Structural)]
pub struct Interest {
    pub fd: i32,
    pub direction: Direction,
}

impl Interest {
    pub fn new(fd: i32, direction: Direction) -> (interest: Interest)
        ensures
            interest == (Interest { fd, direction }),
    {
        Interest { fd, direction }
    }

    /// Whether an event is about this filter, and says that it is ready.
    pub fn matches_event(self, event: KqueueEvent) -> (matched: bool)
        ensures
            matched == (self == event.spec_interest() && match self.direction {
                Direction::Read => event.readable,
                Direction::Write => event.writable,
            }),
    {
        self.fd == event.fd && self.direction == event.direction && match self.direction {
            Direction::Read => event.readable,
            Direction::Write => event.writable,
        }
    }

    /// A number that no other filter has.
    spec fn spec_code(self) -> int {
        2 * (self.fd + 0x8000_0000) + match self.direction {
            Direction::Read => 0int,
            Direction::Write => 1int,
        }
    }

    fn code(self) -> (code: u64)
        ensures
            code == self.spec_code(),
    {
        let base: u64 = (self.fd as i64 + 0x8000_0000) as u64;
        match self.direction {
            Direction::Read => 2 * base,
            Direction::Write => 2 * base + 1,
        }
    }
}

/// What an attempt at an operation came to. `J` is a blocking job.
pub enum KqueueAttempt<J, B = ()> {
    Ready(Completion<B>),
    /// The descriptor is not ready.
    Register { interest: Interest, on_ready: KqueueReadyAction },
    /// Only a blocking thread can do this.
    Blocking(J),
}

/// What a ready filter means for the operation that waits for it.
///
/// Most operations try their system call again. For a connect, readiness is
/// the end: its result is the pending error of the socket.
#[derive(Clone, Copy, Debug, PartialEq, Eq, Structural)]
pub enum KqueueReadyAction {
    Retry,
    CompleteSocketError,
}

/// Lifecycle of an operation.
pub enum State<P, B = ()> {
    Submitted,
    Ready,
    Waiting(Waker),
    Completed(Completion<B>),
    /// The future was dropped while a blocking job was running. The payload
    /// takes its late result.
    Ignored(P),
}

impl<P, B> State<P, B> {
    /// The waker of the task that waits, if one does.
    pub open spec fn spec_registered(self) -> Option<Waker> {
        match self {
            State::Waiting(waker) => Some(waker),
            _ => None,
        }
    }

    /// The state after a terminal completion.
    pub open spec fn spec_complete(self, completion: Completion<B>) -> State<P, B> {
        match self {
            State::Submitted | State::Ready | State::Waiting(_) => State::Completed(completion),
            State::Ignored(_) => State::Submitted,
            State::Completed(first) => State::Completed(first),
        }
    }

    /// What a terminal completion asks of the driver.
    pub open spec fn spec_completed(self, completion: Completion<B>) -> Completed<P, B> {
        match self {
            State::Submitted | State::Ready | State::Completed(_) => Completed {
                remove: false,
                wake: None,
                cleanup: None,
            },
            State::Waiting(waker) => Completed { remove: false, wake: Some(waker), cleanup: None },
            State::Ignored(payload) => Completed {
                remove: true,
                wake: None,
                cleanup: Some(
                    DeferredAction::Cleanup { payload: IgnoredOp::Typed(payload), completion },
                ),
            },
        }
    }

    /// Apply a terminal completion. A second one is stale input.
    pub fn complete(&mut self, completion: Completion<B>) -> (outcome: Completed<P, B>)
        ensures
            *final(self) == old(self).spec_complete(completion),
            outcome == old(self).spec_completed(completion),
    {
        let mut state = State::Submitted;
        std::mem::swap(self, &mut state);
        match state {
            State::Submitted | State::Ready => {
                *self = State::Completed(completion);
                Completed { remove: false, wake: None, cleanup: None }
            },
            State::Waiting(waker) => {
                *self = State::Completed(completion);
                Completed { remove: false, wake: Some(waker), cleanup: None }
            },
            State::Ignored(payload) => {
                let cleanup = DeferredAction::Cleanup { payload: IgnoredOp::Typed(payload), completion };
                Completed { remove: true, wake: None, cleanup: Some(cleanup) }
            },
            State::Completed(first) => {
                *self = State::Completed(first);
                Completed { remove: false, wake: None, cleanup: None }
            },
        }
    }

    /// The state once the filter is ready.
    pub open spec fn spec_ready(self) -> State<P, B> {
        match self {
            State::Submitted | State::Waiting(_) => State::Ready,
            _ => self,
        }
    }

    /// What readiness asks of the driver.
    pub open spec fn spec_readied(self) -> Completed<P, B> {
        Completed {
            remove: self is Ignored,
            wake: match self {
                State::Waiting(waker) => Some(waker),
                _ => None,
            },
            cleanup: None,
        }
    }

    /// Apply readiness. Answers whether the slot is no longer needed, and which
    /// task to wake.
    pub fn ready(&mut self) -> (outcome: (bool, Option<Waker>))
        ensures
            *final(self) == old(self).spec_ready(),
            outcome.0 == old(self).spec_readied().remove,
            outcome.1 == old(self).spec_readied().wake,
    {
        let mut state = State::Ready;
        std::mem::swap(self, &mut state);
        match state {
            State::Submitted | State::Ready => (false, None),
            State::Waiting(waker) => (false, Some(waker)),
            State::Ignored(payload) => {
                *self = State::Ignored(payload);
                (true, None)
            },
            State::Completed(completion) => {
                *self = State::Completed(completion);
                (false, None)
            },
        }
    }

    /// The first terminal completion is the one that is kept.
    pub proof fn law_first_completion_wins(self, first: Completion<B>, second: Completion<B>)
        requires
            !(self is Ignored),
        ensures
            self.spec_complete(first).spec_complete(second) == self.spec_complete(first),
            !(self is Completed) ==> self.spec_complete(first) == State::<P, B>::Completed(first),
    {
    }

    /// Readiness never undoes a completion, and repeating it changes nothing
    /// and wakes nobody.
    pub proof fn law_readiness_is_idempotent(self)
        ensures
            self.spec_ready().spec_ready() == self.spec_ready(),
            self.spec_ready().spec_readied().wake is None,
            self is Completed ==> self.spec_ready() == self,
    {
    }
}

/// A filter that an operation waits for.
#[derive(Clone, Copy, Debug, PartialEq, Eq, Structural)]
pub struct Registration {
    pub interest: Interest,
    pub on_ready: KqueueReadyAction,
}

/// An operation and the filter that it waits for.
pub struct Slot<P, B = ()> {
    pub state: State<P, B>,
    pub registration: Option<Registration>,
}

/// A decoded readiness event.
#[derive(Clone, Copy, Debug, PartialEq, Eq, Structural)]
pub struct KqueueEvent {
    pub key: OpKey,
    pub fd: i32,
    pub direction: Direction,
    pub readable: bool,
    pub writable: bool,
}

impl KqueueEvent {
    /// The filter that this event is about.
    pub open spec fn spec_interest(self) -> Interest {
        Interest { fd: self.fd, direction: self.direction }
    }
}

/// The filter of a raw event.
#[derive(Clone, Copy, Debug, PartialEq, Eq, Structural)]
pub enum EventFilter {
    Read(i32),
    Write(i32),
    Other,
}

/// Decode a raw event. Wakeups and foreign filters are no operation events.
/// The end of the input makes a reader ready, and a writer as well.
pub fn decode_event(udata: u64, filter: EventFilter, eof: bool) -> (event: Option<KqueueEvent>)
    ensures
        event == (match (CompletionKey::spec_decode(udata), filter) {
            (Some(CompletionKey::Operation(key)), EventFilter::Read(fd)) => Some(
                KqueueEvent { key, fd, direction: Direction::Read, readable: true, writable: eof },
            ),
            (Some(CompletionKey::Operation(key)), EventFilter::Write(fd)) => Some(
                KqueueEvent { key, fd, direction: Direction::Write, readable: false, writable: true },
            ),
            _ => None,
        }),
{
    let key = match CompletionKey::decode(udata) {
        Some(CompletionKey::Operation(key)) => key,
        _ => {
            return None;
        },
    };
    match filter {
        EventFilter::Read(fd) => Some(
            KqueueEvent { key, fd, direction: Direction::Read, readable: true, writable: eof },
        ),
        EventFilter::Write(fd) => Some(
            KqueueEvent { key, fd, direction: Direction::Write, readable: false, writable: true },
        ),
        EventFilter::Other => None,
    }
}

/// Error number: the call was interrupted.
pub const EINTR: i32 = 4;

/// What follows a wait for events.
pub enum WaitStep {
    /// So many events are there. Another thread may wake the driver again.
    Done(usize),
    Retry,
    Fail(IoError),
}

/// Judge a wait for events. One that was interrupted goes on, for as long as is
/// left.
pub fn wait_step(result: Result<usize, IoError>) -> (step: WaitStep)
    ensures
        step == (match result {
            Ok(count) => WaitStep::Done(count),
            Err(error) => if error == IoError::Os(EINTR) {
                WaitStep::Retry
            } else {
                WaitStep::Fail(error)
            },
        }),
{
    match result {
        Ok(count) => WaitStep::Done(count),
        Err(error) => match error.raw_os_error() {
            Some(code) => if code == EINTR {
                WaitStep::Retry
            } else {
                WaitStep::Fail(error)
            },
            None => WaitStep::Fail(error),
        },
    }
}

/// Error number: there is no such entry.
pub const ENOENT: i64 = 2;

/// Error number: the reading end is closed.
pub const EPIPE: i64 = 32;

/// The kernel's answer to one change of a filter.
#[derive(Clone, Copy, Debug)]
pub struct Receipt {
    /// Whether `data` is an error number.
    pub error: bool,
    pub data: i64,
}

impl Receipt {
    /// Whether this answer is a failure. Removing a filter that is not there,
    /// and watching a pipe without a reader, are none.
    pub open spec fn failed(self) -> bool {
        self.error && self.data != 0 && self.data != ENOENT && self.data != EPIPE
    }
}

/// Whether this is the judgement of the kernel's answers to a list of changes: the
/// first failure counts.
pub open spec fn receipts_judged(receipts: Seq<Receipt>, result: Result<(), IoError>) -> bool {
    match result {
        Ok(_) => forall|i: int| 0 <= i < receipts.len() ==> !(#[trigger] receipts[i]).failed(),
        Err(error) => exists|i: int|
            0 <= i < receipts.len() && (#[trigger] receipts[i]).failed() && error == IoError::Os(
                receipts[i].data as i32,
            ) && forall|j: int| 0 <= j < i ==> !(#[trigger] receipts[j]).failed(),
    }
}

/// Judge the kernel's answers to a list of changes: the first failure counts.
pub fn check_receipts(receipts: &Vec<Receipt>) -> (result: Result<(), IoError>)
    ensures
        result is Ok <==> forall|i: int| 0 <= i < receipts@.len() ==> !(#[trigger] receipts@[i]).failed(),
        receipts_judged(receipts@, result),
        result matches Err(error) ==> exists|i: int|
            0 <= i < receipts@.len() && (#[trigger] receipts@[i]).failed() && error == IoError::Os(
                receipts@[i].data as i32,
            ) && forall|j: int| 0 <= j < i ==> !(#[trigger] receipts@[j]).failed(),
{
    let mut next: usize = 0;
    while next < receipts.len()
        invariant
            next <= receipts@.len(),
            forall|i: int| 0 <= i < next ==> !(#[trigger] receipts@[i]).failed(),
        decreases receipts@.len() - next,
    {
        let receipt = receipts[next];
        if receipt.error && receipt.data != 0 && receipt.data != ENOENT && receipt.data != EPIPE {
            assert(receipts@[next as int].failed());
            return Err(IoError::from_raw_os_error(#[verifier::truncate] (receipt.data as i32)));
        }
        next += 1;
    }
    Ok(())
}

/// The completion of an operation whose result is the pending error of its
/// socket.
pub fn socket_error_completion<B>(outcome: Result<(), IoError>) -> (completion: Completion<B>)
    ensures
        completion == spec_socket_error_completion::<B>(outcome),
{
    match outcome {
        Ok(()) => Completion::new(Ok(0)),
        Err(error) => Completion::new(Err(error)),
    }
}

/// The completion of an operation whose result is the pending error of its
/// socket.
pub open spec fn spec_socket_error_completion<B>(outcome: Result<(), IoError>) -> Completion<B> {
    Completion {
        result: match outcome {
            Ok(()) => Ok(0),
            Err(error) => Err(error),
        },
        flags: 0,
        blocking_value: None,
    }
}

/// Whether the driver was already told to wake up, and whether it still listens.
pub struct WakeupState {
    closed: bool,
    notified: bool,
}

impl WakeupState {
    pub closed spec fn spec_closed(&self) -> bool {
        self.closed
    }

    pub closed spec fn spec_notified(&self) -> bool {
        self.notified
    }

    pub fn new() -> (state: Self)
        ensures
            !state.spec_closed(),
            !state.spec_notified(),
    {
        WakeupState { closed: false, notified: false }
    }

    /// Ask for a wakeup. Answers whether a notification has to be sent: not
    /// after the driver has closed, and not while one is under way.
    pub fn wake(&mut self) -> (notify: bool)
        ensures
            notify == (!old(self).spec_closed() && !old(self).spec_notified()),
            final(self).spec_closed() == old(self).spec_closed(),
            final(self).spec_notified() == (old(self).spec_notified() || !old(self).spec_closed()),
            woken_as(old(self), final(self), notify),
    {
        if self.closed {
            return false;
        }
        let notify = !self.notified;
        self.notified = true;
        notify
    }

    /// The driver has seen the notification.
    pub fn consumed(&mut self)
        ensures
            !final(self).spec_notified(),
            final(self).spec_closed() == old(self).spec_closed(),
            consumed_as(old(self), final(self)),
    {
        self.notified = false;
    }

    /// The driver no longer listens.
    pub fn close(&mut self)
        ensures
            final(self).spec_closed(),
            final(self).spec_notified() == old(self).spec_notified(),
    {
        self.closed = true;
    }
}

/// The outcome of asking for a wakeup.
pub open spec fn woken_as(before: &WakeupState, after: &WakeupState, notify: bool) -> bool {
    &&& notify == (!before.spec_closed() && !before.spec_notified())
    &&& after.spec_closed() == before.spec_closed()
    &&& after.spec_notified() == (before.spec_notified() || !before.spec_closed())
}

/// The outcome of seeing a notification.
pub open spec fn consumed_as(before: &WakeupState, after: &WakeupState) -> bool {
    &&& after.spec_closed() == before.spec_closed()
    &&& !after.spec_notified()
}

/// Operations and filters of one queue.
pub struct KqueueBackend<P, B = ()> {
    ops: OpTable<Slot<P, B>>,
    interests: HashMap<u64, OpKey>,
    shutting_down: bool,
}

impl<P, B> KqueueBackend<P, B> {
    pub closed spec fn spec_ops(&self) -> Map<OpKey, Slot<P, B>> {
        self.ops@
    }

    /// The operation that waits for each filter.
    pub closed spec fn spec_interests(&self) -> Map<Interest, OpKey> {
        Map::new(
            |interest: Interest| self.interests@.contains_key(interest.spec_code() as u64),
            |interest: Interest| self.interests@[interest.spec_code() as u64],
        )
    }

    pub closed spec fn retired(&self, key: OpKey) -> bool {
        self.ops.retired(key)
    }

    /// What was retired stays retired, and the key of an operation that is gone
    /// is retired.
    pub open spec fn retires(&self, before: &Self) -> bool {
        &&& forall|key: OpKey|
            #![trigger before.retired(key)]
            #![trigger self.retired(key)]
            before.retired(key) ==> self.retired(key)
        &&& forall|key: OpKey|
            #![trigger before.spec_ops().contains_key(key)]
            #![trigger self.retired(key)]
            before.spec_ops().contains_key(key) && !self.spec_ops().contains_key(key) ==> self.retired(key)
    }

    /// Keys are retired, and the table takes no more room than before.
    pub open spec fn continues(&self, before: &Self) -> bool {
        &&& self.retires(before)
        &&& self.spec_slots() == before.spec_slots()
    }

    /// Keys are retired, and the table has room for one operation more.
    pub open spec fn extends(&self, before: &Self) -> bool {
        &&& self.retires(before)
        &&& self.spec_slots() <= before.spec_slots() + 1
    }

    /// As long as the table has fewer slots than keys can name, there is a key
    /// for the next operation.
    pub proof fn law_room_is_left(&self)
        requires
            self.wf(),
            self.spec_slots() < crate::driver::op_table::SLOT_LIMIT,
        ensures
            !self.is_exhausted(),
    {
        self.ops.law_room_is_left();
    }

    /// A retired key finds nothing, and is never handed out again: whoever still
    /// holds it cannot reach a later operation.
    pub proof fn law_stale_key_finds_nothing(&self, key: OpKey)
        requires
            self.wf(),
            self.retired(key),
        ensures
            !self.spec_ops().contains_key(key),
    {
        self.ops.law_retired_key_finds_nothing(key);
    }

    pub closed spec fn is_exhausted(&self) -> bool {
        self.ops.is_exhausted()
    }

    /// How many slots the table of operations has.
    pub closed spec fn spec_slots(&self) -> nat {
        self.ops.spec_slots()
    }

    pub closed spec fn spec_shutting_down(&self) -> bool {
        self.shutting_down
    }

    /// Whoever waits for a filter is found under that filter. So no two
    /// operations wait for the same one.
    pub closed spec fn wf(&self) -> bool {
        &&& self.ops.wf()
        &&& registered(self.spec_ops(), self.spec_interests())
    }

    /// No two operations wait for the same filter.
    pub proof fn law_one_waiter_per_filter(&self, a: OpKey, b: OpKey)
        requires
            self.wf(),
            self.spec_ops().contains_key(a),
            self.spec_ops().contains_key(b),
            self.spec_ops()[a].registration matches Some(first) && self.spec_ops()[b].registration matches Some(
                second,
            ) && first.interest == second.interest,
        ensures
            a == b,
    {
    }

    pub fn has_interest(&self, interest: Interest) -> (taken: bool)
        ensures
            taken == self.spec_interests().contains_key(interest),
    {
        broadcast use vstd::std_specs::hash::group_hash_axioms;

        self.interests.contains_key(&interest.code())
    }
}

/// Whoever waits for a filter is found under that filter.
pub open spec fn registered<P, B>(ops: Map<OpKey, Slot<P, B>>, interests: Map<Interest, OpKey>) -> bool {
    forall|key: OpKey| #[trigger]
        ops.contains_key(key) ==> (ops[key].registration matches Some(registration) ==> interests.contains_key(
            registration.interest,
        ) && interests[registration.interest] == key)
}

/// Operations, filters and deferred work while a batch of events is gone
/// through.
#[verifier::ext_equal]
pub struct KqueueView<P, B> {
    pub ops: Map<OpKey, Slot<P, B>>,
    pub interests: Map<Interest, OpKey>,
    pub deferred: Seq<DeferredAction<P, B>>,
}

/// A readiness event, and what the sockets that it is about report as their
/// pending error, should an operation ask for it.
#[derive(Clone, Copy, Debug)]
pub struct ReadyEvent {
    pub event: KqueueEvent,
    /// For the operation that the event names.
    pub own: Result<(), IoError>,
    /// For the writer that the end of the input releases.
    pub writer: Result<(), IoError>,
}

impl<P, B> KqueueView<P, B> {
    /// The effect of a blocking job's result.
    pub open spec fn spec_blocking_done(self, key: OpKey, completion: Completion<B>) -> KqueueView<P, B> {
        if !self.ops.contains_key(key) {
            self
        } else {
            let slot = self.ops[key];
            self.spec_apply(
                key,
                Slot { state: slot.state.spec_complete(completion), registration: slot.registration },
                slot.state.spec_completed(completion),
            )
        }
    }

    /// Store a slot, or remove it, and queue what has to be done.
    pub open spec fn spec_apply(self, key: OpKey, slot: Slot<P, B>, outcome: Completed<P, B>) -> KqueueView<P, B> {
        KqueueView {
            ops: if outcome.remove {
                self.ops.remove(key)
            } else {
                self.ops.insert(key, slot)
            },
            deferred: self.deferred + crate::driver::ops::deferred_by(outcome),
            ..self
        }
    }

    /// The effect of blocking jobs' results, in order.
    pub open spec fn spec_blocking_all(self, done: Seq<(OpKey, Completion<B>)>) -> KqueueView<P, B>
        decreases done.len(),
    {
        if done.len() == 0 {
            self
        } else {
            self.spec_blocking_all(done.drop_last()).spec_blocking_done(done.last().0, done.last().1)
        }
    }

    /// Whether the operation under `key` waits for this filter.
    pub open spec fn waits_for(self, key: OpKey, interest: Interest) -> bool {
        &&& self.ops.contains_key(key)
        &&& self.ops[key].registration matches Some(registration)
        &&& registration.interest == interest
    }

    /// The effect of a filter becoming ready on the operation under `key`.
    pub open spec fn spec_mark_ready(self, key: OpKey, interest: Interest, outcome: Result<(), IoError>) -> KqueueView<P, B> {
        if !self.waits_for(key, interest) {
            self
        } else {
            let slot = self.ops[key];
            let released = KqueueView { interests: self.interests.remove(interest), ..self };
            match slot.registration->0.on_ready {
                KqueueReadyAction::Retry => released.spec_apply(
                    key,
                    Slot { state: slot.state.spec_ready(), registration: None },
                    slot.state.spec_readied(),
                ),
                KqueueReadyAction::CompleteSocketError => {
                    let completion = spec_socket_error_completion(outcome);
                    released.spec_apply(
                        key,
                        Slot { state: slot.state.spec_complete(completion), registration: None },
                        slot.state.spec_completed(completion),
                    )
                },
            }
        }
    }

    /// The effect of one event. An event that is not about what its operation
    /// waits for is stale. The end of the input releases a writer as well.
    pub open spec fn spec_event(self, ready: ReadyEvent) -> KqueueView<P, B> {
        let event = ready.event;
        if !self.waits_for(event.key, event.spec_interest()) {
            self
        } else {
            let marked = self.spec_mark_ready(event.key, event.spec_interest(), ready.own);
            let writer = Interest { fd: event.fd, direction: Direction::Write };
            if event.readable && event.writable && marked.interests.contains_key(writer) {
                marked.spec_mark_ready(marked.interests[writer], writer, ready.writer)
            } else {
                marked
            }
        }
    }

    /// Whether the operation under `key` waits for this filter and, once it is
    /// ready, ends with the pending error of its socket.
    pub open spec fn spec_needs_socket_error(self, key: OpKey, interest: Interest) -> bool {
        self.waits_for(key, interest) && self.ops[key].registration->0.on_ready is CompleteSocketError
    }

    /// Whether an event releases a writer that ends with the pending error of
    /// its socket.
    pub open spec fn spec_needs_writer_error(self, event: KqueueEvent) -> bool {
        let writer = Interest { fd: event.fd, direction: Direction::Write };
        &&& self.waits_for(event.key, event.spec_interest())
        &&& event.direction == Direction::Read
        &&& event.readable
        &&& event.writable
        &&& self.interests.contains_key(writer)
        &&& self.spec_needs_socket_error(self.interests[writer], writer)
    }

    /// The effect of a batch of events, in order.
    pub open spec fn spec_events(self, batch: Seq<ReadyEvent>) -> KqueueView<P, B>
        decreases batch.len(),
    {
        if batch.len() == 0 {
            self
        } else {
            self.spec_events(batch.drop_last()).spec_event(batch.last())
        }
    }
}

impl<P, B> KqueueView<P, B> {
    /// The pending error of a socket matters only where it is needed: what else
    /// is handed in with an event changes nothing. Reading it clears it, so it
    /// must not be read for an event that is stale.
    pub proof fn law_other_socket_errors_are_ignored(self, a: ReadyEvent, b: ReadyEvent)
        requires
            a.event == b.event,
            self.spec_needs_socket_error(a.event.key, a.event.spec_interest()) ==> a.own == b.own,
            self.spec_needs_writer_error(a.event) ==> a.writer == b.writer,
        ensures
            self.spec_event(a) == self.spec_event(b),
    {
        let event = a.event;
        let interest = event.spec_interest();
        let writer = Interest { fd: event.fd, direction: Direction::Write };
        if self.waits_for(event.key, interest) {
            let marked = self.spec_mark_ready(event.key, interest, a.own);
            assert(marked == self.spec_mark_ready(event.key, interest, b.own));
            if event.readable && event.writable && marked.interests.contains_key(writer) {
                let key = marked.interests[writer];
                assert(event.direction == Direction::Read);
                assert(self.interests.contains_key(writer) && self.interests[writer] == key);
                if marked.waits_for(key, writer) {
                    assert(key != event.key);
                    assert(marked.ops[key] == self.ops[key]);
                    assert(self.waits_for(key, writer));
                }
            }
        }
    }

    /// The end of a descriptor's input releases whoever waits to read from it,
    /// and whoever waits to write to it.
    pub proof fn law_end_of_input_releases_the_writer(self, ready: ReadyEvent, writer: OpKey)
        requires
            registered(self.ops, self.interests),
            ready.event.direction == Direction::Read,
            ready.event.readable,
            ready.event.writable,
            self.waits_for(ready.event.key, ready.event.spec_interest()),
            self.waits_for(writer, Interest { fd: ready.event.fd, direction: Direction::Write }),
        ensures
            !self.spec_event(ready).interests.contains_key(ready.event.spec_interest()),
            !self.spec_event(ready).interests.contains_key(
                Interest { fd: ready.event.fd, direction: Direction::Write },
            ),
            !self.spec_event(ready).waits_for(ready.event.key, ready.event.spec_interest()),
            !self.spec_event(ready).waits_for(
                writer,
                Interest { fd: ready.event.fd, direction: Direction::Write },
            ),
    {
    }
}

impl<P, B> KqueueBackend<P, B> {
    /// The state in which a batch of events is gone through.
    pub open spec fn spec_start(&self) -> KqueueView<P, B> {
        KqueueView { ops: self.spec_ops(), interests: self.spec_interests(), deferred: Seq::empty() }
    }

    /// The operation under `key`, if it is live.
    pub fn slot(&self, key: OpKey) -> (slot: Option<&Slot<P, B>>)
        requires
            self.wf(),
        ensures
            slot == (if self.spec_ops().contains_key(key) {
                Some(&self.spec_ops()[key])
            } else {
                None
            }),
    {
        self.ops.get(key)
    }

    /// Bookkeeping for a new queue.
    pub fn new(capacity: usize) -> (backend: Result<Self, IoError>)
        ensures
            backend is Err <==> capacity == 0 || capacity > crate::driver::op_table::SLOT_LIMIT,
            backend matches Err(error) ==> error == (if capacity == 0 {
                IoError::Custom {
                    kind: ErrorKind::InvalidInput,
                    message: "kqueue event capacity must be greater than zero",
                }
            } else {
                crate::driver::op_table::too_large()
            }),
            backend matches Ok(backend) ==> {
                &&& backend.wf()
                &&& backend.spec_ops() == Map::<OpKey, Slot<P, B>>::empty()
                &&& backend.spec_interests() == Map::<Interest, OpKey>::empty()
                &&& !backend.spec_shutting_down()
                &&& backend.spec_slots() == 0
                &&& !backend.is_exhausted()
                &&& forall|key: OpKey| !backend.retired(key)
            },
    {
        if capacity == 0 {
            return Err(
                IoError::new(ErrorKind::InvalidInput, "kqueue event capacity must be greater than zero"),
            );
        }
        match OpTable::new(capacity) {
            Ok(ops) => {
                let backend = KqueueBackend {
                    ops,
                    interests: HashMap::with_capacity(capacity),
                    shutting_down: false,
                };
                assert(backend.spec_interests() =~= Map::<Interest, OpKey>::empty());
                Ok(backend)
            },
            Err(error) => Err(error),
        }
    }

    fn insert_interest(&mut self, interest: Interest, key: OpKey)
        requires
            old(self).ops.wf(),
        ensures
            final(self).ops == old(self).ops,
            final(self).shutting_down == old(self).shutting_down,
            final(self).spec_interests() == old(self).spec_interests().insert(interest, key),
    {
        broadcast use vstd::std_specs::hash::group_hash_axioms;

        let _ = self.interests.insert(interest.code(), key);
        assert(self.spec_interests() =~= old(self).spec_interests().insert(interest, key));
    }

    fn remove_interest(&mut self, interest: Interest)
        requires
            old(self).ops.wf(),
        ensures
            final(self).ops == old(self).ops,
            final(self).shutting_down == old(self).shutting_down,
            final(self).spec_interests() == old(self).spec_interests().remove(interest),
    {
        broadcast use vstd::std_specs::hash::group_hash_axioms;

        let _ = self.interests.remove(&interest.code());
        assert(self.spec_interests() =~= old(self).spec_interests().remove(interest));
    }

    fn waiter(&self, interest: Interest) -> (key: Option<OpKey>)
        ensures
            key == (if self.spec_interests().contains_key(interest) {
                Some(self.spec_interests()[interest])
            } else {
                None
            }),
    {
        broadcast use vstd::std_specs::hash::group_hash_axioms;

        match self.interests.get(&interest.code()) {
            Some(key) => Some(*key),
            None => None,
        }
    }

    /// Let the operation under `key` wait for a filter that nobody else waits
    /// for.
    pub fn install_registration(&mut self, key: OpKey, registration: Registration)
        requires
            old(self).wf(),
            old(self).spec_ops().contains_key(key),
            old(self).spec_interests().contains_key(registration.interest) ==> old(
                self,
            ).spec_interests()[registration.interest] == key,
        ensures
            final(self).wf(),
            final(self).spec_shutting_down() == old(self).spec_shutting_down(),
            final(self).spec_interests() == old(self).spec_interests().insert(registration.interest, key),
            final(self).spec_ops() == old(self).spec_ops().insert(
                key,
                Slot { state: old(self).spec_ops()[key].state, registration: Some(registration) },
            ),
            final(self).continues(old(self)),
    {
        self.insert_interest(registration.interest, key);
        if let Some(slot) = self.ops.get_mut(key) {
            slot.registration = Some(registration);
        }
    }

    /// Stop the operation under `key` from waiting for its filter.
    pub fn take_registration(&mut self, key: OpKey) -> (registration: Option<Registration>)
        requires
            old(self).wf(),
        ensures
            final(self).wf(),
            final(self).spec_shutting_down() == old(self).spec_shutting_down(),
            final(self).continues(old(self)),
            registration == (if old(self).spec_ops().contains_key(key) {
                old(self).spec_ops()[key].registration
            } else {
                None
            }),
            registration is None ==> final(self).spec_ops() == old(self).spec_ops()
                && final(self).spec_interests() == old(self).spec_interests(),
            registration matches Some(registration) ==> {
                &&& final(self).spec_interests() == old(self).spec_interests().remove(registration.interest)
                &&& final(self).spec_ops() == old(self).spec_ops().insert(
                    key,
                    Slot { state: old(self).spec_ops()[key].state, registration: None },
                )
            },
    {
        let mut registration: Option<Registration> = None;
        if let Some(slot) = self.ops.get_mut(key) {
            registration = slot.registration.take();
        }
        if let Some(registration) = registration {
            self.remove_interest(registration.interest);
        }
        assert(registration is None ==> self.spec_ops() =~= old(self).spec_ops());
        registration
    }

    /// Take in an operation. It is attempted when it is first polled.
    pub fn submit_op<T>(&mut self, data: T) -> (op: Result<Op<T>, IoError>)
        requires
            old(self).wf(),
        ensures
            final(self).wf(),
            final(self).spec_interests() == old(self).spec_interests(),
            final(self).spec_shutting_down() == old(self).spec_shutting_down(),
            op is Err <==> old(self).spec_shutting_down() || old(self).is_exhausted(),
            op matches Err(error) ==> {
                &&& old(self).spec_shutting_down() ==> error == (IoError::Custom {
                    kind: ErrorKind::BrokenPipe,
                    message: "kqueue backend is shutting down",
                })
                &&& !old(self).spec_shutting_down() ==> error == crate::driver::op_table::keys_exhausted()
                &&& final(self).spec_ops() == old(self).spec_ops()
            },
            op matches Ok(op) ==> {
                &&& op.spec_data() == Some(data)
                &&& !old(self).spec_ops().contains_key(op.spec_key())
                &&& !old(self).retired(op.spec_key())
                &&& final(self).spec_ops() == old(self).spec_ops().insert(
                    op.spec_key(),
                    Slot { state: State::Submitted, registration: None },
                )
            },
            final(self).extends(old(self)),
    {
        if self.shutting_down {
            return Err(IoError::new(ErrorKind::BrokenPipe, "kqueue backend is shutting down"));
        }
        match self.ops.insert(Slot { state: State::Submitted, registration: None }) {
            Ok(key) => Ok(Op::new(key, Box::new(data))),
            Err(error) => Err(error),
        }
    }

    /// Let go of an operation whose future is dropped.
    ///
    /// The payload is dropped unless a blocking job is still at work: then it
    /// stays to take the job's result. A completion that was never asked for
    /// comes back, and so does a filter that has to be removed.
    pub fn remove_op(&mut self, op: &mut Op<P>) -> (removed: Removed<B>)
        requires
            old(self).wf(),
            old(self).spec_ops().contains_key(old(op).spec_key()) ==> {
                let slot = old(self).spec_ops()[old(op).spec_key()];
                &&& !(slot.state is Ignored)
                &&& slot.state is Waiting && slot.registration is None ==> old(op).spec_data() is Some
            },
        ensures
            final(self).wf(),
            final(self).spec_shutting_down() == old(self).spec_shutting_down(),
            final(op).spec_key() == old(op).spec_key(),
            final(self).continues(old(self)),
            ({
                let key = old(op).spec_key();
                let ops = old(self).spec_ops();
                if !ops.contains_key(key) {
                    &&& removed == (Removed::<B> { completion: None, delete: None })
                    &&& final(self).spec_ops() == ops
                    &&& final(self).spec_interests() == old(self).spec_interests()
                    &&& final(op).spec_data() == old(op).spec_data()
                } else {
                    let registration = ops[key].registration;
                    match ops[key].state {
                        State::Completed(completion) => {
                            &&& removed == (Removed { completion: Some(completion), delete: None })
                            &&& final(self).spec_ops() == ops.remove(key)
                            &&& final(self).spec_interests() == old(self).spec_interests()
                            &&& final(op).spec_data() == old(op).spec_data()
                        },
                        State::Waiting(_) => if registration is Some {
                            let interest = registration->0.interest;
                            &&& removed == (Removed::<B> { completion: None, delete: Some(interest) })
                            &&& final(self).spec_ops() == ops.remove(key)
                            &&& final(self).spec_interests() == old(self).spec_interests().remove(interest)
                            &&& final(op).spec_data() is None
                        } else {
                            &&& removed == (Removed::<B> { completion: None, delete: None })
                            &&& final(self).spec_ops() == ops.insert(
                                key,
                                Slot { state: State::Ignored(old(op).spec_data()->0), registration: None },
                            )
                            &&& final(self).spec_interests() == old(self).spec_interests()
                            &&& final(op).spec_data() is None
                        },
                        _ => {
                            &&& removed == (Removed::<B> { completion: None, delete: None })
                            &&& final(self).spec_ops() == ops.remove(key)
                            &&& final(self).spec_interests() == old(self).spec_interests()
                            &&& final(op).spec_data() is None
                        },
                    }
                }
            }),
    {
        let key = op.key();
        let ghost before = self.spec_ops();
        let (over, waiting) = match self.ops.get(key) {
            Some(slot) => match &slot.state {
                State::Completed(_) => (true, false),
                State::Waiting(_) => (false, true),
                _ => (false, false),
            },
            None => {
                return Removed { completion: None, delete: None };
            },
        };
        if over {
            let slot = self.ops.remove(key);
            let completion = match slot {
                Some(Slot { state: State::Completed(completion), .. }) => Some(completion),
                _ => None,
            };
            return Removed { completion, delete: None };
        }
        if !waiting {
            let _ = self.ops.remove(key);
            let _ = op.take_data();
            return Removed { completion: None, delete: None };
        }
        match self.take_registration(key) {
            Some(registration) => {
                let _ = self.ops.remove(key);
                let _ = op.take_data();
                assert(self.spec_ops() =~= before.remove(key));
                Removed { completion: None, delete: Some(registration.interest) }
            },
            None => {
                if let Some(slot) = self.ops.get_mut(key) {
                    if let Some(data) = op.take_data() {
                        slot.state = State::Ignored(*data);
                    }
                }
                Removed { completion: None, delete: None }
            },
        }
    }

    /// Begin one poll of an operation, on behalf of a task with this waker.
    ///
    /// `same` says whether the waker registered before, if there is one, is
    /// known to wake the same task.
    pub fn poll_start_as(&mut self, op: &Op<P>, current: Waker, same: bool) -> (step: PollStart<B>)
        requires
            old(self).wf(),
            old(self).spec_ops().contains_key(op.spec_key()),
            !(old(self).spec_ops()[op.spec_key()].state is Ignored),
        ensures
            final(self).wf(),
            final(self).spec_interests() == old(self).spec_interests(),
            final(self).spec_shutting_down() == old(self).spec_shutting_down(),
            final(self).continues(old(self)),
            poll_started_as(old(self).spec_ops(), op.spec_key(), current, same, final(self).spec_ops(), step),
    {
        let key = op.key();
        let ghost before = self.spec_ops();
        let over = match self.ops.get(key) {
            Some(Slot { state: State::Completed(_), .. }) => true,
            _ => false,
        };
        if over {
            return match self.ops.remove(key) {
                Some(Slot { state: State::Completed(completion), .. }) => PollStart::Ready(completion),
                _ => PollStart::Pending,
            };
        }
        let mut step: PollStart<B> = PollStart::Pending;
        if let Some(slot) = self.ops.get_mut(key) {
            match &mut slot.state {
                State::Waiting(waker) => {
                    if !same {
                        *waker = current;
                    }
                },
                _ => {
                    slot.state = State::Submitted;
                    step = PollStart::Attempt;
                },
            }
        }
        step
    }

    /// Begin one poll of an operation.
    ///
    /// A completion comes back. An operation that waits keeps waiting, with a
    /// waker of the polling task. Any other operation has to be attempted.
    pub fn poll_start(&mut self, op: &Op<P>, waker: &Waker) -> (step: PollStart<B>)
        requires
            old(self).wf(),
            old(self).spec_ops().contains_key(op.spec_key()),
            !(old(self).spec_ops()[op.spec_key()].state is Ignored),
        ensures
            final(self).wf(),
            final(self).spec_interests() == old(self).spec_interests(),
            final(self).spec_shutting_down() == old(self).spec_shutting_down(),
            final(self).continues(old(self)),
            exists|current: Waker, same: bool| #[trigger]
                poll_started_as(old(self).spec_ops(), op.spec_key(), current, same, final(self).spec_ops(), step)
                    && crate::task::brought(
                    old(self).spec_ops()[op.spec_key()].state.spec_registered(),
                    *waker,
                    current,
                    same,
                ),
    {
        let registered = match self.ops.get(op.key()) {
            Some(Slot { state: State::Waiting(registered), .. }) => Some(registered),
            _ => None,
        };
        let (current, same) = bring(registered, waker);
        self.poll_start_as(op, current, same)
    }

    /// Take the outcome of an attempt.
    ///
    /// The kernel knows a filter by its descriptor and direction alone, so a
    /// second operation for the same filter would take the place of the first.
    /// It is refused instead.
    pub fn poll_attempted<J>(&mut self, key: OpKey, attempt: KqueueAttempt<J, B>) -> (step: Attempted<J, B>)
        requires
            old(self).wf(),
        ensures
            final(self).wf(),
            final(self).spec_interests() == old(self).spec_interests(),
            final(self).spec_shutting_down() == old(self).spec_shutting_down(),
            final(self).continues(old(self)),
            match attempt {
                KqueueAttempt::Ready(completion) => {
                    &&& step == Attempted::<J, B>::Ready(completion)
                    &&& final(self).spec_ops() == old(self).spec_ops().remove(key)
                },
                KqueueAttempt::Register { interest, on_ready } => if old(
                    self,
                ).spec_interests().contains_key(interest) {
                    &&& final(self).spec_ops() == old(self).spec_ops().remove(key)
                    &&& step == Attempted::<J, B>::Ready(filter_taken::<B>())
                } else {
                    &&& step == Attempted::<J, B>::Arm(Registration { interest, on_ready })
                    &&& final(self).spec_ops() == old(self).spec_ops()
                },
                KqueueAttempt::Blocking(job) => {
                    &&& step == Attempted::<J, B>::Dispatch(job)
                    &&& final(self).spec_ops() == old(self).spec_ops()
                },
            },
    {
        match attempt {
            KqueueAttempt::Ready(completion) => {
                let _ = self.ops.remove(key);
                Attempted::Ready(completion)
            },
            KqueueAttempt::Register { interest, on_ready } => {
                if self.has_interest(interest) {
                    let _ = self.ops.remove(key);
                    let taken = IoError::new(
                        ErrorKind::AlreadyExists,
                        "kqueue descriptor/filter already has a waiter",
                    );
                    return Attempted::Ready(Completion::new(Err(taken)));
                }
                Attempted::Arm(Registration { interest, on_ready })
            },
            KqueueAttempt::Blocking(job) => Attempted::Dispatch(job),
        }
    }

    /// Take the outcome of arming a filter for an operation: a handle to the
    /// polling task is kept. Where it failed, the failure is the operation's
    /// completion.
    pub fn poll_armed(
        &mut self,
        key: OpKey,
        registration: Registration,
        armed: Result<(), IoError>,
        waker: &Waker,
    ) -> (polled: Poll<Completion<B>>)
        requires
            old(self).wf(),
            old(self).spec_ops().contains_key(key),
            !old(self).spec_interests().contains_key(registration.interest),
        ensures
            final(self).wf(),
            final(self).spec_shutting_down() == old(self).spec_shutting_down(),
            final(self).continues(old(self)),
            match armed {
                Ok(()) => {
                    &&& polled is Pending
                    &&& final(self).spec_interests() == old(self).spec_interests().insert(
                        registration.interest,
                        key,
                    )
                    &&& exists|current: Waker| #[trigger]
                        crate::task::cloned_from(*waker, current) && final(self).spec_ops() == old(
                            self,
                        ).spec_ops().insert(
                            key,
                            Slot { state: State::Waiting(current), registration: Some(registration) },
                        )
                },
                Err(error) => {
                    &&& polled == Poll::Ready(
                        Completion { result: Err(error), flags: 0, blocking_value: None::<B> },
                    )
                    &&& final(self).spec_interests() == old(self).spec_interests()
                    &&& final(self).spec_ops() == old(self).spec_ops().remove(key)
                },
            },
    {
        match armed {
            Ok(()) => {
                let (current, _) = bring(None, waker);
                self.install_registration(key, registration);
                if let Some(slot) = self.ops.get_mut(key) {
                    slot.state = State::Waiting(current);
                }
                assert(self.spec_ops() =~= old(self).spec_ops().insert(
                    key,
                    Slot { state: State::Waiting(current), registration: Some(registration) },
                ));
                Poll::Pending
            },
            Err(error) => {
                let _ = self.ops.remove(key);
                Poll::Ready(Completion::new(Err(error)))
            },
        }
    }

    /// Take the outcome of handing a blocking job to the pool: a handle to the
    /// polling task is kept. Where it failed, the failure is the operation's
    /// completion.
    pub fn poll_dispatched(
        &mut self,
        key: OpKey,
        dispatched: Result<(), IoError>,
        waker: &Waker,
    ) -> (polled: Poll<Completion<B>>)
        requires
            old(self).wf(),
            old(self).spec_ops().contains_key(key),
        ensures
            final(self).wf(),
            final(self).spec_interests() == old(self).spec_interests(),
            final(self).spec_shutting_down() == old(self).spec_shutting_down(),
            final(self).continues(old(self)),
            match dispatched {
                Ok(()) => {
                    &&& polled is Pending
                    &&& exists|current: Waker| #[trigger]
                        crate::task::cloned_from(*waker, current) && final(self).spec_ops() == old(
                            self,
                        ).spec_ops().insert(
                            key,
                            Slot {
                                state: State::Waiting(current),
                                registration: old(self).spec_ops()[key].registration,
                            },
                        )
                },
                Err(error) => {
                    &&& polled == Poll::Ready(
                        Completion { result: Err(error), flags: 0, blocking_value: None::<B> },
                    )
                    &&& final(self).spec_ops() == old(self).spec_ops().remove(key)
                },
            },
    {
        match dispatched {
            Ok(()) => {
                let (current, _) = bring(None, waker);
                if let Some(slot) = self.ops.get_mut(key) {
                    slot.state = State::Waiting(current);
                }
                assert(self.spec_ops() =~= old(self).spec_ops().insert(
                    key,
                    Slot { state: State::Waiting(current), registration: old(self).spec_ops()[key].registration },
                ));
                Poll::Pending
            },
            Err(error) => {
                let _ = self.ops.remove(key);
                Poll::Ready(Completion::new(Err(error)))
            },
        }
    }

    /// Take the results of blocking jobs.
    pub fn drain_blocking_completions(&mut self, done: Vec<(OpKey, Completion<B>)>) -> (deferred: Vec<
        DeferredAction<P, B>,
    >)
        requires
            old(self).wf(),
        ensures
            final(self).wf(),
            final(self).spec_shutting_down() == old(self).spec_shutting_down(),
            final(self).continues(old(self)),
            (KqueueView {
                ops: final(self).spec_ops(),
                interests: final(self).spec_interests(),
                deferred: deferred@,
            }) == old(self).spec_start().spec_blocking_all(done@),
    {
        let mut deferred: Vec<DeferredAction<P, B>> = Vec::new();
        let ghost all = done@;
        let ghost mut taken: int = 0;
        for item in iter: done
            invariant
                iter.seq() == all,
                taken == iter.index(),
                self.wf(),
                self.spec_shutting_down() == old(self).spec_shutting_down(),
                self.continues(old(self)),
                (KqueueView {
                    ops: self.spec_ops(),
                    interests: self.spec_interests(),
                    deferred: deferred@,
                }) == old(self).spec_start().spec_blocking_all(all.subrange(0, taken)),
        {
            let (key, completion) = item;
            proof {
                let through = all.subrange(0, taken + 1);
                assert(through.drop_last() =~= all.subrange(0, taken));
                assert(through.last() == all[taken]);
            }
            let mut drop_slot = false;
            if let Some(slot) = self.ops.get_mut(key) {
                let outcome = slot.state.complete(completion);
                defer(&mut deferred, outcome.wake, outcome.cleanup);
                drop_slot = outcome.remove;
            }
            if drop_slot {
                let _ = self.ops.remove(key);
            }
            proof {
                taken = taken + 1;
            }
        }
        assert(all.subrange(0, taken) =~= all);
        deferred
    }

    /// Whether the operation under `key` waits for this filter.
    pub fn is_current_interest(&self, key: OpKey, fd: i32, direction: Direction) -> (current: bool)
        requires
            self.wf(),
        ensures
            current == self.spec_start().waits_for(key, Interest { fd, direction }),
    {
        match self.ops.get(key) {
            Some(slot) => match slot.registration {
                Some(registration) => registration.interest == Interest::new(fd, direction),
                None => false,
            },
            None => false,
        }
    }

    /// Whether the operation under `key` waits for this filter and, once it is
    /// ready, needs the pending error of its socket.
    pub fn needs_socket_error(&self, key: OpKey, fd: i32, direction: Direction) -> (needed: bool)
        requires
            self.wf(),
        ensures
            needed == self.spec_start().spec_needs_socket_error(key, Interest { fd, direction }),
    {
        match self.ops.get(key) {
            Some(slot) => match slot.registration {
                Some(registration) => registration.interest == Interest::new(fd, direction)
                    && registration.on_ready == KqueueReadyAction::CompleteSocketError,
                None => false,
            },
            None => false,
        }
    }

    /// Whether an event releases a writer that ends with the pending error of
    /// its socket.
    pub fn needs_writer_error(&self, event: KqueueEvent) -> (needed: bool)
        requires
            self.wf(),
        ensures
            needed == self.spec_start().spec_needs_writer_error(event),
    {
        if event.direction != Direction::Read || !event.readable || !event.writable || !self.is_current_interest(
            event.key,
            event.fd,
            event.direction,
        ) {
            return false;
        }
        match self.writer(event.fd) {
            Some(key) => self.needs_socket_error(key, event.fd, Direction::Write),
            None => false,
        }
    }

    /// The operation that waits until this descriptor can be written, if any.
    pub fn writer(&self, fd: i32) -> (key: Option<OpKey>)
        ensures
            key == (if self.spec_interests().contains_key(Interest { fd, direction: Direction::Write }) {
                Some(self.spec_interests()[Interest { fd, direction: Direction::Write }])
            } else {
                None
            }),
    {
        self.waiter(Interest::new(fd, Direction::Write))
    }

    /// Let the operation under `key` go on, if it waits for this filter.
    pub fn mark_ready(
        &mut self,
        key: OpKey,
        fd: i32,
        direction: Direction,
        outcome: Result<(), IoError>,
        deferred: &mut Vec<DeferredAction<P, B>>,
    )
        requires
            old(self).wf(),
        ensures
            final(self).wf(),
            final(self).spec_shutting_down() == old(self).spec_shutting_down(),
            final(self).continues(old(self)),
            (KqueueView {
                ops: final(self).spec_ops(),
                interests: final(self).spec_interests(),
                deferred: final(deferred)@,
            }) == (KqueueView {
                ops: old(self).spec_ops(),
                interests: old(self).spec_interests(),
                deferred: old(deferred)@,
            }).spec_mark_ready(key, Interest { fd, direction }, outcome),
    {
        let Some(registration) = self.take_registration(key) else {
            return;
        };
        if registration.interest != Interest::new(fd, direction) {
            self.install_registration(key, registration);
            assert(self.spec_ops() =~= old(self).spec_ops());
            assert(self.spec_interests() =~= old(self).spec_interests());
            return;
        }
        let mut drop_slot = false;
        if let Some(slot) = self.ops.get_mut(key) {
            match registration.on_ready {
                KqueueReadyAction::Retry => {
                    let (remove, wake) = slot.state.ready();
                    defer(deferred, wake, None);
                    drop_slot = remove;
                },
                KqueueReadyAction::CompleteSocketError => {
                    let outcome = slot.state.complete(socket_error_completion(outcome));
                    defer(deferred, outcome.wake, outcome.cleanup);
                    drop_slot = outcome.remove;
                },
            }
        }
        if drop_slot {
            let _ = self.ops.remove(key);
        }
        proof {
            let ops = old(self).spec_ops();
            if drop_slot {
                assert(self.spec_ops() =~= ops.remove(key));
            } else {
                assert(self.spec_ops() =~= ops.insert(key, self.spec_ops()[key]));
            }
        }
    }

    /// Go through a batch of readiness events.
    pub fn dispatch_completions(&mut self, batch: &Vec<ReadyEvent>) -> (deferred: Vec<DeferredAction<P, B>>)
        requires
            old(self).wf(),
        ensures
            final(self).wf(),
            final(self).spec_shutting_down() == old(self).spec_shutting_down(),
            final(self).continues(old(self)),
            (KqueueView {
                ops: final(self).spec_ops(),
                interests: final(self).spec_interests(),
                deferred: deferred@,
            }) == old(self).spec_start().spec_events(batch@),
    {
        let mut deferred: Vec<DeferredAction<P, B>> = Vec::new();
        let mut next: usize = 0;
        while next < batch.len()
            invariant
                next <= batch@.len(),
                self.wf(),
                self.spec_shutting_down() == old(self).spec_shutting_down(),
                self.continues(old(self)),
                (KqueueView {
                    ops: self.spec_ops(),
                    interests: self.spec_interests(),
                    deferred: deferred@,
                }) == old(self).spec_start().spec_events(batch@.subrange(0, next as int)),
            decreases batch@.len() - next,
        {
            let ready = batch[next];
            let event = ready.event;
            proof {
                let through = batch@.subrange(0, next + 1);
                assert(through.drop_last() =~= batch@.subrange(0, next as int));
                assert(through.last() == ready);
            }
            if self.is_current_interest(event.key, event.fd, event.direction) {
                self.mark_ready(event.key, event.fd, event.direction, ready.own, &mut deferred);
                if event.readable && event.writable {
                    if let Some(writer) = self.writer(event.fd) {
                        self.mark_ready(writer, event.fd, Direction::Write, ready.writer, &mut deferred);
                    }
                }
            }
            next += 1;
        }
        assert(batch@.subrange(0, next as int) =~= batch@);
        deferred
    }

    /// Stop taking work. Answers whether this is the first request to do so.
    pub fn begin_shutdown(&mut self) -> (first: bool)
        requires
            old(self).wf(),
        ensures
            final(self).wf(),
            first == !old(self).spec_shutting_down(),
            final(self).spec_shutting_down(),
            final(self).spec_ops() == old(self).spec_ops(),
            final(self).spec_interests() == old(self).spec_interests(),
            final(self).continues(old(self)),
    {
        let first = !self.shutting_down;
        self.shutting_down = true;
        assert(self.spec_interests() =~= old(self).spec_interests());
        first
    }

    /// Let go of every operation, after the blocking pool has come to rest.
    ///
    /// `done` holds what the blocking jobs have left behind. Payloads that
    /// still wait for a job are told that it will not end.
    pub fn shutdown(&mut self, done: Vec<(OpKey, Completion<B>)>) -> (outcome: Shutdown<P, B>)
        requires
            old(self).wf(),
        ensures
            final(self).wf(),
            final(self).spec_shutting_down() == old(self).spec_shutting_down(),
            final(self).spec_ops() == Map::<OpKey, Slot<P, B>>::empty(),
            final(self).spec_interests() == Map::<Interest, OpKey>::empty(),
            final(self).continues(old(self)),
            exists|order: Seq<OpKey>| #[trigger]
                crate::driver::op_table::covers(order, old(self).spec_ops().dom()) && outcome.delete@
                    == registered_filters(old(self).spec_ops(), order),
            exists|order: Seq<OpKey>| #[trigger]
                crate::driver::op_table::covers(order, old(self).spec_unwatched(done@).ops.dom())
                    && outcome.deferred@ == old(self).spec_unwatched(done@).deferred + abandoned(
                    old(self).spec_unwatched(done@).ops,
                    order,
                ),
    {
        let delete = self.take_registrations();
        self.interests.clear();
        assert(self.spec_interests() =~= Map::<Interest, OpKey>::empty());
        let ghost unwatched = self.spec_start();
        assert(unwatched == old(self).spec_unwatched(Seq::empty()));
        let mut deferred = self.drain_blocking_completions(done);
        let ghost left = self.spec_ops();
        let ghost before = deferred@;
        assert(left == old(self).spec_unwatched(done@).ops);
        assert(self.spec_interests() == Map::<Interest, OpKey>::empty()) by {
            lemma_blocking_keeps_interests(unwatched, done@);
        }
        let keys = self.ops.keys();
        let mut next: usize = 0;
        assert(crate::driver::op_table::covers(keys@, left.dom()));
        assert(before + abandoned(left, keys@.subrange(0, 0)) =~= before);
        assert forall|i: int| 0 <= i < keys@.len() implies left.contains_key(#[trigger] keys@[i]) by {
            assert(keys@.contains(keys@[i]));
        }
        while next < keys.len()
            invariant
                next <= keys@.len(),
                self.ops.wf(),
                self.spec_interests() == Map::<Interest, OpKey>::empty(),
                self.spec_shutting_down() == old(self).spec_shutting_down(),
                self.continues(old(self)),
                crate::driver::op_table::covers(keys@, left.dom()),
                keys@.no_duplicates(),
                self.spec_ops().submap_of(left),
                forall|i: int| 0 <= i < next ==> !self.spec_ops().contains_key(#[trigger] keys@[i]),
                forall|i: int|
                    next <= i < keys@.len() ==> self.spec_ops().contains_key(#[trigger] keys@[i]),
                deferred@ == before + abandoned(left, keys@.subrange(0, next as int)),
            decreases keys@.len() - next,
        {
            let key = keys[next];
            proof {
                let through = keys@.subrange(0, next + 1);
                assert(through.drop_last() =~= keys@.subrange(0, next as int));
                assert(through.last() == key);
                assert(keys@.contains(key));
                assert(left.dom().contains(key));
                assert(self.spec_ops().dom().contains(key));
            }
            match self.ops.remove(key) {
                Some(Slot { state: State::Ignored(payload), .. }) => {
                    let gone = IoError::other("kqueue backend shut down before operation completion");
                    deferred.push(
                        DeferredAction::Cleanup {
                            payload: IgnoredOp::Typed(payload),
                            completion: Completion::new(Err(gone)),
                        },
                    );
                },
                _ => {},
            }
            assert(deferred@ =~= before + abandoned(left, keys@.subrange(0, next + 1)));
            next += 1;
        }
        proof {
            assert(keys@.subrange(0, next as int) =~= keys@);
            assert forall|key: OpKey| !self.spec_ops().contains_key(key) by {
                if self.spec_ops().contains_key(key) {
                    assert(self.spec_ops().dom().contains(key));
                    assert(left.dom().contains(key));
                    assert(keys@.contains(key));
                    let i = choose|i: int| 0 <= i < keys@.len() && keys@[i] == key;
                    assert(!self.spec_ops().contains_key(keys@[i]));
                }
            }
            assert(self.spec_ops() =~= Map::<OpKey, Slot<P, B>>::empty());
        }
        Shutdown { delete, deferred }
    }

    /// Stop every operation from waiting for its filter.
    fn take_registrations(&mut self) -> (delete: Vec<(OpKey, Interest)>)
        requires
            old(self).wf(),
        ensures
            final(self).wf(),
            final(self).spec_shutting_down() == old(self).spec_shutting_down(),
            final(self).continues(old(self)),
            final(self).spec_ops() == old(self).spec_ops().map_values(
                |slot: Slot<P, B>| Slot { state: slot.state, registration: None },
            ),
            exists|order: Seq<OpKey>| #[trigger]
                crate::driver::op_table::covers(order, old(self).spec_ops().dom()) && delete@
                    == registered_filters(old(self).spec_ops(), order),
    {
        let keys = self.ops.keys();
        let mut delete: Vec<(OpKey, Interest)> = Vec::new();
        let mut next: usize = 0;
        let ghost before = self.spec_ops();
        assert(delete@ =~= registered_filters(before, keys@.subrange(0, 0)));
        while next < keys.len()
            invariant
                next <= keys@.len(),
                self.wf(),
                self.spec_shutting_down() == old(self).spec_shutting_down(),
                self.continues(old(self)),
                before == old(self).spec_ops(),
                crate::driver::op_table::covers(keys@, before.dom()),
                self.spec_ops().dom() == before.dom(),
                forall|i: int|
                    0 <= i < next ==> self.spec_ops()[#[trigger] keys@[i]] == (Slot {
                        state: before[keys@[i]].state,
                        registration: None,
                    }),
                forall|i: int|
                    next <= i < keys@.len() ==> self.spec_ops()[#[trigger] keys@[i]] == before[keys@[i]],
                delete@ == registered_filters(before, keys@.subrange(0, next as int)),
            decreases keys@.len() - next,
        {
            let key = keys[next];
            let ghost ops = self.spec_ops();
            proof {
                assert(keys@.contains(key));
                assert(ops.dom().contains(key));
                let through = keys@.subrange(0, next + 1);
                assert(through.drop_last() =~= keys@.subrange(0, next as int));
                assert(through.last() == key);
            }
            if let Some(registration) = self.take_registration(key) {
                delete.push((key, registration.interest));
            }
            proof {
                let freed = Slot { state: before[key].state, registration: None };
                assert(self.spec_ops() =~= ops.insert(key, freed));
                assert(self.spec_ops().dom() =~= before.dom());
            }
            next += 1;
        }
        proof {
            assert(keys@.subrange(0, next as int) =~= keys@);
            let freed = |slot: Slot<P, B>| Slot { state: slot.state, registration: None };
            assert forall|key: OpKey| before.dom().contains(key) implies #[trigger] self.spec_ops()[key]
                == before.map_values(freed)[key] by {
                assert(keys@.contains(key));
                let i = choose|i: int| 0 <= i < keys@.len() && keys@[i] == key;
                assert(self.spec_ops()[keys@[i]] == (Slot { state: before[keys@[i]].state, registration: None }));
            }
            assert(self.spec_ops() =~= before.map_values(freed));
        }
        delete
    }

    /// What is left once no operation waits for a filter and the blocking jobs'
    /// results are in.
    pub open spec fn spec_unwatched(&self, done: Seq<(OpKey, Completion<B>)>) -> KqueueView<P, B> {
        (KqueueView {
            ops: self.spec_ops().map_values(
                |slot: Slot<P, B>| Slot { state: slot.state, registration: None },
            ),
            interests: Map::empty(),
            deferred: Seq::empty(),
        }).spec_blocking_all(done)
    }
}

/// What the end of a queue asks of the driver.
pub struct Shutdown<P, B = ()> {
    /// The filters to remove.
    pub delete: Vec<(OpKey, Interest)>,
    pub deferred: Vec<DeferredAction<P, B>>,
}

/// The filters that these operations wait for, in order.
pub open spec fn registered_filters<P, B>(ops: Map<OpKey, Slot<P, B>>, keys: Seq<OpKey>) -> Seq<(OpKey, Interest)>
    decreases keys.len(),
{
    if keys.len() == 0 {
        Seq::empty()
    } else {
        let rest = registered_filters(ops, keys.drop_last());
        match ops[keys.last()].registration {
            Some(registration) => rest.push((keys.last(), registration.interest)),
            None => rest,
        }
    }
}

/// The completion of an operation whose blocking job will not end.
pub open spec fn shut_down_first<B>() -> Completion<B> {
    Completion {
        result: Err(
            IoError::Custom {
                kind: ErrorKind::Other,
                message: "kqueue backend shut down before operation completion",
            },
        ),
        flags: 0,
        blocking_value: None,
    }
}

/// The cleanups of the payloads whose blocking job will not end, in order.
pub open spec fn abandoned<P, B>(ops: Map<OpKey, Slot<P, B>>, keys: Seq<OpKey>) -> Seq<DeferredAction<P, B>>
    decreases keys.len(),
{
    if keys.len() == 0 {
        Seq::empty()
    } else {
        let rest = abandoned(ops, keys.drop_last());
        match ops[keys.last()].state {
            State::Ignored(payload) => rest.push(
                DeferredAction::Cleanup {
                    payload: IgnoredOp::Typed(payload),
                    completion: shut_down_first(),
                },
            ),
            _ => rest,
        }
    }
}

/// The results of blocking jobs leave the filters alone.
proof fn lemma_blocking_keeps_interests<P, B>(view: KqueueView<P, B>, done: Seq<(OpKey, Completion<B>)>)
    ensures
        view.spec_blocking_all(done).interests == view.interests,
    decreases done.len(),
{
    if done.len() > 0 {
        lemma_blocking_keeps_interests(view, done.drop_last());
    }
}

/// What letting go of an operation asks of the driver.
pub struct Removed<B = ()> {
    pub completion: Option<Completion<B>>,
    /// The filter to remove.
    pub delete: Option<Interest>,
}

/// How one poll begins.
pub enum PollStart<B = ()> {
    Ready(Completion<B>),
    /// Attempt the operation.
    Attempt,
    Pending,
}

/// What follows an attempt.
pub enum Attempted<J, B = ()> {
    Ready(Completion<B>),
    /// Arm this filter.
    Arm(Registration),
    /// Hand this job to the blocking pool.
    Dispatch(J),
}

/// The completion of an operation whose filter another operation waits for.
pub open spec fn filter_taken<B>() -> Completion<B> {
    Completion {
        result: Err(
            IoError::Custom {
                kind: ErrorKind::AlreadyExists,
                message: "kqueue descriptor/filter already has a waiter",
            },
        ),
        flags: 0,
        blocking_value: None,
    }
}

/// How one poll of an operation begins.
pub open spec fn poll_started_as<P, B>(
    before: Map<OpKey, Slot<P, B>>,
    key: OpKey,
    current: Waker,
    same: bool,
    after: Map<OpKey, Slot<P, B>>,
    step: PollStart<B>,
) -> bool {
    match before[key].state {
        State::Completed(completion) => {
            &&& step == PollStart::Ready(completion)
            &&& after == before.remove(key)
        },
        State::Waiting(waker) => {
            &&& step is Pending
            &&& after == before.insert(
                key,
                Slot {
                    state: State::Waiting(crate::task::refreshed(waker, current, same)),
                    registration: before[key].registration,
                },
            )
        },
        _ => {
            &&& step is Attempt
            &&& after == before.insert(
                key,
                Slot { state: State::Submitted, registration: before[key].registration },
            )
        },
    }
}

impl<P, B> KqueueView<P, B> {
    proof fn lemma_job_result_stays(self, done: Seq<(OpKey, Completion<B>)>, key: OpKey, first: int)
        requires
            self.ops.contains_key(key),
            !(self.ops[key].state is Ignored),
            !(self.ops[key].state is Completed),
            0 <= first < done.len(),
            done[first].0 == key,
            forall|i: int| 0 <= i < first ==> (#[trigger] done[i]).0 != key,
        ensures
            self.spec_blocking_all(done).ops.contains_key(key),
            self.spec_blocking_all(done).ops[key].state == State::<P, B>::Completed(done[first].1),
            self.ops[key].state matches State::Waiting(waker) ==> self.spec_blocking_all(done).deferred.contains(
                DeferredAction::Wake(waker),
            ),
        decreases done.len(),
    {
        let earlier = done.drop_last();
        let before = self.spec_blocking_all(earlier);
        let after = self.spec_blocking_all(done);
        assert forall|i: int| 0 <= i < first implies (#[trigger] earlier[i]).0 != key by {
            assert(earlier[i] == done[i]);
        }
        if first == done.len() - 1 {
            self.lemma_other_jobs_leave_it_alone(earlier, key);
            if let State::Waiting(waker) = self.ops[key].state {
                assert(after.deferred == before.deferred + seq![DeferredAction::<P, B>::Wake(waker)]);
                assert(after.deferred[before.deferred.len() as int] == DeferredAction::<P, B>::Wake(waker));
            }
        } else {
            assert(earlier[first] == done[first]);
            self.lemma_job_result_stays(earlier, key, first);
            if let State::Waiting(waker) = self.ops[key].state {
                let wake = DeferredAction::<P, B>::Wake(waker);
                let i = choose|i: int| 0 <= i < before.deferred.len() && before.deferred[i] == wake;
                assert(after.deferred[i] == wake);
            }
        }
    }

    /// The results of other jobs leave an operation alone.
    proof fn lemma_other_jobs_leave_it_alone(self, done: Seq<(OpKey, Completion<B>)>, key: OpKey)
        requires
            self.ops.contains_key(key),
            forall|i: int| 0 <= i < done.len() ==> (#[trigger] done[i]).0 != key,
        ensures
            self.spec_blocking_all(done).ops.contains_key(key),
            self.spec_blocking_all(done).ops[key] == self.ops[key],
        decreases done.len(),
    {
        if done.len() > 0 {
            let earlier = done.drop_last();
            assert forall|i: int| 0 <= i < earlier.len() implies (#[trigger] earlier[i]).0 != key by {
                assert(earlier[i] == done[i]);
            }
            self.lemma_other_jobs_leave_it_alone(earlier, key);
            assert(done[done.len() - 1].0 != key);
        }
    }

    /// The future of an operation gets what its blocking job returned, and a
    /// task that waits for it is woken, whatever other jobs return. The slot is
    /// free then.
    pub proof fn law_future_gets_the_job_result(
        self,
        done: Seq<(OpKey, Completion<B>)>,
        key: OpKey,
        first: int,
        current: Waker,
        same: bool,
        after: Map<OpKey, Slot<P, B>>,
        step: PollStart<B>,
    )
        requires
            self.ops.contains_key(key),
            !(self.ops[key].state is Ignored),
            !(self.ops[key].state is Completed),
            0 <= first < done.len(),
            done[first].0 == key,
            forall|i: int| 0 <= i < first ==> (#[trigger] done[i]).0 != key,
            poll_started_as(self.spec_blocking_all(done).ops, key, current, same, after, step),
        ensures
            step == PollStart::Ready(done[first].1),
            after == self.spec_blocking_all(done).ops.remove(key),
            self.ops[key].state matches State::Waiting(waker) ==> self.spec_blocking_all(done).deferred.contains(
                DeferredAction::Wake(waker),
            ),
    {
        self.lemma_job_result_stays(done, key, first);
    }

    /// The deferred work that the results of one operation's jobs bring.
    pub open spec fn spec_job_work_for(self, done: Seq<(OpKey, Completion<B>)>, key: OpKey) -> Seq<
        DeferredAction<P, B>,
    >
        decreases done.len(),
    {
        if done.len() == 0 {
            Seq::empty()
        } else {
            let earlier = self.spec_job_work_for(done.drop_last(), key);
            let before = self.spec_blocking_all(done.drop_last());
            if done.last().0 == key {
                earlier + before.spec_blocking_done(key, done.last().1).deferred.skip(
                    before.deferred.len() as int,
                )
            } else {
                earlier
            }
        }
    }

    /// Results of other jobs bring no work for an operation.
    proof fn lemma_no_work_from_other_jobs(self, done: Seq<(OpKey, Completion<B>)>, key: OpKey)
        requires
            forall|i: int| 0 <= i < done.len() ==> (#[trigger] done[i]).0 != key,
        ensures
            self.spec_job_work_for(done, key) == Seq::<DeferredAction<P, B>>::empty(),
        decreases done.len(),
    {
        if done.len() > 0 {
            let earlier = done.drop_last();
            assert forall|i: int| 0 <= i < earlier.len() implies (#[trigger] earlier[i]).0 != key by {
                assert(earlier[i] == done[i]);
            }
            self.lemma_no_work_from_other_jobs(earlier, key);
            assert(done[done.len() - 1].0 != key);
        }
    }

    /// The first result of its job cleans a payload up that was left behind. Later
    /// ones find nothing.
    proof fn lemma_job_result_cleans_up(
        self,
        done: Seq<(OpKey, Completion<B>)>,
        key: OpKey,
        payload: P,
        first: int,
    )
        requires
            self.ops.contains_key(key),
            self.ops[key].state == State::<P, B>::Ignored(payload),
            0 <= first < done.len(),
            done[first].0 == key,
            forall|i: int| 0 <= i < first ==> (#[trigger] done[i]).0 != key,
        ensures
            !self.spec_blocking_all(done).ops.contains_key(key),
            self.spec_job_work_for(done, key) == seq![
                DeferredAction::Cleanup { payload: IgnoredOp::Typed(payload), completion: done[first].1 },
            ],
        decreases done.len(),
    {
        let earlier = done.drop_last();
        let before = self.spec_blocking_all(earlier);
        let after = self.spec_blocking_all(done);
        let cleanup = DeferredAction::Cleanup { payload: IgnoredOp::Typed(payload), completion: done[first].1 };
        if first == done.len() - 1 {
            assert forall|i: int| 0 <= i < earlier.len() implies (#[trigger] earlier[i]).0 != key by {
                assert(earlier[i] == done[i]);
            }
            self.lemma_other_jobs_leave_it_alone(earlier, key);
            self.lemma_no_work_from_other_jobs(earlier, key);
            assert(after.deferred =~= before.deferred.push(cleanup));
            assert(after.deferred.skip(before.deferred.len() as int) =~= seq![cleanup]);
            assert(self.spec_job_work_for(done, key) =~= seq![cleanup]);
        } else {
            assert(earlier[first] == done[first]);
            assert forall|i: int| 0 <= i < first implies (#[trigger] earlier[i]).0 != key by {
                assert(earlier[i] == done[i]);
            }
            self.lemma_job_result_cleans_up(earlier, key, payload, first);
            if done.last().0 == key {
                assert(after.deferred.skip(before.deferred.len() as int) =~= Seq::<DeferredAction<P, B>>::empty());
                assert(self.spec_job_work_for(done, key) =~= self.spec_job_work_for(earlier, key));
            }
        }
    }
}

/// The cleanups that one operation has among those of the payloads whose
/// blocking job will not end.
pub open spec fn abandoned_for<P, B>(ops: Map<OpKey, Slot<P, B>>, keys: Seq<OpKey>, key: OpKey) -> Seq<
    DeferredAction<P, B>,
>
    decreases keys.len(),
{
    if keys.len() == 0 {
        Seq::empty()
    } else {
        let earlier = abandoned_for(ops, keys.drop_last(), key);
        if keys.last() == key {
            earlier + abandoned(ops, keys).skip(abandoned(ops, keys.drop_last()).len() as int)
        } else {
            earlier
        }
    }
}

/// A payload has one cleanup where its operation is gone through once, and none
/// where it is not gone through.
proof fn lemma_abandoned_once<P, B>(ops: Map<OpKey, Slot<P, B>>, keys: Seq<OpKey>, key: OpKey)
    requires
        crate::driver::op_table::slots_ascend(keys),
    ensures
        !keys.contains(key) ==> abandoned_for(ops, keys, key) == Seq::<DeferredAction<P, B>>::empty(),
        keys.contains(key) ==> (ops[key].state matches State::Ignored(payload) ==> abandoned_for(ops, keys, key)
            == seq![
            DeferredAction::Cleanup { payload: IgnoredOp::Typed(payload), completion: shut_down_first::<B>() },
        ]),
    decreases keys.len(),
{
    if keys.len() > 0 {
        let earlier = keys.drop_last();
        let none = Seq::<DeferredAction<P, B>>::empty();
        lemma_abandoned_once(ops, earlier, key);
        assert(keys[keys.len() - 1] == keys.last());
        if keys.last() == key {
            assert forall|i: int| 0 <= i < earlier.len() implies earlier[i] != key by {
                assert(earlier[i] == keys[i]);
                assert(keys[i].spec_slot() < keys[keys.len() - 1].spec_slot());
            }
            assert(keys.contains(key));
            if let State::Ignored(payload) = ops[key].state {
                let cleanup = DeferredAction::Cleanup {
                    payload: IgnoredOp::Typed(payload),
                    completion: shut_down_first::<B>(),
                };
                assert(abandoned(ops, keys) == abandoned(ops, earlier).push(cleanup));
                assert(abandoned(ops, keys).skip(abandoned(ops, earlier).len() as int) =~= seq![cleanup]);
                assert(none + seq![cleanup] =~= seq![cleanup]);
            }
        } else {
            assert(keys.contains(key) == earlier.contains(key)) by {
                if keys.contains(key) {
                    let i = choose|i: int| 0 <= i < keys.len() && keys[i] == key;
                    assert(earlier[i] == key);
                }
                if earlier.contains(key) {
                    let i = choose|i: int| 0 <= i < earlier.len() && earlier[i] == key;
                    assert(keys[i] == key);
                }
            }
        }
    }
}

impl<P, B> KqueueBackend<P, B> {
    /// The deferred work that the end of a queue brings for one operation. `order`
    /// is that in which the operations are gone through.
    pub open spec fn spec_end_work_for(
        &self,
        done: Seq<(OpKey, Completion<B>)>,
        order: Seq<OpKey>,
        key: OpKey,
    ) -> Seq<DeferredAction<P, B>> {
        self.spec_unwatched(Seq::empty()).spec_job_work_for(done, key) + abandoned_for(
            self.spec_unwatched(done).ops,
            order,
            key,
        )
    }

    /// A payload that was left behind is cleaned up once when the queue ends: with
    /// what its blocking job returned, where it did.
    pub proof fn law_returned_jobs_clean_up_at_the_end(
        &self,
        done: Seq<(OpKey, Completion<B>)>,
        order: Seq<OpKey>,
        key: OpKey,
        payload: P,
        first: int,
    )
        requires
            self.spec_ops().contains_key(key),
            self.spec_ops()[key].state == State::<P, B>::Ignored(payload),
            crate::driver::op_table::covers(order, self.spec_unwatched(done).ops.dom()),
            0 <= first < done.len(),
            done[first].0 == key,
            forall|i: int| 0 <= i < first ==> (#[trigger] done[i]).0 != key,
        ensures
            self.spec_end_work_for(done, order, key) == seq![
                DeferredAction::Cleanup { payload: IgnoredOp::Typed(payload), completion: done[first].1 },
            ],
    {
        let start = self.spec_unwatched(Seq::empty());
        assert(self.spec_unwatched(done) == start.spec_blocking_all(done));
        start.lemma_job_result_cleans_up(done, key, payload, first);
        lemma_abandoned_once(self.spec_unwatched(done).ops, order, key);
        assert(!order.contains(key));
        assert(self.spec_end_work_for(done, order, key) =~= start.spec_job_work_for(done, key));
    }

    /// A payload that was left behind, and whose blocking job did not return, is
    /// cleaned up once when the queue ends: it is told so.
    pub proof fn law_other_jobs_are_told_of_the_end(
        &self,
        done: Seq<(OpKey, Completion<B>)>,
        order: Seq<OpKey>,
        key: OpKey,
        payload: P,
    )
        requires
            self.spec_ops().contains_key(key),
            self.spec_ops()[key].state == State::<P, B>::Ignored(payload),
            crate::driver::op_table::covers(order, self.spec_unwatched(done).ops.dom()),
            forall|i: int| 0 <= i < done.len() ==> (#[trigger] done[i]).0 != key,
        ensures
            self.spec_end_work_for(done, order, key) == seq![
                DeferredAction::Cleanup { payload: IgnoredOp::Typed(payload), completion: shut_down_first::<B>() },
            ],
    {
        let start = self.spec_unwatched(Seq::empty());
        assert(self.spec_unwatched(done) == start.spec_blocking_all(done));
        start.lemma_other_jobs_leave_it_alone(done, key);
        start.lemma_no_work_from_other_jobs(done, key);
        lemma_abandoned_once(self.spec_unwatched(done).ops, order, key);
        assert(order.contains(key));
        assert(self.spec_end_work_for(done, order, key) =~= abandoned_for(
            self.spec_unwatched(done).ops,
            order,
            key,
        ));
    }
}

impl<P, B> KqueueView<P, B> {
    /// An event leaves an operation alone that waits for no filter, or for one of
    /// another descriptor.
    proof fn lemma_event_leaves_alone(self, ready: ReadyEvent, key: OpKey)
        requires
            registered(self.ops, self.interests),
            self.ops.contains_key(key),
            self.ops[key].registration matches Some(registration) ==> registration.interest.fd != ready.event.fd,
        ensures
            self.spec_event(ready).ops.contains_key(key),
            self.spec_event(ready).ops[key] == self.ops[key],
            forall|interest: Interest|
                interest.fd != ready.event.fd ==> (#[trigger] self.spec_event(ready).interests.contains_key(interest)
                    <==> self.interests.contains_key(interest)) && self.spec_event(ready).interests[interest]
                    == self.interests[interest],
    {
    }

    /// What an event keeps: filters find their waiters, no filter is added, and
    /// deferred work stays.
    proof fn lemma_event_keeps(self, ready: ReadyEvent)
        requires
            registered(self.ops, self.interests),
        ensures
            registered(self.spec_event(ready).ops, self.spec_event(ready).interests),
            forall|interest: Interest| #[trigger]
                self.spec_event(ready).interests.contains_key(interest) ==> self.interests.contains_key(interest),
            self.deferred.len() <= self.spec_event(ready).deferred.len(),
            forall|i: int|
                0 <= i < self.deferred.len() ==> #[trigger] self.spec_event(ready).deferred[i] == self.deferred[i],
    {
    }

    /// An event either leaves a waiting operation alone, because it is not about
    /// its descriptor's filter, or lets it go on.
    proof fn lemma_event_on_waiter(self, ready: ReadyEvent, key: OpKey, interest: Interest, waker: Waker)
        requires
            registered(self.ops, self.interests),
            self.ops.contains_key(key),
            self.ops[key].state == State::<P, B>::Waiting(waker),
            self.ops[key].registration matches Some(registration) && registration.interest == interest,
        ensures
            self.spec_event(ready).ops.contains_key(key),
            ({
                let after = self.spec_event(ready);
                let own = ready.event.key == key && ready.event.fd == interest.fd && ready.event.direction
                    == interest.direction;
                let freed = after.ops[key].registration is None && !after.interests.contains_key(interest)
                    && after.deferred.contains(DeferredAction::Wake(waker));
                ||| {
                    &&& !own
                    &&& after.ops[key] == self.ops[key]
                }
                ||| {
                    &&& ready.event.fd == interest.fd
                    &&& freed
                    &&& match self.ops[key].registration->0.on_ready {
                        KqueueReadyAction::Retry => after.ops[key].state == State::<P, B>::Ready,
                        KqueueReadyAction::CompleteSocketError => {
                            let outcome = if own {
                                ready.own
                            } else {
                                ready.writer
                            };
                            after.ops[key].state == State::<P, B>::Completed(
                                Completion {
                                    result: match outcome {
                                        Ok(_) => Ok(0u32),
                                        Err(error) => Err(error),
                                    },
                                    flags: 0,
                                    blocking_value: None,
                                },
                            )
                        },
                    }
                }
            }),
    {
        let event = ready.event;
        let wake = DeferredAction::<P, B>::Wake(waker);
        let after = self.spec_event(ready);
        if self.waits_for(event.key, event.spec_interest()) {
            let marked = self.spec_mark_ready(event.key, event.spec_interest(), ready.own);
            let writer = Interest { fd: event.fd, direction: Direction::Write };
            if event.key == key {
                assert(marked.deferred =~= self.deferred.push(wake));
                assert(marked.deferred[self.deferred.len() as int] == wake);
                assert(after.deferred[self.deferred.len() as int] == wake);
            } else if event.readable && event.writable && marked.interests.contains_key(writer)
                && marked.interests[writer] == key && marked.waits_for(key, writer) {
                assert(after.deferred =~= marked.deferred.push(wake));
                assert(after.deferred[marked.deferred.len() as int] == wake);
            }
        }
    }

    /// How a batch ends for an operation that waits for a filter.
    proof fn lemma_batch_on_waiter(self, batch: Seq<ReadyEvent>, key: OpKey, interest: Interest, waker: Waker)
        requires
            registered(self.ops, self.interests),
            self.ops.contains_key(key),
            self.ops[key].state == State::<P, B>::Waiting(waker),
            self.ops[key].registration matches Some(registration) && registration.interest == interest,
        ensures
            registered(self.spec_events(batch).ops, self.spec_events(batch).interests),
            self.spec_events(batch).ops.contains_key(key),
            ({
                let after = self.spec_events(batch);
                ||| {
                    &&& after.ops[key] == self.ops[key]
                    &&& forall|i: int|
                        0 <= i < batch.len() ==> !((#[trigger] batch[i]).event.key == key && batch[i].event.fd
                            == interest.fd && batch[i].event.direction == interest.direction)
                }
                ||| {
                    &&& after.ops[key].registration is None
                    &&& !after.interests.contains_key(interest)
                    &&& after.deferred.contains(DeferredAction::Wake(waker))
                    &&& self.ops[key].registration->0.on_ready == KqueueReadyAction::Retry ==> after.ops[key].state
                        == State::<P, B>::Ready
                }
            }),
        decreases batch.len(),
    {
        if batch.len() > 0 {
            let earlier = batch.drop_last();
            let last = batch.len() - 1;
            let before = self.spec_events(earlier);
            let wake = DeferredAction::<P, B>::Wake(waker);
            self.lemma_batch_on_waiter(earlier, key, interest, waker);
            before.lemma_event_keeps(batch.last());
            let after = self.spec_events(batch);
            assert(after == before.spec_event(batch[last]));
            if before.ops[key].registration is None {
                before.lemma_event_leaves_alone(batch.last(), key);
                let i = choose|i: int| 0 <= i < before.deferred.len() && before.deferred[i] == wake;
                assert(after.deferred[i] == wake);
            } else {
                before.lemma_event_on_waiter(batch.last(), key, interest, waker);
                assert forall|i: int| 0 <= i < last implies !((#[trigger] batch[i]).event.key == key
                    && batch[i].event.fd == interest.fd && batch[i].event.direction == interest.direction) by {
                    assert(earlier[i] == batch[i]);
                }
            }
        }
    }

    /// How a batch ends for an operation whose descriptor it is not about.
    proof fn lemma_batch_leaves_alone(self, batch: Seq<ReadyEvent>, key: OpKey)
        requires
            registered(self.ops, self.interests),
            self.ops.contains_key(key),
            forall|i: int|
                0 <= i < batch.len() ==> (self.ops[key].registration matches Some(registration)
                    ==> registration.interest.fd != (#[trigger] batch[i]).event.fd),
        ensures
            registered(self.spec_events(batch).ops, self.spec_events(batch).interests),
            self.spec_events(batch).ops.contains_key(key),
            self.spec_events(batch).ops[key] == self.ops[key],
        decreases batch.len(),
    {
        if batch.len() > 0 {
            let earlier = batch.drop_last();
            assert forall|i: int| 0 <= i < earlier.len() implies (self.ops[key].registration matches Some(registration)
                ==> registration.interest.fd != (#[trigger] earlier[i]).event.fd) by {
                assert(earlier[i] == batch[i]);
            }
            self.lemma_batch_leaves_alone(earlier, key);
            assert(batch[batch.len() - 1] == batch.last());
            self.spec_events(earlier).lemma_event_leaves_alone(batch.last(), key);
            self.spec_events(earlier).lemma_event_keeps(batch.last());
        }
    }

    /// Every operation whose descriptor becomes ready goes on: wherever in a batch
    /// its event is, and whatever else is in the batch, the operation is to be
    /// tried again, its filter is free, and its task is woken.
    pub proof fn law_ready_operation_is_tried_again(
        self,
        batch: Seq<ReadyEvent>,
        key: OpKey,
        interest: Interest,
        waker: Waker,
        i: int,
    )
        requires
            registered(self.ops, self.interests),
            self.ops.contains_key(key),
            self.ops[key].state == State::<P, B>::Waiting(waker),
            self.ops[key].registration == Some(Registration { interest, on_ready: KqueueReadyAction::Retry }),
            0 <= i < batch.len(),
            batch[i].event.key == key,
            batch[i].event.fd == interest.fd,
            batch[i].event.direction == interest.direction,
        ensures
            self.spec_events(batch).ops.contains_key(key),
            self.spec_events(batch).ops[key].state == State::<P, B>::Ready,
            self.spec_events(batch).ops[key].registration is None,
            !self.spec_events(batch).interests.contains_key(interest),
            self.spec_events(batch).deferred.contains(DeferredAction::Wake(waker)),
    {
        self.lemma_batch_on_waiter(batch, key, interest, waker);
    }

    /// A connect ends once its socket is ready, with what the socket reports: its
    /// filter is free and its task is woken, whatever else is in the batch.
    pub proof fn law_ready_connect_ends_with_the_socket_error(
        self,
        batch: Seq<ReadyEvent>,
        key: OpKey,
        interest: Interest,
        waker: Waker,
        i: int,
    )
        requires
            registered(self.ops, self.interests),
            self.ops.contains_key(key),
            self.ops[key].state == State::<P, B>::Waiting(waker),
            self.ops[key].registration == Some(
                Registration { interest, on_ready: KqueueReadyAction::CompleteSocketError },
            ),
            0 <= i < batch.len(),
            batch[i].event.key == key,
            batch[i].event.fd == interest.fd,
            batch[i].event.direction == interest.direction,
            forall|j: int| 0 <= j < i ==> (#[trigger] batch[j]).event.fd != interest.fd,
        ensures
            self.spec_events(batch).ops.contains_key(key),
            self.spec_events(batch).ops[key].registration is None,
            !self.spec_events(batch).interests.contains_key(interest),
            self.spec_events(batch).deferred.contains(DeferredAction::Wake(waker)),
            self.spec_events(batch).ops[key].state matches State::Completed(completion) && match batch[i].own {
                Ok(_) => completion.result == Ok::<u32, IoError>(0),
                Err(error) => completion.result == Err::<u32, IoError>(error),
            },
        decreases batch.len(),
    {
        self.lemma_batch_on_waiter(batch, key, interest, waker);
        let earlier = batch.drop_last();
        let last = batch.len() - 1;
        let before = self.spec_events(earlier);
        let after = self.spec_events(batch);
        assert(after == before.spec_event(batch[last]));
        if i == last {
            assert forall|j: int| 0 <= j < earlier.len() implies (self.ops[key].registration matches Some(registration)
                ==> registration.interest.fd != (#[trigger] earlier[j]).event.fd) by {
                assert(earlier[j] == batch[j]);
            }
            self.lemma_batch_leaves_alone(earlier, key);
            before.lemma_event_on_waiter(batch.last(), key, interest, waker);
        } else {
            assert(earlier[i] == batch[i]);
            assert forall|j: int| 0 <= j < i implies (#[trigger] earlier[j]).event.fd != interest.fd by {
                assert(earlier[j] == batch[j]);
            }
            self.law_ready_connect_ends_with_the_socket_error(earlier, key, interest, waker, i);
            self.lemma_batch_on_waiter(earlier, key, interest, waker);
            before.lemma_event_leaves_alone(batch.last(), key);
        }
    }

    /// The end of a descriptor's input lets the writer go on that waits for the
    /// same descriptor: it is to be tried again, and its task is woken.
    pub proof fn law_end_of_input_wakes_the_writer(
        self,
        ready: ReadyEvent,
        writer: OpKey,
        waker: Waker,
    )
        requires
            registered(self.ops, self.interests),
            ready.event.direction == Direction::Read,
            ready.event.readable,
            ready.event.writable,
            self.ops.contains_key(ready.event.key),
            self.ops[ready.event.key].registration matches Some(registration) && registration.interest == (Interest {
                fd: ready.event.fd,
                direction: Direction::Read,
            }),
            self.ops.contains_key(writer),
            self.ops[writer].state == State::<P, B>::Waiting(waker),
            self.ops[writer].registration == Some(
                Registration {
                    interest: Interest { fd: ready.event.fd, direction: Direction::Write },
                    on_ready: KqueueReadyAction::Retry,
                },
            ),
        ensures
            self.spec_event(ready).ops[writer].state == State::<P, B>::Ready,
            self.spec_event(ready).ops[writer].registration is None,
            self.spec_event(ready).deferred.contains(DeferredAction::Wake(waker)),
    {
        self.lemma_event_on_waiter(ready, writer, Interest { fd: ready.event.fd, direction: Direction::Write }, waker);
    }

    /// An operation goes on only because of its own descriptor: a batch that is
    /// not about it leaves the operation, its filter and its waker as they are.
    pub proof fn law_other_descriptors_are_left_alone(self, batch: Seq<ReadyEvent>, key: OpKey, registration: Registration)
        requires
            registered(self.ops, self.interests),
            self.ops.contains_key(key),
            self.ops[key].registration == Some(registration),
            forall|i: int| 0 <= i < batch.len() ==> (#[trigger] batch[i]).event.fd != registration.interest.fd,
        ensures
            self.spec_events(batch).ops.contains_key(key),
            self.spec_events(batch).ops[key] == self.ops[key],
            self.spec_events(batch).interests.contains_key(registration.interest),
            self.spec_events(batch).interests[registration.interest] == key,
    {
        self.lemma_batch_leaves_alone(batch, key);
    }

    /// An event that its operation does not wait for is stale: nothing comes of
    /// it, not even where the same descriptor has another waiter.
    pub proof fn law_stale_events_change_nothing(self, ready: ReadyEvent)
        requires
            self.ops.contains_key(ready.event.key) ==> (self.ops[ready.event.key].registration matches Some(registration)
                ==> registration.interest.fd != ready.event.fd || registration.interest.direction
                != ready.event.direction),
        ensures
            self.spec_event(ready) == self,
    {
    }
}

impl<P, B> KqueueView<P, B> {
    /// A task that polls a waiting operation is told to wait, and hears of the
    /// readiness: through its own waker, unless the one that it left before wakes
    /// it already.
    pub proof fn law_task_that_polled_last_is_woken(
        self,
        key: OpKey,
        interest: Interest,
        waker: Waker,
        current: Waker,
        same: bool,
        polled: KqueueView<P, B>,
        step: PollStart<B>,
        batch: Seq<ReadyEvent>,
        i: int,
    )
        requires
            registered(self.ops, self.interests),
            self.ops.contains_key(key),
            self.ops[key].state == State::<P, B>::Waiting(waker),
            self.ops[key].registration == Some(Registration { interest, on_ready: KqueueReadyAction::Retry }),
            poll_started_as(self.ops, key, current, same, polled.ops, step),
            polled.interests == self.interests,
            0 <= i < batch.len(),
            batch[i].event.key == key,
            batch[i].event.fd == interest.fd,
            batch[i].event.direction == interest.direction,
        ensures
            step is Pending,
            !same ==> polled.spec_events(batch).deferred.contains(DeferredAction::Wake(current)),
            same ==> polled.spec_events(batch).deferred.contains(DeferredAction::Wake(waker)),
    {
        let kept = if same {
            waker
        } else {
            current
        };
        polled.law_ready_operation_is_tried_again(batch, key, interest, kept, i);
    }

    /// An operation that is new or was let go on is attempted when it is polled,
    /// and keeps its slot; one that is over hands out its completion and leaves.
    pub proof fn law_poll_attempts_or_ends(
        self,
        key: OpKey,
        current: Waker,
        same: bool,
        after: Map<OpKey, Slot<P, B>>,
        step: PollStart<B>,
    )
        requires
            self.ops.contains_key(key),
            poll_started_as(self.ops, key, current, same, after, step),
        ensures
            self.ops[key].state is Submitted || self.ops[key].state is Ready ==> step is Attempt && after.contains_key(
                key,
            ),
            self.ops[key].state matches State::Completed(completion) ==> step == PollStart::Ready(completion)
                && !after.contains_key(key),
            forall|other: OpKey|
                other != key ==> (#[trigger] after.contains_key(other) <==> self.ops.contains_key(other)) && after[other]
                    == self.ops[other],
    {
    }
}

/// A raw event that bears the key of an operation is about that operation: about
/// reading or writing as its filter says, ready for that, and at the end of the
/// input ready for writing as well. One that bears no such key is about none.
pub proof fn law_events_name_their_operations(
    udata: u64,
    filter: EventFilter,
    eof: bool,
    event: Option<KqueueEvent>,
    key: OpKey,
)
    requires
        call_ensures(decode_event, (udata, filter, eof), event),
        key.spec_generation() != 0,
    ensures
        udata == key.spec_raw() ==> match filter {
            EventFilter::Read(fd) => event matches Some(event) && event.key == key && event.fd == fd
                && event.direction is Read && event.readable && event.writable == eof,
            EventFilter::Write(fd) => event matches Some(event) && event.key == key && event.fd == fd
                && event.direction is Write && !event.readable && event.writable,
            EventFilter::Other => event is None,
        },
        udata / 0x1_0000_0000 == 0 ==> event is None,
{
    CompletionKey::law_keys_name_their_operations(key, udata);
}

/// The changes of a batch went well if the kernel names no error, other than that
/// a filter was not there and that a pipe has no reader.
pub proof fn law_changes_fail_with_the_first_error(receipts: Vec<Receipt>, result: Result<(), IoError>, i: int)
    requires
        call_ensures(check_receipts, (&receipts,), result),
        0 <= i < receipts@.len(),
        receipts@[i].error,
        receipts@[i].data != 0,
        receipts@[i].data != 2,
        receipts@[i].data != 32,
        forall|j: int|
            0 <= j < i ==> !(#[trigger] receipts@[j]).error || receipts@[j].data == 0 || receipts@[j].data == 2
                || receipts@[j].data == 32,
    ensures
        result == Err::<(), IoError>(IoError::Os(receipts@[i].data as i32)),
{
    assert(receipts@[i].failed());
    assert forall|j: int| 0 <= j < i implies !(#[trigger] receipts@[j]).failed() by {}
    assert(receipts_judged(receipts@, result));
    let error = result->Err_0;
    let k = choose|k: int|
        0 <= k < receipts@.len() && (#[trigger] receipts@[k]).failed() && error == IoError::Os(
            receipts@[k].data as i32,
        ) && forall|j: int| 0 <= j < k ==> !(#[trigger] receipts@[j]).failed();
    assert(receipts@[k].failed());
    assert(k == i);
}

/// The changes of a batch went well if every answer is no error, or one that does
/// not matter.
pub proof fn law_changes_go_well_without_errors(receipts: Vec<Receipt>, result: Result<(), IoError>)
    requires
        call_ensures(check_receipts, (&receipts,), result),
        forall|j: int|
            0 <= j < receipts@.len() ==> !(#[trigger] receipts@[j]).error || receipts@[j].data == 0
                || receipts@[j].data == 2 || receipts@[j].data == 32,
    ensures
        result is Ok,
{
    assert forall|j: int| 0 <= j < receipts@.len() implies !(#[trigger] receipts@[j]).failed() by {}
}

/// When a queue ends, the filter of every operation that waits for one is removed.
pub proof fn law_every_filter_is_removed_at_the_end<P, B>(
    ops: Map<OpKey, Slot<P, B>>,
    keys: Seq<OpKey>,
    key: OpKey,
    registration: Registration,
)
    requires
        keys.contains(key),
        ops[key].registration == Some(registration),
    ensures
        registered_filters(ops, keys).contains((key, registration.interest)),
    decreases keys.len(),
{
    let all = registered_filters(ops, keys);
    let earlier = keys.drop_last();
    let rest = registered_filters(ops, earlier);
    if keys.last() == key {
        assert(all[rest.len() as int] == (key, registration.interest));
    } else {
        let i = choose|i: int| 0 <= i < keys.len() && keys[i] == key;
        assert(earlier[i] == key);
        law_every_filter_is_removed_at_the_end(ops, earlier, key, registration);
        let k = choose|k: int| 0 <= k < rest.len() && rest[k] == (key, registration.interest);
        assert(all[k] == (key, registration.interest));
    }
}

impl WakeupState {
    /// A driver that listens is notified of the first request for a wakeup since it has
    /// last seen a notification, and of no other before it has seen that one. A driver
    /// that has closed is notified of none.
    pub proof fn law_driver_is_notified_once(
        start: WakeupState,
        seen: WakeupState,
        first: WakeupState,
        sent: bool,
        second: WakeupState,
        again: bool,
    )
        requires
            consumed_as(&start, &seen),
            woken_as(&seen, &first, sent),
            woken_as(&first, &second, again),
        ensures
            sent <==> !start.spec_closed(),
            !again,
            second.spec_closed() == start.spec_closed(),
    {
    }
}

/// A wait that was interrupted goes on; every other failure is told, and every number
/// of events that were found.
pub proof fn law_interrupted_wait_goes_on(result: Result<usize, IoError>, step: WaitStep)
    requires
        call_ensures(wait_step, (result,), step),
    ensures
        result matches Ok(found) ==> step == WaitStep::Done(found),
        step is Retry <==> result == Err::<usize, IoError>(IoError::Os(4)),
        result matches Err(error) ==> (error != IoError::Os(4) ==> step == WaitStep::Fail(error)),
{
}

/// An operation that ends with the pending error of its socket succeeds if there is
/// none, and fails with it if there is.
pub proof fn law_pending_error_is_the_outcome<B>(outcome: Result<(), IoError>, completion: Completion<B>)
    requires
        call_ensures(socket_error_completion::<B>, (outcome,), completion),
    ensures
        outcome is Ok ==> completion.result == Ok::<u32, IoError>(0),
        outcome matches Err(error) ==> completion.result == Err::<u32, IoError>(error),
        completion.flags == 0,
        completion.blocking_value is None,
{
}

impl Interest {
    /// An event is about a filter if it names its descriptor and its direction, and says
    /// that it is ready that way.
    pub proof fn law_event_must_say_ready(self, event: KqueueEvent, matched: bool)
        requires
            call_ensures(Interest::matches_event, (self, event), matched),
        ensures
            matched ==> event.fd == self.fd && event.direction == self.direction,
            event.fd == self.fd && event.direction == self.direction && self.direction is Read ==> (matched
                <==> event.readable),
            event.fd == self.fd && event.direction == self.direction && self.direction is Write ==> (matched
                <==> event.writable),
    {
    }
}

/// An operation that finds its filter taken fails for that, and one that is left at the
/// end fails because the queue is shut down. Neither brings anything else.
pub proof fn law_why_operations_are_refused<B>()
    ensures
        filter_taken::<B>().result matches Err(error) && error.spec_kind() == ErrorKind::AlreadyExists,
        filter_taken::<B>().flags == 0 && filter_taken::<B>().blocking_value is None,
        shut_down_first::<B>().result matches Err(error) && error.spec_kind() == ErrorKind::Other,
        shut_down_first::<B>().flags == 0 && shut_down_first::<B>().blocking_value is None,
{
}

} // verus!
