//! Lifecycles of I/O completion port operations.
use crate::driver::op_table::{OpKey, OpTable};
use crate::driver::ops::{
    defer, CancelObserver, Completed, Completion, DeferredAction, IgnoredOp, Listener, Op,
};
use crate::error::{ErrorKind, IoError};
use crate::task::{bring, Poll};
use std::collections::HashMap;
use std::task::Waker;
use vstd::prelude::*;

verus! {

/// Windows error code: the request to cancel found nothing to cancel.
pub const ERROR_NOT_FOUND: i32 = 1168;

/// Windows error code: the operation was cancelled.
pub const ERROR_OPERATION_ABORTED: i32 = 995;

/// Windows error code: the wait timed out.
pub const WAIT_TIMEOUT: i32 = 258;

/// Whether a failed request to cancel only came too late: the operation has
/// ended, or its completion packet is queued.
pub fn cancel_error_is_already_complete(error: &IoError) -> (complete: bool)
    ensures
        complete == (*error == IoError::Os(ERROR_NOT_FOUND)),
{
    match error.raw_os_error() {
        Some(code) => code == ERROR_NOT_FOUND,
        None => false,
    }
}

/// A span of time.
#[derive(Clone, Copy, Debug)]
pub struct Duration {
    pub secs: u64,
    pub nanos: u32,
}

impl Duration {
    /// The whole span in nanoseconds.
    pub open spec fn spec_nanos(self) -> int {
        self.secs * 1_000_000_000 + self.nanos
    }
}

/// The smallest number of milliseconds that covers a number of nanoseconds.
pub open spec fn millis_covering(nanos: int) -> int {
    (nanos + 999_999) / 1_000_000
}

/// A time limit in milliseconds, never shorter than the span itself. What does
/// not fit, and the absence of a limit, is the largest value, which stands for
/// no limit.
pub fn duration_millis(duration: Option<Duration>) -> (millis: u32)
    ensures
        millis == (match duration {
            Some(duration) => if millis_covering(duration.spec_nanos()) < u32::MAX {
                millis_covering(duration.spec_nanos())
            } else {
                u32::MAX as int
            },
            None => u32::MAX as int,
        }),
{
    match duration {
        Some(duration) => {
            let nanos: u128 = duration.secs as u128 * 1_000_000_000 + duration.nanos as u128;
            let millis: u128 = (nanos + 999_999) / 1_000_000;
            if millis < u32::MAX as u128 {
                millis as u32
            } else {
                u32::MAX
            }
        },
        None => u32::MAX,
    }
}

/// A wait never ends early: the limit in milliseconds covers the span, unless
/// there is no limit, and exceeds it by less than a millisecond.
pub proof fn law_wait_covers_the_duration(duration: Duration, millis: u32)
    requires
        call_ensures(duration_millis, (Some(duration),), millis),
    ensures
        millis < u32::MAX ==> duration.spec_nanos() <= millis * 1_000_000 < duration.spec_nanos() + 1_000_000,
        millis == u32::MAX ==> duration.spec_nanos() > (u32::MAX - 1) * 1_000_000,
        duration.spec_nanos() / 1_000_000_000 == duration.secs + duration.nanos / 1_000_000_000,
        duration.spec_nanos() % 1_000_000_000 == duration.nanos % 1_000_000_000,
{
}

/// A longer span never gives a shorter limit.
pub proof fn law_duration_millis_is_monotone(a: Duration, b: Duration, first: u32, second: u32)
    requires
        a.spec_nanos() <= b.spec_nanos(),
        call_ensures(duration_millis, (Some(a),), first),
        call_ensures(duration_millis, (Some(b),), second),
    ensures
        first <= second,
{
}

/// How many entries one dequeue may ask for.
pub fn dequeue_capacity(capacity: usize) -> (count: u32)
    ensures
        count == (if capacity < u32::MAX {
            capacity as int
        } else {
            u32::MAX as int
        }),
{
    if (capacity as u64) < u32::MAX as u64 {
        capacity as u32
    } else {
        u32::MAX
    }
}

/// Judge a dequeue from the port. Running out of time is no failure: there
/// was nothing to dequeue.
pub fn dequeued(result: Result<u32, IoError>) -> (count: Result<usize, IoError>)
    ensures
        count == (match result {
            Ok(count) => Ok(count as usize),
            Err(error) => if error == IoError::Os(WAIT_TIMEOUT) {
                Ok(0)
            } else {
                Err(error)
            },
        }),
{
    match result {
        Ok(count) => Ok(count as usize),
        Err(error) => match error.raw_os_error() {
            Some(code) => if code == WAIT_TIMEOUT {
                Ok(0)
            } else {
                Err(error)
            },
            None => Err(error),
        },
    }
}

/// A request that Windows works on.
///
/// `owner` owns the memory at `address`, which Windows uses until the
/// completion packet is dequeued.
pub struct Interest<I> {
    pub owner: I,
    pub address: usize,
    pub handle: usize,
}

/// A request to cancel: the handle and the address of the request.
#[derive(Clone, Copy, Debug, PartialEq, Eq, Structural)]
pub struct CancelTarget {
    pub handle: usize,
    pub address: usize,
}

/// What starting an operation came to. `J` is a blocking job.
pub enum IocpSubmission<J, I, B = ()> {
    Ready(Completion<B>),
    Pending(Interest<I>),
    /// Only a blocking thread can do this.
    Blocking(J),
}

/// Lifecycle of an operation.
pub enum State<P, B = ()> {
    Submitted,
    Waiting(Waker),
    Completed(Completion<B>),
    /// The future was dropped. The payload is kept until the completion packet.
    Detached(IgnoredOp<P>),
    /// Cancellation was requested.
    Canceling { observer: CancelObserver<P> },
}

impl<P, B> State<P, B> {
    /// Who hears of the terminal completion.
    pub open spec fn listener(self) -> Listener<P> {
        match self {
            State::Submitted => Listener::Nobody,
            State::Waiting(waker) => Listener::Task(waker),
            State::Completed(_) => Listener::Done,
            State::Detached(payload) => Listener::Payload(payload),
            State::Canceling { observer } => match observer {
                CancelObserver::Pending => Listener::Nobody,
                CancelObserver::Waiting(waker) => Listener::Task(waker),
                CancelObserver::Detached(payload) => Listener::Payload(payload),
            },
        }
    }

    /// The state after a terminal completion.
    pub open spec fn spec_complete(self, completion: Completion<B>) -> State<P, B> {
        match self.listener() {
            Listener::Nobody | Listener::Task(_) => State::Completed(completion),
            Listener::Payload(_) => State::Submitted,
            Listener::Done => self,
        }
    }

    /// What a terminal completion asks of the driver.
    pub open spec fn spec_completed(self, completion: Completion<B>) -> Completed<P, B> {
        match self.listener() {
            Listener::Nobody | Listener::Done => Completed { remove: false, wake: None, cleanup: None },
            Listener::Task(waker) => Completed { remove: false, wake: Some(waker), cleanup: None },
            Listener::Payload(payload) => Completed {
                remove: true,
                wake: None,
                cleanup: Some(DeferredAction::Cleanup { payload, completion }),
            },
        }
    }

    /// Apply a terminal completion. A second one is stale input.
    pub fn complete(&mut self, completion: Completion<B>) -> (outcome: Completed<P, B>)
        ensures
            *final(self) == old(self).spec_complete(completion),
            outcome == old(self).spec_completed(completion),
    {
        let mut state = State::Submitted;
        std::mem::swap(self, &mut state);
        match state {
            State::Submitted => {
                *self = State::Completed(completion);
                Completed { remove: false, wake: None, cleanup: None }
            },
            State::Waiting(waker) => {
                *self = State::Completed(completion);
                Completed { remove: false, wake: Some(waker), cleanup: None }
            },
            State::Detached(payload) => {
                let cleanup = DeferredAction::Cleanup { payload, completion };
                Completed { remove: true, wake: None, cleanup: Some(cleanup) }
            },
            State::Canceling { observer } => match observer {
                CancelObserver::Pending => {
                    *self = State::Completed(completion);
                    Completed { remove: false, wake: None, cleanup: None }
                },
                CancelObserver::Waiting(waker) => {
                    *self = State::Completed(completion);
                    Completed { remove: false, wake: Some(waker), cleanup: None }
                },
                CancelObserver::Detached(payload) => {
                    let cleanup = DeferredAction::Cleanup { payload, completion };
                    Completed { remove: true, wake: None, cleanup: Some(cleanup) }
                },
            },
            State::Completed(first) => {
                *self = State::Completed(first);
                Completed { remove: false, wake: None, cleanup: None }
            },
        }
    }

    /// The state once the polling task listens. `same` says whether the waker
    /// registered before is known to wake that task.
    pub open spec fn spec_observe(self, current: Waker, same: bool) -> State<P, B> {
        match self {
            State::Submitted => State::Waiting(current),
            State::Waiting(waker) => State::Waiting(crate::task::refreshed(waker, current, same)),
            State::Canceling { observer: CancelObserver::Pending } => State::Canceling {
                observer: CancelObserver::Waiting(current),
            },
            State::Canceling { observer: CancelObserver::Waiting(waker) } => State::Canceling {
                observer: CancelObserver::Waiting(crate::task::refreshed(waker, current, same)),
            },
            _ => self,
        }
    }

    fn observe(&mut self, current: Waker, same: bool)
        ensures
            *final(self) == old(self).spec_observe(current, same),
    {
        match self {
            State::Submitted => {
                *self = State::Waiting(current);
            },
            State::Waiting(waker) => {
                if !same {
                    *waker = current;
                }
            },
            State::Canceling { observer } => match observer {
                CancelObserver::Pending => {
                    *observer = CancelObserver::Waiting(current);
                },
                CancelObserver::Waiting(waker) => {
                    if !same {
                        *waker = current;
                    }
                },
                CancelObserver::Detached(_) => {},
            },
            State::Detached(_) | State::Completed(_) => {},
        }
    }

    fn registered(&self) -> (waker: Option<&Waker>)
        ensures
            waker == (match self.listener().spec_task() {
                Some(waker) => Some(&waker),
                None => None,
            }),
    {
        match self {
            State::Waiting(waker) => Some(waker),
            State::Canceling { observer: CancelObserver::Waiting(waker) } => Some(waker),
            _ => None,
        }
    }

    /// The state once the payload has taken the place of the future.
    pub open spec fn spec_detach(self, payload: P) -> State<P, B> {
        match self {
            State::Submitted | State::Waiting(_) => State::Detached(IgnoredOp::Typed(payload)),
            State::Canceling { .. } => State::Canceling {
                observer: CancelObserver::Detached(IgnoredOp::Typed(payload)),
            },
            _ => self,
        }
    }

    fn detach(&mut self, payload: P)
        ensures
            *final(self) == old(self).spec_detach(payload),
    {
        match self {
            State::Submitted | State::Waiting(_) => {
                *self = State::Detached(IgnoredOp::Typed(payload));
            },
            State::Canceling { .. } => {
                *self = State::Canceling { observer: CancelObserver::Detached(IgnoredOp::Typed(payload)) };
            },
            State::Detached(_) | State::Completed(_) => {},
        }
    }

    /// The state after a request to cancel. The listener stays the same.
    pub open spec fn spec_request_cancel(self) -> State<P, B> {
        match self {
            State::Submitted => State::Canceling { observer: CancelObserver::Pending },
            State::Waiting(waker) => State::Canceling { observer: CancelObserver::Waiting(waker) },
            State::Detached(payload) => State::Canceling { observer: CancelObserver::Detached(payload) },
            State::Canceling { .. } | State::Completed(_) => self,
        }
    }

    /// Request cancellation. Answers whether there is something to cancel.
    fn request_cancel(&mut self) -> (cancel: bool)
        ensures
            cancel == !(*old(self) is Canceling || *old(self) is Completed),
            *final(self) == old(self).spec_request_cancel(),
    {
        let mut state = State::Submitted;
        std::mem::swap(self, &mut state);
        match state {
            State::Submitted => {
                *self = State::Canceling { observer: CancelObserver::Pending };
                true
            },
            State::Waiting(waker) => {
                *self = State::Canceling { observer: CancelObserver::Waiting(waker) };
                true
            },
            State::Detached(payload) => {
                *self = State::Canceling { observer: CancelObserver::Detached(payload) };
                true
            },
            other => {
                *self = other;
                false
            },
        }
    }

    /// The state once the port shuts down: nobody but a payload that was left
    /// behind hears of late packets.
    pub open spec fn spec_shutdown(self) -> State<P, B> {
        match self {
            State::Submitted | State::Waiting(_) => State::Detached(IgnoredOp::Detached),
            State::Canceling { observer } => State::Canceling {
                observer: match observer {
                    CancelObserver::Detached(payload) => CancelObserver::Detached(payload),
                    _ => CancelObserver::Detached(IgnoredOp::Detached),
                },
            },
            _ => self,
        }
    }

    /// Prepare the operation for the end of the port. Answers whether it is
    /// cancelled by this: what was let go of before is not cancelled again.
    fn shutdown(&mut self) -> (cancel: bool)
        ensures
            cancel == (old(self).listener() is Nobody || old(self).listener() is Task),
            *final(self) == old(self).spec_shutdown(),
    {
        let mut state = State::Submitted;
        std::mem::swap(self, &mut state);
        match state {
            State::Submitted | State::Waiting(_) => {
                *self = State::Detached(IgnoredOp::Detached);
                true
            },
            State::Canceling { observer: CancelObserver::Detached(payload) } => {
                *self = State::Canceling { observer: CancelObserver::Detached(payload) };
                false
            },
            State::Canceling { .. } => {
                *self = State::Canceling { observer: CancelObserver::Detached(IgnoredOp::Detached) };
                true
            },
            other => {
                *self = other;
                false
            },
        }
    }

    /// The first terminal completion is the one that is kept.
    pub proof fn law_first_completion_wins(self, first: Completion<B>, second: Completion<B>)
        requires
            !self.spec_completed(first).remove,
        ensures
            self.spec_complete(first).spec_complete(second) == self.spec_complete(first),
            self.spec_complete(first).spec_completed(second) == (Completed::<P, B> {
                remove: false,
                wake: None,
                cleanup: None,
            }),
            !(self.listener() is Done) ==> self.spec_complete(first) == State::<P, B>::Completed(first),
    {
    }

    /// Cancelling never changes who hears of the completion, and cancelling
    /// again changes nothing.
    pub proof fn law_cancel_keeps_the_listener(self)
        ensures
            self.spec_request_cancel().listener() == self.listener(),
            self.spec_request_cancel().spec_request_cancel() == self.spec_request_cancel(),
    {
    }

    /// After the shutdown pass an operation is either over or waits for its
    /// packet alone, and a second pass changes nothing.
    pub proof fn law_shutdown_leaves_no_observer(self)
        ensures
            self.spec_shutdown().listener() is Payload || self.spec_shutdown().listener() is Done,
            self.spec_shutdown().spec_shutdown() == self.spec_shutdown(),
    {
    }
}

/// An operation, the request that Windows works on, and the blocking job that
/// was not handed to the pool yet.
pub struct Slot<P, J, I, B = ()> {
    pub state: State<P, B>,
    pub interest: Option<Interest<I>>,
    pub blocking_job: Option<J>,
}

impl<P, J, I, B> Slot<P, J, I, B> {
    /// The request to cancel, if Windows works on one.
    pub open spec fn spec_target(self) -> Option<CancelTarget> {
        match self.interest {
            Some(interest) => Some(CancelTarget { handle: interest.handle, address: interest.address }),
            None => None,
        }
    }

    fn target(&self) -> (target: Option<CancelTarget>)
        ensures
            target == self.spec_target(),
    {
        match &self.interest {
            Some(interest) => Some(CancelTarget { handle: interest.handle, address: interest.address }),
            None => None,
        }
    }

    /// The slot after a request to cancel. A job that has not started ends
    /// here.
    pub open spec fn spec_cancel(self) -> Slot<P, J, I, B> {
        if self.state is Submitted && self.blocking_job is Some {
            Slot {
                state: State::Completed(
                    Completion {
                        result: Err(IoError::Os(ERROR_OPERATION_ABORTED)),
                        flags: 0,
                        blocking_value: None,
                    },
                ),
                interest: self.interest,
                blocking_job: None,
            }
        } else {
            Slot {
                state: self.state.spec_request_cancel(),
                interest: self.interest,
                blocking_job: self.blocking_job,
            }
        }
    }

    /// What a request to cancel asks Windows to cancel.
    pub open spec fn spec_cancel_target(self) -> Option<CancelTarget> {
        if self.state is Submitted && self.blocking_job is Some {
            None
        } else if self.state is Canceling || self.state is Completed {
            None
        } else {
            self.spec_target()
        }
    }

    fn cancel(&mut self) -> (target: Option<CancelTarget>)
        ensures
            *final(self) == old(self).spec_cancel(),
            target == old(self).spec_cancel_target(),
    {
        let submitted = match &self.state {
            State::Submitted => true,
            _ => false,
        };
        if submitted && self.blocking_job.is_some() {
            self.blocking_job = None;
            let aborted = IoError::from_raw_os_error(ERROR_OPERATION_ABORTED);
            self.state = State::Completed(Completion::new(Err(aborted)));
            return None;
        }
        if self.state.request_cancel() {
            self.target()
        } else {
            None
        }
    }

    /// The slot once the port shuts down.
    pub open spec fn spec_shutdown(self) -> Slot<P, J, I, B> {
        Slot {
            state: self.state.spec_shutdown(),
            interest: self.interest,
            blocking_job: self.blocking_job,
        }
    }

    /// What the end of the port asks Windows to cancel.
    pub open spec fn spec_shutdown_target(self) -> Option<CancelTarget> {
        if self.state.listener() is Nobody || self.state.listener() is Task {
            self.spec_target()
        } else {
            None
        }
    }
}

/// One completion packet.
#[derive(Clone, Copy, Debug)]
pub struct PacketEntry {
    /// Address of the request, or zero for a wakeup.
    pub address: usize,
    /// The operation key found in the request. It is looked for only where the
    /// address is one that an operation waits for.
    pub embedded: Option<OpKey>,
    /// The status word of the packet.
    pub internal: u64,
    pub bytes: u32,
    /// The error code that the status stands for, where it is a failure.
    pub error: i32,
}

impl PacketEntry {
    /// The status of the request: negative is failure.
    pub open spec fn spec_status(self) -> i32 {
        (self.internal as u32) as i32
    }

    /// The completion that this packet reports.
    pub open spec fn spec_completion<B>(self) -> Completion<B> {
        Completion {
            result: if self.spec_status() >= 0 {
                Ok(self.bytes)
            } else {
                Err(IoError::Os(self.error))
            },
            flags: 0,
            blocking_value: None,
        }
    }

    /// The completion that this packet reports.
    pub fn completion<B>(&self) -> (completion: Completion<B>)
        ensures
            completion == self.spec_completion::<B>(),
    {
        let word: u32 = #[verifier::truncate] (self.internal as u32);
        let status: i32 = #[verifier::truncate] (word as i32);
        if status >= 0 {
            Completion::new(Ok(self.bytes))
        } else {
            Completion::new(Err(IoError::from_raw_os_error(self.error)))
        }
    }
}

/// Operations, pending requests and deferred work while a batch is gone
/// through.
#[verifier::ext_equal]
pub struct IocpView<P, J, I, B> {
    pub ops: Map<OpKey, Slot<P, J, I, B>>,
    pub pending: Map<usize, OpKey>,
    pub deferred: Seq<DeferredAction<P, B>>,
}

impl<P, J, I, B> IocpView<P, J, I, B> {
    /// Store a slot, or remove it, and queue what has to be done.
    pub open spec fn spec_apply(self, key: OpKey, slot: Slot<P, J, I, B>, outcome: Completed<P, B>) -> IocpView<P, J, I, B> {
        IocpView {
            ops: if outcome.remove {
                self.ops.remove(key)
            } else {
                self.ops.insert(key, slot)
            },
            deferred: self.deferred + crate::driver::ops::deferred_by(outcome),
            ..self
        }
    }

    /// The effect of a blocking job's result.
    pub open spec fn spec_blocking_done(self, key: OpKey, completion: Completion<B>) -> IocpView<P, J, I, B> {
        if !self.ops.contains_key(key) {
            self
        } else {
            let slot = self.ops[key];
            self.spec_apply(
                key,
                Slot {
                    state: slot.state.spec_complete(completion),
                    interest: slot.interest,
                    blocking_job: slot.blocking_job,
                },
                slot.state.spec_completed(completion),
            )
        }
    }

    /// The effect of blocking jobs' results, in order.
    pub open spec fn spec_blocking_all(self, done: Seq<(OpKey, Completion<B>)>) -> IocpView<P, J, I, B>
        decreases done.len(),
    {
        if done.len() == 0 {
            self
        } else {
            self.spec_blocking_all(done.drop_last()).spec_blocking_done(done.last().0, done.last().1)
        }
    }

    /// The effect of one packet.
    ///
    /// A wakeup, and a packet that no operation waits for, change nothing, and
    /// neither does one whose request names another operation. The request of
    /// any other packet is over.
    pub open spec fn spec_packet(self, entry: PacketEntry) -> IocpView<P, J, I, B> {
        if entry.address == 0 || !self.pending.contains_key(entry.address) || entry.embedded != Some(
            self.pending[entry.address],
        ) {
            self
        } else {
            let key = self.pending[entry.address];
            let freed = IocpView { pending: self.pending.remove(entry.address), ..self };
            if !self.ops.contains_key(key) {
                freed
            } else {
                let slot = self.ops[key];
                let completion = entry.spec_completion::<B>();
                freed.spec_apply(
                    key,
                    Slot {
                        state: slot.state.spec_complete(completion),
                        interest: None,
                        blocking_job: slot.blocking_job,
                    },
                    slot.state.spec_completed(completion),
                )
            }
        }
    }

    /// The effect of a batch of packets, in order.
    pub open spec fn spec_packets(self, batch: Seq<PacketEntry>) -> IocpView<P, J, I, B>
        decreases batch.len(),
    {
        if batch.len() == 0 {
            self
        } else {
            self.spec_packets(batch.drop_last()).spec_packet(batch.last())
        }
    }
}

/// Operations and pending requests of one port.
pub struct IocpBackend<P, J, I, B = ()> {
    ops: OpTable<Slot<P, J, I, B>>,
    pending_by_overlapped: HashMap<usize, OpKey>,
    shutting_down: bool,
}

/// What letting go of an operation asks of the driver.
pub struct Removed<B = ()> {
    pub completion: Option<Completion<B>>,
    pub cancel: Option<CancelTarget>,
}

/// How one poll goes on.
pub enum PollStep<J, B = ()> {
    Ready(Completion<B>),
    Pending,
    /// Hand this job to the blocking pool.
    Dispatch(J),
}

impl<P, J, I, B> IocpBackend<P, J, I, B> {
    pub closed spec fn spec_ops(&self) -> Map<OpKey, Slot<P, J, I, B>> {
        self.ops@
    }

    /// The operation that waits for the request at each address.
    pub closed spec fn spec_pending(&self) -> Map<usize, OpKey> {
        self.pending_by_overlapped@
    }

    pub closed spec fn retired(&self, key: OpKey) -> bool {
        self.ops.retired(key)
    }

    /// What was retired stays retired, and the key of an operation that is gone
    /// is retired.
    pub open spec fn retires(&self, before: &Self) -> bool {
        &&& forall|key: OpKey|
            #![trigger before.retired(key)]
            #![trigger self.retired(key)]
            before.retired(key) ==> self.retired(key)
        &&& forall|key: OpKey|
            #![trigger before.spec_ops().contains_key(key)]
            #![trigger self.retired(key)]
            before.spec_ops().contains_key(key) && !self.spec_ops().contains_key(key) ==> self.retired(key)
    }

    /// Keys are retired, and the table takes no more room than before.
    pub open spec fn continues(&self, before: &Self) -> bool {
        &&& self.retires(before)
        &&& self.spec_slots() == before.spec_slots()
    }

    /// Keys are retired, and the table has room for one operation more.
    pub open spec fn extends(&self, before: &Self) -> bool {
        &&& self.retires(before)
        &&& self.spec_slots() <= before.spec_slots() + 1
    }

    /// As long as the table has fewer slots than keys can name, there is a key
    /// for the next operation.
    pub proof fn law_room_is_left(&self)
        requires
            self.wf(),
            self.spec_slots() < crate::driver::op_table::SLOT_LIMIT,
        ensures
            !self.is_exhausted(),
    {
        self.ops.law_room_is_left();
    }

    /// A retired key finds nothing, and is never handed out again: whoever still
    /// holds it cannot reach a later operation.
    pub proof fn law_stale_key_finds_nothing(&self, key: OpKey)
        requires
            self.wf(),
            self.retired(key),
        ensures
            !self.spec_ops().contains_key(key),
    {
        self.ops.law_retired_key_finds_nothing(key);
    }

    pub closed spec fn is_exhausted(&self) -> bool {
        self.ops.is_exhausted()
    }

    /// How many slots the table of operations has.
    pub closed spec fn spec_slots(&self) -> nat {
        self.ops.spec_slots()
    }

    pub closed spec fn spec_shutting_down(&self) -> bool {
        self.shutting_down
    }

    pub closed spec fn wf(&self) -> bool {
        self.ops.wf()
    }

    /// The state in which a batch is gone through.
    pub open spec fn spec_start(&self) -> IocpView<P, J, I, B> {
        IocpView { ops: self.spec_ops(), pending: self.spec_pending(), deferred: Seq::empty() }
    }

    /// Bookkeeping for a new port.
    pub fn new(capacity: usize) -> (backend: Result<Self, IoError>)
        ensures
            backend is Err <==> capacity > crate::driver::op_table::SLOT_LIMIT,
            backend matches Err(error) ==> error == crate::driver::op_table::too_large(),
            backend matches Ok(backend) ==> {
                &&& backend.wf()
                &&& backend.spec_ops() == Map::<OpKey, Slot<P, J, I, B>>::empty()
                &&& backend.spec_pending() == Map::<usize, OpKey>::empty()
                &&& !backend.spec_shutting_down()
                &&& backend.spec_slots() == 0
                &&& !backend.is_exhausted()
                &&& forall|key: OpKey| !backend.retired(key)
            },
    {
        match OpTable::new(capacity) {
            Ok(ops) => Ok(
                IocpBackend {
                    ops,
                    pending_by_overlapped: HashMap::with_capacity(capacity),
                    shutting_down: false,
                },
            ),
            Err(error) => Err(error),
        }
    }

    /// The operation under `key`, if it is live.
    pub fn slot(&self, key: OpKey) -> (slot: Option<&Slot<P, J, I, B>>)
        requires
            self.wf(),
        ensures
            slot == (if self.spec_ops().contains_key(key) {
                Some(&self.spec_ops()[key])
            } else {
                None
            }),
    {
        self.ops.get(key)
    }

    /// The operation that waits for the request at this address, if any. Only
    /// then may the request be looked into.
    pub fn pending_key(&self, address: usize) -> (key: Option<OpKey>)
        ensures
            key == (if self.spec_pending().contains_key(address) {
                Some(self.spec_pending()[address])
            } else {
                None
            }),
    {
        broadcast use vstd::std_specs::hash::group_hash_axioms;

        match self.pending_by_overlapped.get(&address) {
            Some(key) => Some(*key),
            None => None,
        }
    }

    /// Make room for an operation that is about to be started.
    ///
    /// Where it is refused, the payload comes back with the error.
    pub fn submit_op<T>(&mut self, data: T) -> (op: Result<Op<T>, (IoError, T)>)
        requires
            old(self).wf(),
        ensures
            final(self).wf(),
            final(self).spec_pending() == old(self).spec_pending(),
            final(self).spec_shutting_down() == old(self).spec_shutting_down(),
            op is Err <==> old(self).spec_shutting_down() || old(self).is_exhausted(),
            op matches Err((error, returned)) ==> {
                &&& returned == data
                &&& old(self).spec_shutting_down() ==> error == (IoError::Custom {
                    kind: ErrorKind::BrokenPipe,
                    message: "IOCP backend is shutting down",
                })
                &&& !old(self).spec_shutting_down() ==> error == crate::driver::op_table::keys_exhausted()
                &&& final(self).spec_ops() == old(self).spec_ops()
            },
            op matches Ok(op) ==> {
                &&& op.spec_data() == Some(data)
                &&& !old(self).spec_ops().contains_key(op.spec_key())
                &&& !old(self).retired(op.spec_key())
                &&& final(self).spec_ops() == old(self).spec_ops().insert(
                    op.spec_key(),
                    Slot { state: State::Submitted, interest: None, blocking_job: None },
                )
            },
            final(self).extends(old(self)),
    {
        if self.shutting_down {
            return Err((IoError::new(ErrorKind::BrokenPipe, "IOCP backend is shutting down"), data));
        }
        match self.ops.insert(Slot { state: State::Submitted, interest: None, blocking_job: None }) {
            Ok(key) => Ok(Op::new(key, Box::new(data))),
            Err(error) => Err((error, data)),
        }
    }

    /// Take what starting an operation came to.
    ///
    /// A request at an address that is still awaited cannot be told from the
    /// other one, so the operation is refused.
    pub fn submitted<T>(&mut self, op: Op<T>, submission: IocpSubmission<J, I, B>) -> (op_again: Result<
        Op<T>,
        (IoError, Op<T>),
    >)
        requires
            old(self).wf(),
            old(self).spec_ops().contains_key(op.spec_key()),
        ensures
            final(self).wf(),
            final(self).spec_shutting_down() == old(self).spec_shutting_down(),
            final(self).continues(old(self)),
            ({
                let key = op.spec_key();
                let ops = old(self).spec_ops();
                let pending = old(self).spec_pending();
                let slot = ops[key];
                match submission {
                    IocpSubmission::Ready(completion) => {
                        &&& op_again == Ok::<Op<T>, (IoError, Op<T>)>(op)
                        &&& final(self).spec_pending() == pending
                        &&& final(self).spec_ops() == ops.insert(
                            key,
                            Slot {
                                state: State::Completed(completion),
                                interest: slot.interest,
                                blocking_job: slot.blocking_job,
                            },
                        )
                    },
                    IocpSubmission::Pending(interest) => {
                        &&& final(self).spec_pending() == pending.insert(interest.address, key)
                        &&& if pending.contains_key(interest.address) {
                            &&& final(self).spec_ops() == ops.remove(key)
                            &&& op_again == Err::<Op<T>, (IoError, Op<T>)>(
                                (
                                    IoError::Custom {
                                        kind: ErrorKind::Other,
                                        message: "duplicate IOCP OVERLAPPED address",
                                    },
                                    op,
                                ),
                            )
                        } else {
                            &&& op_again == Ok::<Op<T>, (IoError, Op<T>)>(op)
                            &&& final(self).spec_ops() == ops.insert(
                                key,
                                Slot {
                                    state: slot.state,
                                    interest: Some(interest),
                                    blocking_job: slot.blocking_job,
                                },
                            )
                        }
                    },
                    IocpSubmission::Blocking(job) => {
                        &&& op_again == Ok::<Op<T>, (IoError, Op<T>)>(op)
                        &&& final(self).spec_pending() == pending
                        &&& final(self).spec_ops() == ops.insert(
                            key,
                            Slot { state: slot.state, interest: slot.interest, blocking_job: Some(job) },
                        )
                    },
                }
            }),
    {
        broadcast use vstd::std_specs::hash::group_hash_axioms;

        let key = op.key();
        match submission {
            IocpSubmission::Ready(completion) => {
                if let Some(slot) = self.ops.get_mut(key) {
                    slot.state = State::Completed(completion);
                }
            },
            IocpSubmission::Pending(interest) => {
                if self.pending_by_overlapped.insert(interest.address, key).is_some() {
                    let _ = self.ops.remove(key);
                    return Err((IoError::other("duplicate IOCP OVERLAPPED address"), op));
                }
                if let Some(slot) = self.ops.get_mut(key) {
                    slot.interest = Some(interest);
                }
            },
            IocpSubmission::Blocking(job) => {
                if let Some(slot) = self.ops.get_mut(key) {
                    slot.blocking_job = Some(job);
                }
            },
        }
        Ok(op)
    }

    /// Let go of an operation whose future is dropped.
    ///
    /// A job that has not started is dropped with it. Otherwise the payload
    /// stays until the completion packet. A completion that was never asked
    /// for comes back.
    pub fn remove_op(&mut self, op: &mut Op<P>) -> (removed: Removed<B>)
        requires
            old(self).wf(),
            old(self).spec_ops().contains_key(old(op).spec_key()) ==> {
                let slot = old(self).spec_ops()[old(op).spec_key()];
                &&& !(slot.state.listener() is Payload)
                &&& slot.state is Canceling || !(slot.state is Completed) && slot.blocking_job is None ==> old(
                    op,
                ).spec_data() is Some
            },
        ensures
            final(self).wf(),
            final(self).spec_pending() == old(self).spec_pending(),
            final(self).spec_shutting_down() == old(self).spec_shutting_down(),
            final(self).continues(old(self)),
            final(op).spec_key() == old(op).spec_key(),
            ({
                let key = old(op).spec_key();
                let ops = old(self).spec_ops();
                if !ops.contains_key(key) {
                    &&& removed == (Removed::<B> { completion: None, cancel: None })
                    &&& final(self).spec_ops() == ops
                    &&& final(op).spec_data() == old(op).spec_data()
                } else {
                    let slot = ops[key];
                    match slot.state {
                        State::Completed(completion) => {
                            &&& removed == (Removed { completion: Some(completion), cancel: None })
                            &&& final(self).spec_ops() == ops.remove(key)
                            &&& final(op).spec_data() == old(op).spec_data()
                        },
                        State::Canceling { .. } => {
                            &&& removed == (Removed::<B> { completion: None, cancel: None })
                            &&& final(self).spec_ops() == ops.insert(
                                key,
                                Slot {
                                    state: slot.state.spec_detach(old(op).spec_data()->0),
                                    interest: slot.interest,
                                    blocking_job: slot.blocking_job,
                                },
                            )
                            &&& final(op).spec_data() is None
                        },
                        _ => if slot.blocking_job is Some {
                            &&& removed == (Removed::<B> { completion: None, cancel: None })
                            &&& final(self).spec_ops() == ops.remove(key)
                            &&& final(op).spec_data() is None
                        } else {
                            &&& removed == (Removed::<B> { completion: None, cancel: slot.spec_target() })
                            &&& final(self).spec_ops() == ops.insert(
                                key,
                                Slot {
                                    state: slot.state.spec_detach(old(op).spec_data()->0),
                                    interest: slot.interest,
                                    blocking_job: None,
                                },
                            )
                            &&& final(op).spec_data() is None
                        },
                    }
                }
            }),
    {
        let key = op.key();
        let (over, canceling, parked) = match self.ops.get(key) {
            Some(slot) => match &slot.state {
                State::Completed(_) => (true, false, false),
                State::Canceling { .. } => (false, true, false),
                _ => (false, false, slot.blocking_job.is_some()),
            },
            None => {
                return Removed { completion: None, cancel: None };
            },
        };
        if over {
            let completion = match self.ops.remove(key) {
                Some(Slot { state: State::Completed(completion), .. }) => Some(completion),
                _ => None,
            };
            return Removed { completion, cancel: None };
        }
        if parked {
            let _ = self.ops.remove(key);
            let _ = op.take_data();
            return Removed { completion: None, cancel: None };
        }
        let mut cancel: Option<CancelTarget> = None;
        if let Some(slot) = self.ops.get_mut(key) {
            if let Some(data) = op.take_data() {
                if !canceling {
                    cancel = slot.target();
                }
                slot.state.detach(*data);
            }
        }
        Removed { completion: None, cancel }
    }

    /// Request cancellation of an operation. Answers with the request that
    /// Windows has to be asked to cancel. A stale key is left alone.
    pub fn cancel_op(&mut self, key: OpKey) -> (target: Option<CancelTarget>)
        requires
            old(self).wf(),
        ensures
            final(self).wf(),
            final(self).spec_pending() == old(self).spec_pending(),
            final(self).spec_shutting_down() == old(self).spec_shutting_down(),
            final(self).continues(old(self)),
            target == (if old(self).spec_ops().contains_key(key) {
                old(self).spec_ops()[key].spec_cancel_target()
            } else {
                None
            }),
            final(self).spec_ops() == (if old(self).spec_ops().contains_key(key) {
                old(self).spec_ops().insert(key, old(self).spec_ops()[key].spec_cancel())
            } else {
                old(self).spec_ops()
            }),
    {
        match self.ops.get_mut(key) {
            Some(slot) => slot.cancel(),
            None => None,
        }
    }

    /// One poll of an operation, on behalf of a task with this waker.
    ///
    /// `same` says whether the waker registered before, if there is one, is
    /// known to wake the same task.
    pub fn poll_op_as(&mut self, op: &Op<P>, current: Waker, same: bool) -> (step: PollStep<J, B>)
        requires
            old(self).wf(),
            old(self).spec_ops().contains_key(op.spec_key()),
            !(old(self).spec_ops()[op.spec_key()].state.listener() is Payload),
        ensures
            final(self).wf(),
            final(self).spec_pending() == old(self).spec_pending(),
            final(self).spec_shutting_down() == old(self).spec_shutting_down(),
            final(self).continues(old(self)),
            polled_as(old(self).spec_ops(), op.spec_key(), current, same, final(self).spec_ops(), step),
    {
        let key = op.key();
        let over = match self.ops.get(key) {
            Some(slot) => match &slot.state {
                State::Completed(_) => !slot.blocking_job.is_some(),
                _ => false,
            },
            None => false,
        };
        if over {
            return match self.ops.remove(key) {
                Some(Slot { state: State::Completed(completion), .. }) => PollStep::Ready(completion),
                _ => PollStep::Pending,
            };
        }
        if let Some(slot) = self.ops.get_mut(key) {
            if let Some(job) = slot.blocking_job.take() {
                slot.state = State::Waiting(current);
                return PollStep::Dispatch(job);
            }
            slot.state.observe(current, same);
        }
        PollStep::Pending
    }

    /// One poll of an operation.
    pub fn poll_op(&mut self, op: &Op<P>, waker: &Waker) -> (step: PollStep<J, B>)
        requires
            old(self).wf(),
            old(self).spec_ops().contains_key(op.spec_key()),
            !(old(self).spec_ops()[op.spec_key()].state.listener() is Payload),
        ensures
            final(self).wf(),
            final(self).spec_pending() == old(self).spec_pending(),
            final(self).spec_shutting_down() == old(self).spec_shutting_down(),
            final(self).continues(old(self)),
            exists|current: Waker, same: bool| #[trigger]
                polled_as(old(self).spec_ops(), op.spec_key(), current, same, final(self).spec_ops(), step)
                    && crate::task::brought(
                    old(self).spec_ops()[op.spec_key()].state.listener().spec_task(),
                    *waker,
                    current,
                    same,
                ),
    {
        let registered = match self.ops.get(op.key()) {
            Some(slot) => slot.state.registered(),
            None => None,
        };
        let (current, same) = bring(registered, waker);
        self.poll_op_as(op, current, same)
    }

    /// Take the outcome of handing a blocking job to the pool. Where that
    /// failed, the failure is the operation's completion.
    pub fn poll_dispatched(&mut self, key: OpKey, dispatched: Result<(), IoError>) -> (polled: Poll<Completion<B>>)
        requires
            old(self).wf(),
        ensures
            final(self).wf(),
            final(self).spec_pending() == old(self).spec_pending(),
            final(self).spec_shutting_down() == old(self).spec_shutting_down(),
            final(self).continues(old(self)),
            match dispatched {
                Ok(()) => {
                    &&& polled is Pending
                    &&& final(self).spec_ops() == old(self).spec_ops()
                },
                Err(error) => {
                    &&& polled == Poll::Ready(
                        Completion { result: Err(error), flags: 0, blocking_value: None::<B> },
                    )
                    &&& final(self).spec_ops() == old(self).spec_ops().remove(key)
                },
            },
    {
        match dispatched {
            Ok(()) => Poll::Pending,
            Err(error) => {
                let _ = self.ops.remove(key);
                Poll::Ready(Completion::new(Err(error)))
            },
        }
    }

    /// Take the results of blocking jobs.
    pub fn drain_blocking_completions(&mut self, done: Vec<(OpKey, Completion<B>)>) -> (deferred: Vec<
        DeferredAction<P, B>,
    >)
        requires
            old(self).wf(),
        ensures
            final(self).wf(),
            final(self).spec_shutting_down() == old(self).spec_shutting_down(),
            final(self).continues(old(self)),
            (IocpView {
                ops: final(self).spec_ops(),
                pending: final(self).spec_pending(),
                deferred: deferred@,
            }) == old(self).spec_start().spec_blocking_all(done@),
    {
        let mut deferred: Vec<DeferredAction<P, B>> = Vec::new();
        let ghost all = done@;
        let ghost mut taken: int = 0;
        for item in iter: done
            invariant
                iter.seq() == all,
                taken == iter.index(),
                self.wf(),
                self.spec_shutting_down() == old(self).spec_shutting_down(),
                self.continues(old(self)),
                (IocpView {
                    ops: self.spec_ops(),
                    pending: self.spec_pending(),
                    deferred: deferred@,
                }) == old(self).spec_start().spec_blocking_all(all.subrange(0, taken)),
        {
            let (key, completion) = item;
            proof {
                let through = all.subrange(0, taken + 1);
                assert(through.drop_last() =~= all.subrange(0, taken));
                assert(through.last() == all[taken]);
            }
            let mut drop_slot = false;
            if let Some(slot) = self.ops.get_mut(key) {
                let outcome = slot.state.complete(completion);
                defer(&mut deferred, outcome.wake, outcome.cleanup);
                drop_slot = outcome.remove;
            }
            if drop_slot {
                let _ = self.ops.remove(key);
            }
            proof {
                taken = taken + 1;
            }
        }
        assert(all.subrange(0, taken) =~= all);
        deferred
    }

    /// Go through a batch of completion packets.
    pub fn dispatch_completions(&mut self, batch: &Vec<PacketEntry>) -> (deferred: Vec<DeferredAction<P, B>>)
        requires
            old(self).wf(),
        ensures
            final(self).wf(),
            final(self).spec_shutting_down() == old(self).spec_shutting_down(),
            final(self).continues(old(self)),
            (IocpView {
                ops: final(self).spec_ops(),
                pending: final(self).spec_pending(),
                deferred: deferred@,
            }) == old(self).spec_start().spec_packets(batch@),
    {
        broadcast use vstd::std_specs::hash::group_hash_axioms;

        let mut deferred: Vec<DeferredAction<P, B>> = Vec::new();
        let mut next: usize = 0;
        while next < batch.len()
            invariant
                next <= batch@.len(),
                self.wf(),
                self.spec_shutting_down() == old(self).spec_shutting_down(),
                self.continues(old(self)),
                (IocpView {
                    ops: self.spec_ops(),
                    pending: self.spec_pending(),
                    deferred: deferred@,
                }) == old(self).spec_start().spec_packets(batch@.subrange(0, next as int)),
            decreases batch@.len() - next,
        {
            let entry = batch[next];
            proof {
                let through = batch@.subrange(0, next + 1);
                assert(through.drop_last() =~= batch@.subrange(0, next as int));
                assert(through.last() == entry);
            }
            if entry.address != 0 {
                if let Some(expected) = self.pending_key(entry.address) {
                    let same = match entry.embedded {
                        Some(key) => key == expected,
                        None => false,
                    };
                    if same {
                        self.dispatch_one(expected, entry, &mut deferred);
                    }
                }
            }
            next += 1;
        }
        assert(batch@.subrange(0, next as int) =~= batch@);
        deferred
    }

    fn dispatch_one(&mut self, key: OpKey, entry: PacketEntry, deferred: &mut Vec<DeferredAction<P, B>>)
        requires
            old(self).wf(),
            entry.address != 0,
            old(self).spec_pending().contains_key(entry.address),
            old(self).spec_pending()[entry.address] == key,
            entry.embedded == Some(key),
        ensures
            final(self).wf(),
            final(self).spec_shutting_down() == old(self).spec_shutting_down(),
            final(self).continues(old(self)),
            (IocpView {
                ops: final(self).spec_ops(),
                pending: final(self).spec_pending(),
                deferred: final(deferred)@,
            }) == (IocpView {
                ops: old(self).spec_ops(),
                pending: old(self).spec_pending(),
                deferred: old(deferred)@,
            }).spec_packet(entry),
    {
        broadcast use vstd::std_specs::hash::group_hash_axioms;

        let _ = self.pending_by_overlapped.remove(&entry.address);
        let mut drop_slot = false;
        if let Some(slot) = self.ops.get_mut(key) {
            slot.interest = None;
            let outcome = slot.state.complete(entry.completion());
            defer(deferred, outcome.wake, outcome.cleanup);
            drop_slot = outcome.remove;
        }
        if drop_slot {
            let _ = self.ops.remove(key);
        }
    }

    /// Stop taking work. Answers whether this is the first request to do so.
    pub fn begin_shutdown(&mut self) -> (first: bool)
        requires
            old(self).wf(),
        ensures
            final(self).wf(),
            first == !old(self).spec_shutting_down(),
            final(self).spec_shutting_down(),
            final(self).spec_ops() == old(self).spec_ops(),
            final(self).spec_pending() == old(self).spec_pending(),
            final(self).continues(old(self)),
    {
        let first = !self.shutting_down;
        self.shutting_down = true;
        first
    }

    /// Prepare every operation for the end of the port. Answers with the
    /// requests to cancel, in the order of the slots.
    pub fn shutdown_prepare(&mut self) -> (cancel: Vec<CancelTarget>)
        requires
            old(self).wf(),
        ensures
            final(self).wf(),
            final(self).spec_shutting_down() == old(self).spec_shutting_down(),
            final(self).spec_pending() == old(self).spec_pending(),
            final(self).continues(old(self)),
            final(self).spec_ops() == old(self).spec_ops().map_values(
                |slot: Slot<P, J, I, B>| slot.spec_shutdown(),
            ),
            exists|order: Seq<OpKey>| #[trigger]
                crate::driver::op_table::covers(order, old(self).spec_ops().dom()) && cancel@
                    == shutdown_targets(old(self).spec_ops(), order),
    {
        let keys = self.ops.keys();
        let mut cancel: Vec<CancelTarget> = Vec::new();
        let mut next: usize = 0;
        let ghost before = self.spec_ops();
        assert(cancel@ =~= shutdown_targets(before, keys@.subrange(0, 0)));
        while next < keys.len()
            invariant
                next <= keys@.len(),
                self.wf(),
                self.spec_shutting_down() == old(self).spec_shutting_down(),
                self.spec_pending() == old(self).spec_pending(),
                self.continues(old(self)),
                before == old(self).spec_ops(),
                crate::driver::op_table::covers(keys@, before.dom()),
                self.spec_ops().dom() == before.dom(),
                forall|i: int|
                    0 <= i < next ==> self.spec_ops()[#[trigger] keys@[i]] == before[keys@[i]].spec_shutdown(),
                forall|i: int|
                    next <= i < keys@.len() ==> self.spec_ops()[#[trigger] keys@[i]] == before[keys@[i]],
                cancel@ == shutdown_targets(before, keys@.subrange(0, next as int)),
            decreases keys@.len() - next,
        {
            let key = keys[next];
            let ghost ops = self.spec_ops();
            proof {
                assert(keys@.contains(key));
                assert(ops.dom().contains(key));
                let through = keys@.subrange(0, next + 1);
                assert(through.drop_last() =~= keys@.subrange(0, next as int));
                assert(through.last() == key);
            }
            if let Some(slot) = self.ops.get_mut(key) {
                let target = slot.target();
                if slot.state.shutdown() {
                    if let Some(target) = target {
                        cancel.push(target);
                    }
                }
            }
            proof {
                assert(self.spec_ops() =~= ops.insert(key, before[key].spec_shutdown()));
                assert(self.spec_ops().dom() =~= before.dom());
            }
            next += 1;
        }
        proof {
            assert(keys@.subrange(0, next as int) =~= keys@);
            let after = before.map_values(|slot: Slot<P, J, I, B>| slot.spec_shutdown());
            assert forall|key: OpKey| before.dom().contains(key) implies #[trigger] self.spec_ops()[key]
                == after[key] by {
                assert(keys@.contains(key));
                let i = choose|i: int| 0 <= i < keys@.len() && keys@[i] == key;
                assert(self.spec_ops()[keys@[i]] == before[keys@[i]].spec_shutdown());
            }
            assert(self.spec_ops() =~= after);
        }
        cancel
    }

    /// Whether Windows may still use the memory of an operation that nobody
    /// observes.
    pub fn shutdown_waits(&self) -> (waits: bool)
        requires
            self.wf(),
        ensures
            waits == waits_for_windows(self.spec_ops()),
    {
        let keys = self.ops.keys();
        let mut next: usize = 0;
        while next < keys.len()
            invariant
                next <= keys@.len(),
                self.wf(),
                crate::driver::op_table::covers(keys@, self.spec_ops().dom()),
                forall|i: int|
                    0 <= i < next ==> !(self.spec_ops()[#[trigger] keys@[i]].state.listener() is Payload),
            decreases keys@.len() - next,
        {
            let key = keys[next];
            assert(keys@.contains(key));
            assert(self.spec_ops().contains_key(key));
            if let Some(slot) = self.ops.get(key) {
                match &slot.state {
                    State::Detached(_) => {
                        return true;
                    },
                    State::Canceling { observer: CancelObserver::Detached(_) } => {
                        return true;
                    },
                    _ => {},
                }
            }
            next += 1;
        }
        assert forall|key: OpKey| #[trigger] self.spec_ops().contains_key(key) implies !(
        self.spec_ops()[key].state.listener() is Payload) by {
            assert(keys@.contains(key));
            let i = choose|i: int| 0 <= i < keys@.len() && keys@[i] == key;
            assert(!(self.spec_ops()[keys@[i]].state.listener() is Payload));
        }
        false
    }

    /// Forget every operation.
    pub fn shutdown_finish(&mut self)
        requires
            old(self).wf(),
        ensures
            final(self).wf(),
            final(self).spec_ops() == Map::<OpKey, Slot<P, J, I, B>>::empty(),
            final(self).spec_pending() == old(self).spec_pending(),
            final(self).spec_shutting_down() == old(self).spec_shutting_down(),
            final(self).continues(old(self)),
    {
        self.ops.clear();
    }
}

/// How far the end of a port has come.
#[derive(Clone, Copy, Debug, PartialEq, Eq, Structural)]
pub enum ShutdownStage {
    /// Stop taking work and cancel what is pending.
    Begin,
    /// Wait for Windows to let go of the operations.
    Drain,
    Finished,
}

/// What has to be done next at the end of a port.
pub enum ShutdownAction {
    /// No wakeup is delivered any more. Cancel these requests.
    Cancel(Vec<CancelTarget>),
    /// Wait for packets, then take the results of blocking jobs and the packets.
    /// Where waiting fails, take the next step.
    WaitAndDispatch,
    Done,
}

/// Whether Windows may still use the memory of an operation that nobody
/// observes.
pub open spec fn waits_for_windows<P, J, I, B>(ops: Map<OpKey, Slot<P, J, I, B>>) -> bool {
    exists|key: OpKey| #[trigger] ops.contains_key(key) && ops[key].state.listener() is Payload
}

/// What one step of the end of a port does: it goes on from `stage`.
pub open spec fn shutdown_stepped<P, J, I, B>(
    before: &IocpBackend<P, J, I, B>,
    stage: ShutdownStage,
    after: &IocpBackend<P, J, I, B>,
    step: (ShutdownStage, ShutdownAction),
) -> bool {
    &&& after.spec_pending() == before.spec_pending()
    &&& after.spec_shutting_down() == (before.spec_shutting_down() || stage is Begin)
    &&& match stage {
        ShutdownStage::Begin => if before.spec_shutting_down() {
            &&& step.0 is Finished
            &&& step.1 is Done
            &&& after.spec_ops() == before.spec_ops()
        } else {
            &&& step.0 is Drain
            &&& after.spec_ops() == before.spec_ops().map_values(|slot: Slot<P, J, I, B>| slot.spec_shutdown())
            &&& step.1 matches ShutdownAction::Cancel(cancel)
            &&& exists|order: Seq<OpKey>| #[trigger]
                crate::driver::op_table::covers(order, before.spec_ops().dom()) && cancel@ == shutdown_targets(
                    before.spec_ops(),
                    order,
                )
        },
        ShutdownStage::Drain => if waits_for_windows(before.spec_ops()) {
            &&& step.0 is Drain
            &&& step.1 is WaitAndDispatch
            &&& after.spec_ops() == before.spec_ops()
        } else {
            &&& step.0 is Finished
            &&& step.1 is Done
            &&& after.spec_ops() == Map::<OpKey, Slot<P, J, I, B>>::empty()
        },
        ShutdownStage::Finished => {
            &&& step.0 is Finished
            &&& step.1 is Done
            &&& after.spec_ops() == before.spec_ops()
        },
    }
}

impl<P, J, I, B> IocpBackend<P, J, I, B> {
    /// The next step of the end of a port. A second end of the same port does
    /// nothing.
    pub fn shutdown_next(&mut self, stage: ShutdownStage) -> (step: (ShutdownStage, ShutdownAction))
        requires
            old(self).wf(),
        ensures
            final(self).wf(),
            final(self).continues(old(self)),
            shutdown_stepped(old(self), stage, final(self), step),
    {
        match stage {
            ShutdownStage::Begin => {
                if !self.begin_shutdown() {
                    return (ShutdownStage::Finished, ShutdownAction::Done);
                }
                let cancel = self.shutdown_prepare();
                (ShutdownStage::Drain, ShutdownAction::Cancel(cancel))
            },
            ShutdownStage::Drain => {
                if self.shutdown_waits() {
                    return (ShutdownStage::Drain, ShutdownAction::WaitAndDispatch);
                }
                self.shutdown_finish();
                (ShutdownStage::Finished, ShutdownAction::Done)
            },
            ShutdownStage::Finished => (ShutdownStage::Finished, ShutdownAction::Done),
        }
    }
}

/// The outcome of one poll of an operation.
pub open spec fn polled_as<P, J, I, B>(
    before: Map<OpKey, Slot<P, J, I, B>>,
    key: OpKey,
    current: Waker,
    same: bool,
    after: Map<OpKey, Slot<P, J, I, B>>,
    step: PollStep<J, B>,
) -> bool {
    let slot = before[key];
    if slot.blocking_job is Some {
        &&& step == PollStep::<J, B>::Dispatch(slot.blocking_job->0)
        &&& after == before.insert(
            key,
            Slot { state: State::Waiting(current), interest: slot.interest, blocking_job: None },
        )
    } else {
        match slot.state {
            State::Completed(completion) => {
                &&& step == PollStep::<J, B>::Ready(completion)
                &&& after == before.remove(key)
            },
            state => {
                &&& step is Pending
                &&& after == before.insert(
                    key,
                    Slot {
                        state: state.spec_observe(current, same),
                        interest: slot.interest,
                        blocking_job: None,
                    },
                )
            },
        }
    }
}

/// The requests that the end of the port cancels, in order.
pub open spec fn shutdown_targets<P, J, I, B>(
    ops: Map<OpKey, Slot<P, J, I, B>>,
    keys: Seq<OpKey>,
) -> Seq<CancelTarget>
    decreases keys.len(),
{
    if keys.len() == 0 {
        Seq::empty()
    } else {
        let rest = shutdown_targets(ops, keys.drop_last());
        match ops[keys.last()].spec_shutdown_target() {
            Some(target) => rest.push(target),
            None => rest,
        }
    }
}

/// Whether a packet ends the request at this address, which `key` made.
pub open spec fn ends(entry: PacketEntry, address: usize, key: OpKey) -> bool {
    entry.address == address && entry.embedded == Some(key)
}

impl<P, J, I, B> IocpView<P, J, I, B> {
    /// Whether `address` is the only request of the operation under `key`, and
    /// somebody may still ask for its completion.
    pub open spec fn awaits_packet(self, key: OpKey, address: usize) -> bool {
        &&& address != 0
        &&& self.ops.contains_key(key)
        &&& self.ops[key].blocking_job is None
        &&& self.ops[key].state.listener() is Nobody || self.ops[key].state.listener() is Task
        &&& self.pending.contains_key(address)
        &&& forall|other: usize| #[trigger]
            self.pending.contains_key(other) && self.pending[other] == key ==> other == address
        &&& self.pending[address] == key
    }

    /// Packets of other requests leave an operation alone.
    proof fn lemma_others_are_left_alone(self, batch: Seq<PacketEntry>, key: OpKey, address: usize)
        requires
            self.awaits_packet(key, address),
            forall|i: int| 0 <= i < batch.len() ==> !ends(#[trigger] batch[i], address, key),
        ensures
            self.spec_packets(batch).awaits_packet(key, address),
            self.spec_packets(batch).ops[key] == self.ops[key],
        decreases batch.len(),
    {
        if batch.len() > 0 {
            let earlier = batch.drop_last();
            assert forall|i: int| 0 <= i < earlier.len() implies !ends(#[trigger] earlier[i], address, key) by {
                assert(earlier[i] == batch[i]);
            }
            self.lemma_others_are_left_alone(earlier, key, address);
            assert(!ends(batch[batch.len() - 1], address, key));
            let before = self.spec_packets(earlier);
            let entry = batch.last();
            if before.pending.contains_key(entry.address) {
                assert(before.pending[entry.address] == key ==> entry.address == address);
            }
        }
    }

    proof fn lemma_packet_completion_stays(self, batch: Seq<PacketEntry>, key: OpKey, address: usize, first: int)
        requires
            self.awaits_packet(key, address),
            0 <= first < batch.len(),
            ends(batch[first], address, key),
            forall|i: int| 0 <= i < first ==> !ends(#[trigger] batch[i], address, key),
        ensures
            ({
                let after = self.spec_packets(batch);
                &&& after.ops.contains_key(key)
                &&& after.ops[key].state == State::<P, B>::Completed(batch[first].spec_completion::<B>())
                &&& after.ops[key].blocking_job is None
                &&& forall|other: usize| #[trigger] after.pending.contains_key(other) ==> after.pending[other] != key
                &&& self.ops[key].state.listener() matches Listener::Task(waker) ==> after.deferred.contains(
                    DeferredAction::Wake(waker),
                )
            }),
        decreases batch.len(),
    {
        let earlier = batch.drop_last();
        let before = self.spec_packets(earlier);
        let after = self.spec_packets(batch);
        assert forall|i: int| 0 <= i < first implies !ends(#[trigger] earlier[i], address, key) by {
            assert(earlier[i] == batch[i]);
        }
        if first == batch.len() - 1 {
            self.lemma_others_are_left_alone(earlier, key, address);
            assert forall|other: usize| #[trigger] after.pending.contains_key(other) implies after.pending[other]
                != key by {
                assert(before.pending.contains_key(other));
            }
            if let Listener::Task(waker) = self.ops[key].state.listener() {
                assert(after.deferred == before.deferred + seq![DeferredAction::<P, B>::Wake(waker)]);
                assert(after.deferred[before.deferred.len() as int] == DeferredAction::<P, B>::Wake(waker));
            }
        } else {
            assert(earlier[first] == batch[first]);
            self.lemma_packet_completion_stays(earlier, key, address, first);
            assert forall|other: usize| #[trigger] after.pending.contains_key(other) implies after.pending[other]
                != key by {
                assert(before.pending.contains_key(other));
            }
            if let Listener::Task(waker) = self.ops[key].state.listener() {
                let wake = DeferredAction::<P, B>::Wake(waker);
                let i = choose|i: int| 0 <= i < before.deferred.len() && before.deferred[i] == wake;
                assert(after.deferred[i] == wake);
            }
        }
    }

    /// The future of an operation gets what the packet of its request brings,
    /// and a task that waits for it is woken, whatever else Windows reports in
    /// the same batch. The slot is free then.
    pub proof fn law_future_gets_the_packet(
        self,
        batch: Seq<PacketEntry>,
        key: OpKey,
        address: usize,
        first: int,
        current: Waker,
        same: bool,
        after: Map<OpKey, Slot<P, J, I, B>>,
        step: PollStep<J, B>,
    )
        requires
            self.awaits_packet(key, address),
            0 <= first < batch.len(),
            ends(batch[first], address, key),
            forall|i: int| 0 <= i < first ==> !ends(#[trigger] batch[i], address, key),
            polled_as(self.spec_packets(batch).ops, key, current, same, after, step),
        ensures
            step == PollStep::<J, B>::Ready(batch[first].spec_completion::<B>()),
            step matches PollStep::Ready(completion) && reported_by(batch[first], completion),
            after == self.spec_packets(batch).ops.remove(key),
            self.ops[key].state.listener() matches Listener::Task(waker) ==> self.spec_packets(
                batch,
            ).deferred.contains(DeferredAction::Wake(waker)),
    {
        self.lemma_packet_completion_stays(batch, key, address, first);
        batch[first].lemma_reported::<B>();
    }
}

/// One event at the end of a port.
pub enum EndEvent<B> {
    /// The next step was taken.
    Stepped(ShutdownAction),
    /// Blocking jobs returned these results.
    Returned(Seq<(OpKey, Completion<B>)>),
    /// Windows delivered these packets.
    Delivered(Seq<PacketEntry>),
}

/// What an event does at the end of a port.
pub open spec fn end_event<P, J, I, B>(
    before: (IocpBackend<P, J, I, B>, ShutdownStage),
    event: EndEvent<B>,
    after: (IocpBackend<P, J, I, B>, ShutdownStage),
) -> bool {
    match event {
        EndEvent::Stepped(action) => shutdown_stepped(&before.0, before.1, &after.0, (after.1, action)),
        EndEvent::Returned(done) => {
            &&& after.1 == before.1
            &&& after.0.spec_ops() == before.0.spec_start().spec_blocking_all(done).ops
            &&& after.0.spec_pending() == before.0.spec_start().spec_blocking_all(done).pending
        },
        EndEvent::Delivered(batch) => {
            &&& after.1 == before.1
            &&& after.0.spec_ops() == before.0.spec_start().spec_packets(batch).ops
            &&& after.0.spec_pending() == before.0.spec_start().spec_packets(batch).pending
        },
    }
}

impl<P, J, I, B> IocpView<P, J, I, B> {
    /// Whether the payload of an operation waits for its completion.
    pub open spec fn spec_left_behind(self, key: OpKey, payload: IgnoredOp<P>) -> bool {
        &&& self.ops.contains_key(key)
        &&& self.ops[key].state.listener() == Listener::Payload(payload)
    }

    /// Whether a packet is that of a request which the operation under `key`
    /// made.
    pub open spec fn spec_answers(self, entry: PacketEntry, key: OpKey) -> bool {
        &&& entry.address != 0
        &&& self.pending.contains_key(entry.address)
        &&& self.pending[entry.address] == key
        &&& entry.embedded == Some(key)
    }

    /// The deferred work that the packets of one operation bring.
    pub open spec fn spec_packet_work_for(self, batch: Seq<PacketEntry>, key: OpKey) -> Seq<DeferredAction<P, B>>
        decreases batch.len(),
    {
        if batch.len() == 0 {
            Seq::empty()
        } else {
            let earlier = self.spec_packet_work_for(batch.drop_last(), key);
            let before = self.spec_packets(batch.drop_last());
            if before.spec_answers(batch.last(), key) {
                earlier + before.spec_packet(batch.last()).deferred.skip(before.deferred.len() as int)
            } else {
                earlier
            }
        }
    }

    /// The deferred work that the results of one operation's jobs bring.
    pub open spec fn spec_job_work_for(self, done: Seq<(OpKey, Completion<B>)>, key: OpKey) -> Seq<
        DeferredAction<P, B>,
    >
        decreases done.len(),
    {
        if done.len() == 0 {
            Seq::empty()
        } else {
            let earlier = self.spec_job_work_for(done.drop_last(), key);
            let before = self.spec_blocking_all(done.drop_last());
            if done.last().0 == key {
                earlier + before.spec_blocking_done(key, done.last().1).deferred.skip(
                    before.deferred.len() as int,
                )
            } else {
                earlier
            }
        }
    }

    /// How far packets bring a payload that waits.
    proof fn lemma_packets_and_payload(self, batch: Seq<PacketEntry>, key: OpKey, payload: IgnoredOp<P>)
        requires
            self.spec_left_behind(key, payload),
        ensures
            ({
                ||| {
                    &&& self.spec_packets(batch).spec_left_behind(key, payload)
                    &&& self.spec_packet_work_for(batch, key) == Seq::<DeferredAction<P, B>>::empty()
                }
                ||| {
                    &&& !self.spec_packets(batch).ops.contains_key(key)
                    &&& exists|j: int|
                        0 <= j < batch.len() && (#[trigger] batch[j]).embedded == Some(key)
                            && self.spec_packet_work_for(batch, key) == seq![
                            DeferredAction::Cleanup { payload, completion: batch[j].spec_completion::<B>() },
                        ]
                }
            }),
        decreases batch.len(),
    {
        if batch.len() > 0 {
            let last = batch.len() - 1;
            let earlier = batch.drop_last();
            let before = self.spec_packets(earlier);
            let after = self.spec_packets(batch);
            let entry = batch.last();
            self.lemma_packets_and_payload(earlier, key, payload);
            if before.spec_left_behind(key, payload) {
                assert(self.spec_packet_work_for(earlier, key) == Seq::<DeferredAction<P, B>>::empty());
                if before.spec_answers(entry, key) {
                    let cleanup = DeferredAction::Cleanup { payload, completion: entry.spec_completion::<B>() };
                    assert(after.deferred =~= before.deferred.push(cleanup));
                    assert(after.deferred.skip(before.deferred.len() as int) =~= seq![cleanup]);
                    assert(self.spec_packet_work_for(batch, key) =~= seq![cleanup]);
                    assert(batch[last].embedded == Some(key));
                }
            } else {
                let j = choose|j: int|
                    0 <= j < earlier.len() && (#[trigger] earlier[j]).embedded == Some(key)
                        && self.spec_packet_work_for(earlier, key) == seq![
                        DeferredAction::Cleanup { payload, completion: earlier[j].spec_completion::<B>() },
                    ];
                assert(batch[j] == earlier[j]);
                if before.spec_answers(entry, key) {
                    assert(after.deferred.skip(before.deferred.len() as int)
                        =~= Seq::<DeferredAction<P, B>>::empty());
                    assert(self.spec_packet_work_for(batch, key) =~= self.spec_packet_work_for(earlier, key));
                }
            }
        }
    }

    /// How far the results of jobs bring a payload that waits.
    proof fn lemma_jobs_and_payload(self, done: Seq<(OpKey, Completion<B>)>, key: OpKey, payload: IgnoredOp<P>)
        requires
            self.spec_left_behind(key, payload),
        ensures
            ({
                ||| {
                    &&& self.spec_blocking_all(done).spec_left_behind(key, payload)
                    &&& self.spec_job_work_for(done, key) == Seq::<DeferredAction<P, B>>::empty()
                }
                ||| {
                    &&& !self.spec_blocking_all(done).ops.contains_key(key)
                    &&& exists|j: int|
                        0 <= j < done.len() && (#[trigger] done[j]).0 == key && self.spec_job_work_for(done, key)
                            == seq![DeferredAction::Cleanup { payload, completion: done[j].1 }]
                }
            }),
        decreases done.len(),
    {
        if done.len() > 0 {
            let last = done.len() - 1;
            let earlier = done.drop_last();
            let before = self.spec_blocking_all(earlier);
            let after = self.spec_blocking_all(done);
            self.lemma_jobs_and_payload(earlier, key, payload);
            if before.spec_left_behind(key, payload) {
                assert(self.spec_job_work_for(earlier, key) == Seq::<DeferredAction<P, B>>::empty());
                if done.last().0 == key {
                    let cleanup = DeferredAction::Cleanup { payload, completion: done.last().1 };
                    assert(after.deferred =~= before.deferred.push(cleanup));
                    assert(after.deferred.skip(before.deferred.len() as int) =~= seq![cleanup]);
                    assert(self.spec_job_work_for(done, key) =~= seq![cleanup]);
                    assert(done[last].0 == key);
                }
            } else {
                let j = choose|j: int|
                    0 <= j < earlier.len() && (#[trigger] earlier[j]).0 == key && self.spec_job_work_for(earlier, key)
                        == seq![DeferredAction::Cleanup { payload, completion: earlier[j].1 }];
                assert(done[j] == earlier[j]);
                if done.last().0 == key {
                    assert(after.deferred.skip(before.deferred.len() as int)
                        =~= Seq::<DeferredAction<P, B>>::empty());
                    assert(self.spec_job_work_for(done, key) =~= self.spec_job_work_for(earlier, key));
                }
            }
        }
    }

    /// What is gone stays gone, and brings no work.
    proof fn lemma_gone_stays_gone(self, done: Seq<(OpKey, Completion<B>)>, batch: Seq<PacketEntry>, key: OpKey)
        requires
            !self.ops.contains_key(key),
        ensures
            !self.spec_blocking_all(done).ops.contains_key(key),
            self.spec_job_work_for(done, key) == Seq::<DeferredAction<P, B>>::empty(),
            !self.spec_packets(batch).ops.contains_key(key),
            self.spec_packet_work_for(batch, key) == Seq::<DeferredAction<P, B>>::empty(),
        decreases done.len() + batch.len(),
    {
        let none = Seq::<DeferredAction<P, B>>::empty();
        if done.len() > 0 {
            self.lemma_gone_stays_gone(done.drop_last(), batch, key);
            let before = self.spec_blocking_all(done.drop_last());
            assert(before.deferred.skip(before.deferred.len() as int) =~= none);
        } else if batch.len() > 0 {
            self.lemma_gone_stays_gone(done, batch.drop_last(), key);
            let before = self.spec_packets(batch.drop_last());
            assert(before.deferred.skip(before.deferred.len() as int) =~= none);
        }
    }
}

/// The deferred work that all packets and job results of one operation bring.
pub open spec fn work_of_run<P, J, I, B>(
    states: Seq<(IocpBackend<P, J, I, B>, ShutdownStage)>,
    events: Seq<EndEvent<B>>,
    key: OpKey,
) -> Seq<DeferredAction<P, B>>
    decreases events.len(),
{
    if events.len() == 0 {
        Seq::empty()
    } else {
        let earlier = work_of_run(states.drop_last(), events.drop_last(), key);
        let view = states[events.len() - 1].0.spec_start();
        match events.last() {
            EndEvent::Returned(done) => earlier + view.spec_job_work_for(done, key),
            EndEvent::Delivered(batch) => earlier + view.spec_packet_work_for(batch, key),
            EndEvent::Stepped(_) => earlier,
        }
    }
}

/// Whether an event brings this completion for an operation: as the result of
/// its job, or with a packet whose request names it.
pub open spec fn brings<B>(event: EndEvent<B>, key: OpKey, completion: Completion<B>) -> bool {
    match event {
        EndEvent::Returned(done) => exists|j: int|
            0 <= j < done.len() && (#[trigger] done[j]).0 == key && done[j].1 == completion,
        EndEvent::Delivered(batch) => exists|j: int|
            0 <= j < batch.len() && (#[trigger] batch[j]).embedded == Some(key) && batch[j].spec_completion::<B>()
                == completion,
        EndEvent::Stepped(_) => false,
    }
}

/// Whether some event brings this completion for an operation, and its payload
/// is cleaned up with it and with no other.
pub open spec fn cleaned_up_once<P, J, I, B>(
    states: Seq<(IocpBackend<P, J, I, B>, ShutdownStage)>,
    events: Seq<EndEvent<B>>,
    key: OpKey,
    payload: IgnoredOp<P>,
    event: int,
    completion: Completion<B>,
) -> bool {
    &&& 0 <= event < events.len()
    &&& brings(events[event], key, completion)
    &&& work_of_run(states, events, key) == seq![DeferredAction::Cleanup { payload, completion }]
}

/// How far a payload has come that was left behind before the end of a port.
proof fn lemma_payload_of_run<P, J, I, B>(
    states: Seq<(IocpBackend<P, J, I, B>, ShutdownStage)>,
    events: Seq<EndEvent<B>>,
    key: OpKey,
    payload: IgnoredOp<P>,
)
    requires
        states.len() == events.len() + 1,
        states[0].0.spec_start().spec_left_behind(key, payload),
        forall|i: int| 0 <= i < events.len() ==> end_event(states[i], #[trigger] events[i], states[i + 1]),
    ensures
        ({
            ||| {
                &&& states.last().0.spec_start().spec_left_behind(key, payload)
                &&& work_of_run(states, events, key) == Seq::<DeferredAction<P, B>>::empty()
            }
            ||| {
                &&& !states.last().0.spec_ops().contains_key(key)
                &&& exists|event: int, completion: Completion<B>| #[trigger]
                    cleaned_up_once(states, events, key, payload, event, completion)
            }
        }),
    decreases events.len(),
{
    if events.len() > 0 {
        let last = events.len() - 1;
        let earlier = events.drop_last();
        let before = states.drop_last();
        assert forall|i: int| 0 <= i < earlier.len() implies end_event(
            before[i],
            #[trigger] earlier[i],
            before[i + 1],
        ) by {
            assert(end_event(states[i], events[i], states[i + 1]));
        }
        lemma_payload_of_run(before, earlier, key, payload);
        assert(before.last() == states[last]);
        assert(end_event(states[last], events[last], states[last + 1]));
        let view = states[last].0.spec_start();
        let none = Seq::<DeferredAction<P, B>>::empty();
        if view.spec_left_behind(key, payload) {
            assert(work_of_run(before, earlier, key) == none);
            match events.last() {
                EndEvent::Stepped(_) => {
                    assert(states[last].0.spec_ops().contains_key(key));
                },
                EndEvent::Returned(done) => {
                    view.lemma_jobs_and_payload(done, key, payload);
                    let work = view.spec_job_work_for(done, key);
                    assert(none + work =~= work);
                    if !view.spec_blocking_all(done).spec_left_behind(key, payload) {
                        let j = choose|j: int|
                            0 <= j < done.len() && (#[trigger] done[j]).0 == key && work == seq![
                                DeferredAction::Cleanup { payload, completion: done[j].1 },
                            ];
                        assert(brings(events[last], key, done[j].1));
                        assert(cleaned_up_once(states, events, key, payload, last, done[j].1));
                    }
                },
                EndEvent::Delivered(batch) => {
                    view.lemma_packets_and_payload(batch, key, payload);
                    let work = view.spec_packet_work_for(batch, key);
                    assert(none + work =~= work);
                    if !view.spec_packets(batch).spec_left_behind(key, payload) {
                        let j = choose|j: int|
                            0 <= j < batch.len() && (#[trigger] batch[j]).embedded == Some(key) && work == seq![
                                DeferredAction::Cleanup { payload, completion: batch[j].spec_completion::<B>() },
                            ];
                        assert(brings(events[last], key, batch[j].spec_completion::<B>()));
                        assert(cleaned_up_once(
                            states,
                            events,
                            key,
                            payload,
                            last,
                            batch[j].spec_completion::<B>(),
                        ));
                    }
                },
            }
        } else {
            let (event, completion) = choose|event: int, completion: Completion<B>| #[trigger]
                cleaned_up_once(before, earlier, key, payload, event, completion);
            assert(events[event] == earlier[event]);
            let work = work_of_run(before, earlier, key);
            assert(work + none =~= work);
            match events.last() {
                EndEvent::Stepped(_) => {},
                EndEvent::Returned(done) => {
                    view.lemma_gone_stays_gone(done, Seq::empty(), key);
                },
                EndEvent::Delivered(batch) => {
                    view.lemma_gone_stays_gone(Seq::empty(), batch, key);
                },
            }
            assert(cleaned_up_once(states, events, key, payload, event, completion));
        }
    }
}

/// A payload that was left behind before the end of a port is cleaned up once,
/// with its own completion, before the operations are forgotten.
pub proof fn law_payloads_are_cleaned_up_before_the_end<P, J, I, B>(
    states: Seq<(IocpBackend<P, J, I, B>, ShutdownStage)>,
    events: Seq<EndEvent<B>>,
    key: OpKey,
    payload: IgnoredOp<P>,
)
    requires
        states.len() == events.len() + 1,
        events.len() > 0,
        states[0].0.spec_start().spec_left_behind(key, payload),
        forall|i: int| 0 <= i < events.len() ==> end_event(states[i], #[trigger] events[i], states[i + 1]),
        events.last() is Stepped,
        states[events.len() - 1].1 is Drain,
        states.last().1 is Finished,
    ensures
        states.last().0.spec_ops() == Map::<OpKey, Slot<P, J, I, B>>::empty(),
        exists|event: int, completion: Completion<B>| #[trigger]
            cleaned_up_once(states.drop_last(), events.drop_last(), key, payload, event, completion),
        work_of_run(states, events, key) == work_of_run(states.drop_last(), events.drop_last(), key),
{
    let last = events.len() - 1;
    let earlier = events.drop_last();
    let before = states.drop_last();
    assert forall|i: int| 0 <= i < earlier.len() implies end_event(before[i], #[trigger] earlier[i], before[i + 1]) by {
        assert(end_event(states[i], events[i], states[i + 1]));
    }
    lemma_payload_of_run(before, earlier, key, payload);
    assert(before.last() == states[last]);
    assert(end_event(states[last], events[last], states[last + 1]));
    assert(states.last() == states[last + 1]);
    if states[last].0.spec_start().spec_left_behind(key, payload) {
        assert(states[last].0.spec_ops().contains_key(key));
        assert(waits_for_windows(states[last].0.spec_ops()));
    }
}

/// Whether a completion says what a packet says: the number of bytes where the top
/// bit of the status is clear, and the error of the packet where it is set.
pub open spec fn reported_by<B>(entry: PacketEntry, completion: Completion<B>) -> bool {
    &&& entry.internal & 0x8000_0000 == 0 ==> completion.result == Ok::<u32, IoError>(entry.bytes)
    &&& entry.internal & 0x8000_0000 != 0 ==> completion.result == Err::<u32, IoError>(IoError::Os(entry.error))
}

impl PacketEntry {
    proof fn lemma_reported<B>(self)
        ensures
            reported_by(self, self.spec_completion::<B>()),
    {
        let word = self.internal;
        assert((word as u32) as i32 >= 0 <==> word & 0x8000_0000 == 0) by (bit_vector);
    }

    /// What Windows writes into a packet is what its completion says.
    pub proof fn law_completion_says_what_the_packet_says<B>(self, completion: Completion<B>)
        requires
            call_ensures(PacketEntry::completion::<B>, (&self,), completion),
        ensures
            reported_by(self, completion),
            completion == self.spec_completion::<B>(),
            completion.flags == 0,
            completion.blocking_value is None,
    {
        self.lemma_reported::<B>();
    }
}

impl<P, B> State<P, B> {
    /// A task that polls is remembered: with its own waker, unless the one that it
    /// left before wakes it already.
    pub proof fn law_polling_task_listens(self, current: Waker, same: bool)
        ensures
            self is Submitted || (self matches State::Canceling { observer: CancelObserver::Pending })
                ==> self.spec_observe(current, same).listener() == Listener::<P>::Task(current),
            self.listener() matches Listener::Task(waker) ==> self.spec_observe(current, same).listener() == Listener::<
                P,
            >::Task(
                if same {
                    waker
                } else {
                    current
                },
            ),
            self.listener() is Payload || self.listener() is Done ==> self.spec_observe(current, same) == self,
            self is Canceling <==> self.spec_observe(current, same) is Canceling,
    {
    }

    /// Whoever is to hear of a completion is the one that was left to wait: the
    /// task of a waiting operation, the payload of one whose future is gone, and
    /// nobody of one that is new or over.
    pub proof fn law_who_hears_of_the_completion(self, completion: Completion<B>)
        ensures
            self is Submitted ==> self.spec_completed(completion) == (Completed::<P, B> {
                remove: false,
                wake: None,
                cleanup: None,
            }),
            self matches State::Waiting(waker) ==> self.spec_completed(completion) == (Completed::<P, B> {
                remove: false,
                wake: Some(waker),
                cleanup: None,
            }),
            self matches State::Canceling { observer: CancelObserver::Waiting(waker) } ==> self.spec_completed(
                completion,
            ).wake == Some(waker),
            self matches State::Detached(payload) ==> self.spec_completed(completion) == (Completed::<P, B> {
                remove: true,
                wake: None,
                cleanup: Some(DeferredAction::Cleanup { payload, completion }),
            }),
            self matches State::Canceling { observer: CancelObserver::Detached(payload) } ==> self.spec_completed(
                completion,
            ) == (Completed::<P, B> {
                remove: true,
                wake: None,
                cleanup: Some(DeferredAction::Cleanup { payload, completion }),
            }),
            !(self is Completed) && !(self is Detached) && !(self matches State::Canceling {
                observer: CancelObserver::Detached(_),
            }) ==> self.spec_complete(completion) == State::<P, B>::Completed(completion),
    {
    }

    /// An operation whose future is dropped is left to its payload, which hears of
    /// the completion in the future's place.
    pub proof fn law_dropped_future_leaves_its_payload(self, payload: P, completion: Completion<B>)
        requires
            self.listener() is Nobody || self.listener() is Task,
        ensures
            self.spec_detach(payload).listener() == Listener::Payload(IgnoredOp::Typed(payload)),
            self.spec_detach(payload).spec_completed(completion) == (Completed {
                remove: true,
                wake: None,
                cleanup: Some(DeferredAction::Cleanup { payload: IgnoredOp::Typed(payload), completion }),
            }),
    {
    }

    /// The end of a port takes nothing from the payload that was left behind, nor
    /// from a completion that has arrived.
    pub proof fn law_shutdown_keeps_what_windows_uses(self)
        ensures
            self.listener() is Payload ==> self.spec_shutdown() == self,
            self is Completed ==> self.spec_shutdown() == self,
            !(self is Completed) ==> self.spec_shutdown().listener() is Payload,
    {
    }
}

impl<P, J, I, B> Slot<P, J, I, B> {
    /// Windows is asked to cancel the request of an operation the first time, by
    /// the handle and the address of the request; whoever listens still hears of
    /// its packet. Of an operation that is over nothing is cancelled.
    pub proof fn law_cancel_names_the_request(self)
        requires
            self.blocking_job is None || !(self.state is Submitted),
        ensures
            self.interest matches Some(interest) ==> (self.state is Submitted || self.state is Waiting
                || self.state is Detached ==> (self.spec_cancel_target() matches Some(target) && target.handle
                == interest.handle && target.address == interest.address)),
            self.state is Canceling || self.state is Completed || self.interest is None
                ==> self.spec_cancel_target() is None,
            self.spec_cancel().state.listener() == self.state.listener(),
            !(self.state is Completed) ==> self.spec_cancel().state is Canceling,
            self.state is Completed ==> self.spec_cancel().state == self.state,
            self.spec_cancel().interest == self.interest,
            self.spec_cancel().blocking_job == self.blocking_job,
            self.spec_cancel().spec_cancel_target() is None,
    {
    }

    /// A job that has not started is over once it is cancelled: nothing is asked of
    /// Windows, the job is dropped, and the operation has failed as cancelled.
    pub proof fn law_cancelled_job_never_starts(self)
        requires
            self.state is Submitted,
            self.blocking_job is Some,
        ensures
            self.spec_cancel_target() is None,
            self.spec_cancel().blocking_job is None,
            self.spec_cancel().state matches State::Completed(completion) && completion.result == Err::<u32, IoError>(
                IoError::Os(995),
            ) && completion.flags == 0 && completion.blocking_value is None,
    {
    }
}

/// When a port ends, Windows is asked to cancel the request of every operation
/// that somebody still observes.
pub proof fn law_every_observed_request_is_cancelled_at_the_end<P, J, I, B>(
    ops: Map<OpKey, Slot<P, J, I, B>>,
    keys: Seq<OpKey>,
    key: OpKey,
    interest: Interest<I>,
)
    requires
        keys.contains(key),
        ops[key].interest == Some(interest),
        ops[key].state.listener() is Nobody || ops[key].state.listener() is Task,
    ensures
        shutdown_targets(ops, keys).contains(CancelTarget { handle: interest.handle, address: interest.address }),
    decreases keys.len(),
{
    let target = CancelTarget { handle: interest.handle, address: interest.address };
    let all = shutdown_targets(ops, keys);
    let earlier = keys.drop_last();
    let rest = shutdown_targets(ops, earlier);
    if keys.last() == key {
        assert(all == rest.push(target));
        assert(all[rest.len() as int] == target);
    } else {
        let i = choose|i: int| 0 <= i < keys.len() && keys[i] == key;
        assert(earlier[i] == key);
        law_every_observed_request_is_cancelled_at_the_end(ops, earlier, key, interest);
        let k = choose|k: int| 0 <= k < rest.len() && rest[k] == target;
        assert(all[k] == target);
    }
}

impl<P, J, I, B> IocpView<P, J, I, B> {
    /// A packet that no operation waits for, or whose request names another one,
    /// changes nothing.
    pub proof fn law_stray_packets_change_nothing(self, entry: PacketEntry)
        requires
            entry.address == 0 || !self.pending.contains_key(entry.address) || entry.embedded != Some(
                self.pending[entry.address],
            ),
        ensures
            self.spec_packet(entry) == self,
    {
    }

    proof fn lemma_job_result_stays(self, done: Seq<(OpKey, Completion<B>)>, key: OpKey, waker: Waker, first: int)
        requires
            self.ops.contains_key(key),
            self.ops[key].state == State::<P, B>::Waiting(waker),
            0 <= first < done.len(),
            done[first].0 == key,
            forall|i: int| 0 <= i < first ==> (#[trigger] done[i]).0 != key,
        ensures
            self.spec_blocking_all(done).ops.contains_key(key),
            self.spec_blocking_all(done).ops[key].state == State::<P, B>::Completed(done[first].1),
            self.spec_blocking_all(done).ops[key].blocking_job == self.ops[key].blocking_job,
            self.spec_blocking_all(done).deferred.contains(DeferredAction::Wake(waker)),
        decreases done.len(),
    {
        let earlier = done.drop_last();
        let before = self.spec_blocking_all(earlier);
        let after = self.spec_blocking_all(done);
        let wake = DeferredAction::<P, B>::Wake(waker);
        assert forall|i: int| 0 <= i < first implies (#[trigger] earlier[i]).0 != key by {
            assert(earlier[i] == done[i]);
        }
        if first == done.len() - 1 {
            self.lemma_other_jobs_leave_it_alone(earlier, key);
            assert(after.deferred == before.deferred + seq![wake]);
            assert(after.deferred[before.deferred.len() as int] == wake);
        } else {
            assert(earlier[first] == done[first]);
            self.lemma_job_result_stays(earlier, key, waker, first);
            let i = choose|i: int| 0 <= i < before.deferred.len() && before.deferred[i] == wake;
            assert(after.deferred[i] == wake);
        }
    }

    proof fn lemma_other_jobs_leave_it_alone(self, done: Seq<(OpKey, Completion<B>)>, key: OpKey)
        requires
            self.ops.contains_key(key),
            forall|i: int| 0 <= i < done.len() ==> (#[trigger] done[i]).0 != key,
        ensures
            self.spec_blocking_all(done).ops.contains_key(key),
            self.spec_blocking_all(done).ops[key] == self.ops[key],
        decreases done.len(),
    {
        if done.len() > 0 {
            let earlier = done.drop_last();
            assert forall|i: int| 0 <= i < earlier.len() implies (#[trigger] earlier[i]).0 != key by {
                assert(earlier[i] == done[i]);
            }
            self.lemma_other_jobs_leave_it_alone(earlier, key);
            assert(done[done.len() - 1].0 != key);
        }
    }

    /// A blocking job is handed out once, when its operation is first polled. What
    /// it returns reaches the future, whatever other jobs return, and the task that
    /// polled is woken.
    pub proof fn law_future_gets_the_job_result(
        self,
        key: OpKey,
        job: J,
        current: Waker,
        same: bool,
        polled: IocpView<P, J, I, B>,
        step: PollStep<J, B>,
        done: Seq<(OpKey, Completion<B>)>,
        first: int,
        later: Waker,
        still: bool,
        after: Map<OpKey, Slot<P, J, I, B>>,
        end: PollStep<J, B>,
    )
        requires
            self.ops.contains_key(key),
            self.ops[key].blocking_job == Some(job),
            polled_as(self.ops, key, current, same, polled.ops, step),
            0 <= first < done.len(),
            done[first].0 == key,
            forall|i: int| 0 <= i < first ==> (#[trigger] done[i]).0 != key,
            polled_as(polled.spec_blocking_all(done).ops, key, later, still, after, end),
        ensures
            step == PollStep::<J, B>::Dispatch(job),
            polled.ops[key].blocking_job is None,
            polled.spec_blocking_all(done).deferred.contains(DeferredAction::Wake(current)),
            end == PollStep::<J, B>::Ready(done[first].1),
            !after.contains_key(key),
    {
        polled.lemma_job_result_stays(done, key, current, first);
    }

    /// A task that polls an operation that Windows still works on is told to wait,
    /// and hears of the packet: through its own waker, unless the one that was left
    /// before wakes it already.
    pub proof fn law_task_that_polled_last_is_woken(
        self,
        key: OpKey,
        address: usize,
        current: Waker,
        same: bool,
        polled: IocpView<P, J, I, B>,
        step: PollStep<J, B>,
        batch: Seq<PacketEntry>,
        first: int,
    )
        requires
            self.awaits_packet(key, address),
            polled_as(self.ops, key, current, same, polled.ops, step),
            polled.pending == self.pending,
            0 <= first < batch.len(),
            batch[first].address == address,
            batch[first].embedded == Some(key),
            forall|i: int|
                0 <= i < first ==> !((#[trigger] batch[i]).address == address && batch[i].embedded == Some(key)),
        ensures
            step is Pending,
            !same || self.ops[key].state.listener() is Nobody ==> polled.spec_packets(batch).deferred.contains(
                DeferredAction::Wake(current),
            ),
            self.ops[key].state.listener() matches Listener::Task(waker) ==> (same ==> polled.spec_packets(
                batch,
            ).deferred.contains(DeferredAction::Wake(waker))),
    {
        self.ops[key].state.law_polling_task_listens(current, same);
        assert forall|i: int| 0 <= i < first implies !ends(#[trigger] batch[i], address, key) by {}
        polled.lemma_packet_completion_stays(batch, key, address, first);
    }
}

/// A wait that ran out of time found nothing, which is no failure; every other failure
/// is told, and every number of packets that were found.
pub proof fn law_running_out_of_time_is_no_failure(result: Result<u32, IoError>, count: Result<usize, IoError>)
    requires
        call_ensures(dequeued, (result,), count),
    ensures
        result matches Ok(found) ==> (count matches Ok(count) && count == found),
        result == Err::<u32, IoError>(IoError::Os(258)) ==> count == Ok::<usize, IoError>(0),
        result matches Err(error) ==> (error != IoError::Os(258) ==> count == Err::<usize, IoError>(error)),
{
}

/// Without a limit a wait has none; and one dequeue asks for as many packets as there
/// is room for, as far as Windows can be asked for them.
pub proof fn law_waits_and_dequeues_are_not_cut_short(millis: u32, capacity: usize, count: u32)
    requires
        call_ensures(duration_millis, (None,), millis),
        call_ensures(dequeue_capacity, (capacity,), count),
    ensures
        millis == 0xFFFF_FFFF,
        count <= capacity,
        capacity <= u32::MAX ==> count == capacity,
        capacity > u32::MAX ==> count == u32::MAX,
{
}

/// A request to cancel that found nothing to cancel came too late, and no other
/// failure means that.
pub proof fn law_cancel_can_come_too_late(error: IoError, complete: bool)
    requires
        call_ensures(cancel_error_is_already_complete, (&error,), complete),
    ensures
        complete <==> error == IoError::Os(1168),
{
}

/// The driver ends as soon as Windows uses nothing any more that a future left behind,
/// with nothing left; until then it waits, and keeps everything. Asked to end again, it
/// has nothing to do.
pub proof fn law_driver_ends_when_windows_is_done<P, J, I, B>(
    before: IocpBackend<P, J, I, B>,
    stage: ShutdownStage,
    after: IocpBackend<P, J, I, B>,
    step: (ShutdownStage, ShutdownAction),
)
    requires
        shutdown_stepped(&before, stage, &after, step),
    ensures
        stage is Drain && (forall|key: OpKey| #[trigger]
            before.spec_ops().contains_key(key) ==> !(before.spec_ops()[key].state.listener() is Payload)) ==> {
            &&& step.0 is Finished
            &&& step.1 is Done
            &&& after.spec_ops() == Map::<OpKey, Slot<P, J, I, B>>::empty()
        },
        stage is Drain ==> forall|key: OpKey| #[trigger]
            before.spec_ops().contains_key(key) && before.spec_ops()[key].state.listener() is Payload ==> {
                &&& step.0 is Drain
                &&& step.1 is WaitAndDispatch
                &&& after.spec_ops() == before.spec_ops()
            },
        stage is Begin ==> after.spec_shutting_down(),
        stage is Begin && before.spec_shutting_down() ==> step.1 is Done && after.spec_ops() == before.spec_ops(),
        stage is Begin && !before.spec_shutting_down() ==> step.0 is Drain && step.1 is Cancel,
        stage is Finished ==> step.1 is Done,
{
}

} // verus!
