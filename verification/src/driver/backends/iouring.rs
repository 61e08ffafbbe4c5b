//! Lifecycles of io_uring operations.
use crate::driver::op_table::{CompletionKey, OpKey, OpTable};
use crate::driver::ops::{
    defer, CancelObserver, Completed, Completion, DeferredAction, IgnoredOp, Listener, MultiOp, Op,
};
use crate::error::{ErrorKind, IoError};
use crate::task::{bring, Poll};
use std::collections::VecDeque;
use std::task::Waker;
use vstd::prelude::*;

verus! {

/// [`io_uring::cqueue::more`]: whether further completions of the same request
/// follow, which is bit 1 of the completion flags.
#[verifier::external_body]
fn cqe_more(flags: u32) -> (more: bool)
    ensures
        more == (flags & 2 != 0),
{
    io_uring::cqueue::more(flags)
}

/// [`io_uring::cqueue::buffer_select`]: which provided buffer a completion
/// used. Bit 0 of the completion flags says that it used one, whose number is
/// in the upper half of the flags.
#[verifier::external_body]
pub(crate) fn cqe_buffer_select(flags: u32) -> (buffer: Option<u16>)
    ensures
        buffer == spec_buffer_select(flags),
{
    io_uring::cqueue::buffer_select(flags)
}

/// The provided buffer that a completion with these flags used.
pub open spec fn spec_buffer_select(flags: u32) -> Option<u16> {
    if flags & 1 != 0 {
        Some((flags >> 16) as u16)
    } else {
        None
    }
}

/// What happens to a multishot completion that nobody will receive.
#[derive(Clone, Copy, Debug, PartialEq, Eq, Structural)]
pub enum MultishotCleanup {
    Nothing,
    /// A successful completion owns a descriptor.
    AcceptedFd,
    /// A completion may own a buffer of the provided pool with this group.
    ProvidedBuffer(u16),
}

/// A resource to give back because its completion is not delivered.
#[derive(Clone, Copy, Debug, PartialEq, Eq, Structural)]
pub enum Discarded {
    CloseFd(i32),
    RecycleBuffer { group: u16, buffer_id: u16 },
}

impl MultishotCleanup {
    /// The resource that an undelivered completion owns.
    pub open spec fn spec_discard(self, completion: Completion) -> Seq<Discarded> {
        match self {
            MultishotCleanup::Nothing => Seq::empty(),
            MultishotCleanup::AcceptedFd => match completion.result {
                Ok(fd) => seq![Discarded::CloseFd(fd as i32)],
                Err(_) => Seq::empty(),
            },
            MultishotCleanup::ProvidedBuffer(group) => match spec_buffer_select(completion.flags) {
                Some(buffer_id) => seq![Discarded::RecycleBuffer { group, buffer_id }],
                None => Seq::empty(),
            },
        }
    }

    /// The resources that a queue of undelivered completions owns, in order.
    pub open spec fn spec_discard_all(self, pending: Seq<Completion>) -> Seq<Discarded>
        decreases pending.len(),
    {
        if pending.len() == 0 {
            Seq::empty()
        } else {
            self.spec_discard(pending[0]) + self.spec_discard_all(pending.drop_first())
        }
    }

    proof fn lemma_discard_all_push(self, pending: Seq<Completion>, completion: Completion)
        ensures
            self.spec_discard_all(pending.push(completion)) == self.spec_discard_all(pending)
                + self.spec_discard(completion),
        decreases pending.len(),
    {
        reveal_with_fuel(MultishotCleanup::spec_discard_all, 2);
        let pushed = pending.push(completion);
        assert(pending.len() > 0 ==> pushed[0] == pending[0]);
        if pending.len() == 0 {
            assert(pushed.drop_first() =~= Seq::<Completion>::empty());
            assert(self.spec_discard(completion) + Seq::<Discarded>::empty() =~= Seq::<Discarded>::empty()
                + self.spec_discard(completion));
        } else {
            assert(pushed.drop_first() =~= pending.drop_first().push(completion));
            self.lemma_discard_all_push(pending.drop_first(), completion);
            assert(self.spec_discard(pending[0]) + (self.spec_discard_all(pending.drop_first())
                + self.spec_discard(completion)) =~= (self.spec_discard(pending[0])
                + self.spec_discard_all(pending.drop_first())) + self.spec_discard(completion));
        }
    }

    /// Give up on one completion.
    pub fn discard(self, completion: Completion, discarded: &mut Vec<Discarded>)
        ensures
            final(discarded)@ == old(discarded)@ + self.spec_discard(completion),
    {
        match self {
            MultishotCleanup::Nothing => {},
            MultishotCleanup::AcceptedFd => {
                if let Ok(fd) = completion.result {
                    discarded.push(Discarded::CloseFd(#[verifier::truncate] (fd as i32)));
                }
            },
            MultishotCleanup::ProvidedBuffer(group) => {
                if let Some(buffer_id) = cqe_buffer_select(completion.flags) {
                    discarded.push(Discarded::RecycleBuffer { group, buffer_id });
                }
            },
        }
    }

    /// Give up on a queue of completions.
    fn discard_all(self, pending: &mut VecDeque<Completion>, discarded: &mut Vec<Discarded>)
        ensures
            final(pending)@ == Seq::<Completion>::empty(),
            final(discarded)@ == old(discarded)@ + self.spec_discard_all(old(pending)@),
    {
        while pending.len() > 0
            invariant
                old(discarded)@ + self.spec_discard_all(old(pending)@) == discarded@
                    + self.spec_discard_all(pending@),
            decreases pending@.len(),
        {
            let ghost before = pending@;
            let ghost dropped = discarded@;
            let completion = pending.pop_front().unwrap();
            assert(pending@ =~= before.drop_first());
            assert((dropped + self.spec_discard(completion)) + self.spec_discard_all(pending@) =~= dropped + (
            self.spec_discard(completion) + self.spec_discard_all(pending@)));
            self.discard(completion, discarded);
        }
        assert(pending@ =~= Seq::<Completion>::empty());
        assert(discarded@ + Seq::<Discarded>::empty() =~= discarded@);
    }
}

/// Whether the request to cancel has reached the submission queue.
#[derive(Clone, Copy, Debug, PartialEq, Eq, Structural)]
pub enum CancelSqe {
    NeedPush,
    InFlight,
}

/// Lifecycle of a one-shot operation.
pub enum OneshotState<P> {
    Submitted,
    Waiting(Waker),
    Completed(Completion),
    /// The future was dropped without cancelling. The payload is kept until the
    /// operation's completion.
    Detached(IgnoredOp<P>),
    /// Cancellation was requested. The slot is taken until the operation's own
    /// completion.
    Canceling { observer: CancelObserver<P>, sqe: CancelSqe },
}

impl<P> OneshotState<P> {
    /// Who hears of the terminal completion.
    pub open spec fn listener(self) -> Listener<P> {
        match self {
            OneshotState::Submitted => Listener::Nobody,
            OneshotState::Waiting(waker) => Listener::Task(waker),
            OneshotState::Completed(_) => Listener::Done,
            OneshotState::Detached(payload) => Listener::Payload(payload),
            OneshotState::Canceling { observer, .. } => match observer {
                CancelObserver::Pending => Listener::Nobody,
                CancelObserver::Waiting(waker) => Listener::Task(waker),
                CancelObserver::Detached(payload) => Listener::Payload(payload),
            },
        }
    }

    /// The state after a terminal completion.
    pub open spec fn spec_complete(self, completion: Completion) -> OneshotState<P> {
        match self.listener() {
            Listener::Nobody | Listener::Task(_) => OneshotState::Completed(completion),
            Listener::Payload(_) => OneshotState::Submitted,
            Listener::Done => self,
        }
    }

    /// What a terminal completion asks of the driver.
    pub open spec fn spec_completed(self, completion: Completion) -> Completed<P> {
        match self.listener() {
            Listener::Nobody | Listener::Done => Completed { remove: false, wake: None, cleanup: None },
            Listener::Task(waker) => Completed { remove: false, wake: Some(waker), cleanup: None },
            Listener::Payload(payload) => Completed {
                remove: true,
                wake: None,
                cleanup: Some(DeferredAction::Cleanup { payload, completion }),
            },
        }
    }

    /// Apply a terminal completion.
    ///
    /// A second completion is stale input: the first one stays.
    pub fn complete(&mut self, completion: Completion) -> (outcome: Completed<P>)
        ensures
            *final(self) == old(self).spec_complete(completion),
            outcome == old(self).spec_completed(completion),
    {
        let mut state = OneshotState::Submitted;
        std::mem::swap(self, &mut state);
        match state {
            OneshotState::Submitted => {
                *self = OneshotState::Completed(completion);
                Completed { remove: false, wake: None, cleanup: None }
            },
            OneshotState::Waiting(waker) => {
                *self = OneshotState::Completed(completion);
                Completed { remove: false, wake: Some(waker), cleanup: None }
            },
            OneshotState::Detached(payload) => {
                let cleanup = DeferredAction::Cleanup { payload, completion };
                Completed { remove: true, wake: None, cleanup: Some(cleanup) }
            },
            OneshotState::Canceling { observer, .. } => match observer {
                CancelObserver::Pending => {
                    *self = OneshotState::Completed(completion);
                    Completed { remove: false, wake: None, cleanup: None }
                },
                CancelObserver::Waiting(waker) => {
                    *self = OneshotState::Completed(completion);
                    Completed { remove: false, wake: Some(waker), cleanup: None }
                },
                CancelObserver::Detached(payload) => {
                    let cleanup = DeferredAction::Cleanup { payload, completion };
                    Completed { remove: true, wake: None, cleanup: Some(cleanup) }
                },
            },
            OneshotState::Completed(first) => {
                *self = OneshotState::Completed(first);
                Completed { remove: false, wake: None, cleanup: None }
            },
        }
    }

    /// Whether a request to cancel has something left to cancel.
    pub open spec fn wants_cancel(self) -> bool {
        match self {
            OneshotState::Completed(_) => false,
            OneshotState::Canceling { sqe, .. } => sqe is NeedPush,
            _ => true,
        }
    }

    /// The state after a request to cancel. The listener stays the same.
    pub open spec fn spec_request_cancel(self) -> OneshotState<P> {
        match self {
            OneshotState::Submitted => OneshotState::Canceling {
                observer: CancelObserver::Pending,
                sqe: CancelSqe::NeedPush,
            },
            OneshotState::Waiting(waker) => OneshotState::Canceling {
                observer: CancelObserver::Waiting(waker),
                sqe: CancelSqe::NeedPush,
            },
            OneshotState::Detached(payload) => OneshotState::Canceling {
                observer: CancelObserver::Detached(payload),
                sqe: CancelSqe::NeedPush,
            },
            OneshotState::Canceling { .. } | OneshotState::Completed(_) => self,
        }
    }

    /// Request cancellation. Answers whether a cancel request has to be pushed.
    pub fn request_cancel(&mut self) -> (push: bool)
        ensures
            push == old(self).wants_cancel(),
            *final(self) == old(self).spec_request_cancel(),
    {
        let mut state = OneshotState::Submitted;
        std::mem::swap(self, &mut state);
        match state {
            OneshotState::Submitted => {
                *self = OneshotState::Canceling {
                    observer: CancelObserver::Pending,
                    sqe: CancelSqe::NeedPush,
                };
                true
            },
            OneshotState::Waiting(waker) => {
                *self = OneshotState::Canceling {
                    observer: CancelObserver::Waiting(waker),
                    sqe: CancelSqe::NeedPush,
                };
                true
            },
            OneshotState::Detached(payload) => {
                *self = OneshotState::Canceling {
                    observer: CancelObserver::Detached(payload),
                    sqe: CancelSqe::NeedPush,
                };
                true
            },
            OneshotState::Canceling { observer, sqe } => {
                *self = OneshotState::Canceling { observer, sqe };
                sqe == CancelSqe::NeedPush
            },
            OneshotState::Completed(completion) => {
                *self = OneshotState::Completed(completion);
                false
            },
        }
    }

    /// The state once the cancel request is in the submission queue.
    pub open spec fn spec_cancel_in_flight(self) -> OneshotState<P> {
        match self {
            OneshotState::Canceling { observer, .. } => OneshotState::Canceling {
                observer,
                sqe: CancelSqe::InFlight,
            },
            _ => self,
        }
    }

    /// Record that the cancel request is in the submission queue.
    pub fn mark_cancel_in_flight(&mut self)
        ensures
            *final(self) == old(self).spec_cancel_in_flight(),
    {
        if let OneshotState::Canceling { sqe, .. } = self {
            *sqe = CancelSqe::InFlight;
        }
    }

    /// Requesting cancellation again, once the request is in flight, changes
    /// nothing and pushes nothing.
    pub proof fn law_cancel_is_idempotent_in_flight(self)
        ensures
            self.spec_request_cancel().spec_cancel_in_flight().spec_request_cancel()
                == self.spec_request_cancel().spec_cancel_in_flight(),
            !self.spec_request_cancel().spec_cancel_in_flight().wants_cancel(),
    {
    }

    /// Cancelling never changes who hears of the completion, and what is
    /// retained for it: the operation's own completion stays the boundary.
    pub proof fn law_cancel_keeps_the_listener(self, completion: Completion)
        ensures
            self.spec_request_cancel().listener() == self.listener(),
            self.spec_cancel_in_flight().listener() == self.listener(),
            self.spec_request_cancel().spec_completed(completion) == self.spec_completed(completion),
    {
    }

    /// The state once the polling task listens. `same` says whether the waker
    /// registered before is known to wake that task.
    pub open spec fn spec_observe(self, current: Waker, same: bool) -> OneshotState<P> {
        match self {
            OneshotState::Submitted => OneshotState::Waiting(current),
            OneshotState::Waiting(waker) => OneshotState::Waiting(
                crate::task::refreshed(waker, current, same),
            ),
            OneshotState::Canceling { observer: CancelObserver::Pending, sqe } => OneshotState::Canceling {
                observer: CancelObserver::Waiting(current),
                sqe,
            },
            OneshotState::Canceling { observer: CancelObserver::Waiting(waker), sqe } => OneshotState::Canceling {
                observer: CancelObserver::Waiting(crate::task::refreshed(waker, current, same)),
                sqe,
            },
            _ => self,
        }
    }

    /// Let the polling task listen.
    fn observe(&mut self, current: Waker, same: bool)
        ensures
            *final(self) == old(self).spec_observe(current, same),
    {
        match self {
            OneshotState::Submitted => {
                *self = OneshotState::Waiting(current);
            },
            OneshotState::Waiting(waker) => {
                if !same {
                    *waker = current;
                }
            },
            OneshotState::Canceling { observer, .. } => match observer {
                CancelObserver::Pending => {
                    *observer = CancelObserver::Waiting(current);
                },
                CancelObserver::Waiting(waker) => {
                    if !same {
                        *waker = current;
                    }
                },
                CancelObserver::Detached(_) => {},
            },
            OneshotState::Detached(_) | OneshotState::Completed(_) => {},
        }
    }

    /// The waker of the task that listens, if one does.
    fn registered(&self) -> (waker: Option<&Waker>)
        ensures
            waker == (match self.listener().spec_task() {
                Some(waker) => Some(&waker),
                None => None,
            }),
    {
        match self {
            OneshotState::Waiting(waker) => Some(waker),
            OneshotState::Canceling { observer: CancelObserver::Waiting(waker), .. } => Some(waker),
            _ => None,
        }
    }

    /// The state once the payload has taken the place of the future.
    pub open spec fn spec_detach(self, payload: P) -> OneshotState<P> {
        match self {
            OneshotState::Submitted | OneshotState::Waiting(_) => OneshotState::Detached(
                IgnoredOp::Typed(payload),
            ),
            OneshotState::Canceling { sqe, .. } => OneshotState::Canceling {
                observer: CancelObserver::Detached(IgnoredOp::Typed(payload)),
                sqe,
            },
            _ => self,
        }
    }

    /// Let the payload take the place of the future.
    fn detach(&mut self, payload: P)
        ensures
            *final(self) == old(self).spec_detach(payload),
    {
        match self {
            OneshotState::Submitted | OneshotState::Waiting(_) => {
                *self = OneshotState::Detached(IgnoredOp::Typed(payload));
            },
            OneshotState::Canceling { observer, .. } => {
                *observer = CancelObserver::Detached(IgnoredOp::Typed(payload));
            },
            OneshotState::Detached(_) | OneshotState::Completed(_) => {},
        }
    }

    /// The first terminal completion is the one that is kept, and only the
    /// first one wakes a task or releases a payload that is still listening.
    pub proof fn law_first_completion_wins(self, first: Completion, second: Completion)
        requires
            !self.spec_completed(first).remove,
        ensures
            self.spec_complete(first).spec_complete(second) == self.spec_complete(first),
            self.spec_complete(first).spec_completed(second) == (Completed::<P> {
                remove: false,
                wake: None,
                cleanup: None,
            }),
            !(self.listener() is Done) ==> self.spec_complete(first) == OneshotState::<P>::Completed(first),
    {
    }

    /// A payload leaves the lifecycle only together with the completion that it
    /// was retained for.
    pub proof fn law_payload_is_retained_until_completion(self, completion: Completion, payload: IgnoredOp<P>)
        requires
            self.listener() == Listener::Payload(payload),
        ensures
            self.spec_request_cancel().listener() == Listener::Payload(payload),
            self.spec_cancel_in_flight().listener() == Listener::Payload(payload),
            self.spec_completed(completion) == (Completed {
                remove: true,
                wake: None,
                cleanup: Some(DeferredAction::Cleanup { payload, completion }),
            }),
    {
    }
}

/// Lifecycle of a multishot operation, with its queue of undelivered
/// completions.
pub enum MultishotState<P> {
    /// The request is armed in the kernel.
    Active {
        waker: Option<Waker>,
        pending: VecDeque<Completion>,
        cleanup: MultishotCleanup,
        pending_limit: Option<usize>,
    },
    /// The queue overflowed. New completions are discarded until the
    /// cancellation takes effect.
    Stopping { waker: Option<Waker>, pending: VecDeque<Completion>, cleanup: MultishotCleanup },
    /// The last completion arrived. What is queued is still delivered.
    Finished { pending: VecDeque<Completion>, cleanup: MultishotCleanup },
    /// The stream was dropped. Late completions are discarded, and the payload
    /// is kept until the last of them.
    Cancelled { pending: VecDeque<Completion>, cleanup: MultishotCleanup, payload: Option<P> },
}

/// How far a multishot operation has come.
pub enum Phase<P> {
    Active(Option<usize>),
    Stopping,
    Finished,
    Cancelled(Option<P>),
}

/// A multishot lifecycle as a value.
#[verifier::ext_equal]
pub struct MultishotView<P> {
    pub phase: Phase<P>,
    pub waker: Option<Waker>,
    pub pending: Seq<Completion>,
    pub cleanup: MultishotCleanup,
}

/// What a multishot completion asks of the driver.
pub struct Pushed {
    /// The slot is no longer needed.
    pub remove: bool,
    pub wake: Option<Waker>,
    /// The request has to be cancelled.
    pub cancel: bool,
    /// Resources to give back.
    pub discarded: Vec<Discarded>,
}

/// What a multishot completion asks of the driver, as a value.
#[verifier::ext_equal]
pub struct PushedView {
    pub remove: bool,
    pub wake: Option<Waker>,
    pub cancel: bool,
    pub discarded: Seq<Discarded>,
}

impl View for Pushed {
    type V = PushedView;

    open spec fn view(&self) -> PushedView {
        PushedView {
            remove: self.remove,
            wake: self.wake,
            cancel: self.cancel,
            discarded: self.discarded@,
        }
    }
}

impl<P> View for MultishotState<P> {
    type V = MultishotView<P>;

    open spec fn view(&self) -> MultishotView<P> {
        match *self {
            MultishotState::Active { waker, pending, cleanup, pending_limit } => MultishotView {
                phase: Phase::Active(pending_limit),
                waker,
                pending: pending@,
                cleanup,
            },
            MultishotState::Stopping { waker, pending, cleanup } => MultishotView {
                phase: Phase::Stopping,
                waker,
                pending: pending@,
                cleanup,
            },
            MultishotState::Finished { pending, cleanup } => MultishotView {
                phase: Phase::Finished,
                waker: None,
                pending: pending@,
                cleanup,
            },
            MultishotState::Cancelled { pending, cleanup, payload } => MultishotView {
                phase: Phase::Cancelled(payload),
                waker: None,
                pending: pending@,
                cleanup,
            },
        }
    }
}

/// The completion that tells a limited stream that it fell behind.
pub open spec fn limit_reached() -> Completion {
    Completion {
        result: Err(
            IoError::Custom {
                kind: ErrorKind::ResourceBusy,
                message: "multishot accept pending completion limit reached",
            },
        ),
        flags: 0,
        blocking_value: None,
    }
}

impl<P> MultishotView<P> {
    /// Whether the queue of a limited stream is full.
    pub open spec fn is_full(self) -> bool {
        self.phase matches Phase::Active(Some(limit)) && self.pending.len() >= limit
    }

    /// The phase after a completion that says whether more follow.
    pub open spec fn next_phase(self, more: bool) -> Phase<P> {
        match self.phase {
            Phase::Active(limit) => if !more {
                Phase::Finished
            } else if self.is_full() {
                Phase::Stopping
            } else {
                Phase::Active(limit)
            },
            Phase::Stopping => if more {
                Phase::Stopping
            } else {
                Phase::Finished
            },
            Phase::Finished => Phase::Finished,
            Phase::Cancelled(payload) => Phase::Cancelled(payload),
        }
    }

    /// The lifecycle after a completion.
    pub open spec fn spec_push(self, completion: Completion, more: bool) -> MultishotView<P> {
        let pending = match self.phase {
            Phase::Active(_) => if self.is_full() {
                self.pending.push(limit_reached())
            } else {
                self.pending.push(completion)
            },
            Phase::Cancelled(_) => if more {
                self.pending
            } else {
                Seq::empty()
            },
            _ => self.pending,
        };
        let waker = match self.phase {
            Phase::Active(_) | Phase::Stopping => None,
            _ => self.waker,
        };
        MultishotView { phase: self.next_phase(more), waker, pending, cleanup: self.cleanup }
    }

    /// The lifecycle once the stream is gone.
    pub open spec fn spec_cancelled(self, payload: Option<P>) -> MultishotView<P> {
        MultishotView {
            phase: Phase::Cancelled(payload),
            waker: None,
            pending: Seq::empty(),
            cleanup: self.cleanup,
        }
    }

    /// What a completion asks of the driver.
    pub open spec fn spec_pushed(self, completion: Completion, more: bool) -> PushedView {
        let dropped = self.cleanup.spec_discard(completion);
        match self.phase {
            Phase::Active(_) => PushedView {
                remove: false,
                wake: self.waker,
                cancel: self.is_full() && more,
                discarded: if self.is_full() {
                    dropped
                } else {
                    Seq::empty()
                },
            },
            Phase::Stopping => PushedView {
                remove: false,
                wake: self.waker,
                cancel: false,
                discarded: dropped,
            },
            Phase::Cancelled(_) => PushedView {
                remove: !more,
                wake: None,
                cancel: false,
                discarded: if more {
                    dropped
                } else {
                    dropped + self.cleanup.spec_discard_all(self.pending)
                },
            },
            Phase::Finished => PushedView {
                remove: false,
                wake: None,
                cancel: false,
                discarded: Seq::empty(),
            },
        }
    }
}

impl<P> MultishotView<P> {
    /// A limited stream never queues more than its limit and the error that
    /// ends it.
    pub proof fn law_limited_queue_is_bounded(self, completion: Completion, more: bool, limit: usize)
        requires
            self.phase == Phase::<P>::Active(Some(limit)),
            self.pending.len() <= limit,
        ensures
            self.spec_push(completion, more).phase is Active ==> self.spec_push(completion, more).pending.len()
                <= limit,
            self.spec_push(completion, more).pending.len() <= limit + 1,
            self.pending.len() == limit ==> self.spec_push(completion, more).pending.last() == limit_reached()
                && !(self.spec_push(completion, more).phase is Active),
    {
    }

    /// Once a stream has overflowed, its queue grows no further, and no second
    /// cancellation is asked for.
    pub proof fn law_overflow_is_reported_once(self, completion: Completion, more: bool)
        requires
            !(self.phase is Active),
        ensures
            self.spec_push(completion, more).pending.len() <= self.pending.len(),
            !self.spec_pushed(completion, more).cancel,
            !(self.spec_push(completion, more).phase is Active),
    {
    }

    /// No completion is lost: what it owns is either still in the queue or
    /// given back, and never both.
    pub proof fn law_no_resource_is_lost(self, completion: Completion, more: bool)
        requires
            !(self.phase is Finished),
        ensures
            self.cleanup.spec_discard_all(self.spec_push(completion, more).pending).to_multiset().add(
                self.spec_pushed(completion, more).discarded.to_multiset(),
            ) == self.cleanup.spec_discard_all(self.pending).to_multiset().add(
                self.cleanup.spec_discard(completion).to_multiset(),
            ),
    {
        broadcast use vstd::seq_lib::group_to_multiset_ensures;

        let kept = self.cleanup.spec_discard_all(self.pending);
        let dropped = self.cleanup.spec_discard(completion);
        let none = Seq::<Discarded>::empty();
        self.cleanup.lemma_discard_all_push(self.pending, completion);
        self.cleanup.lemma_discard_all_push(self.pending, limit_reached());
        vstd::seq_lib::lemma_multiset_commutative(kept, dropped);
        vstd::seq_lib::lemma_multiset_commutative(dropped, kept);
        assert(kept + none =~= kept);
        assert(none.to_multiset() =~= vstd::multiset::Multiset::empty());
        assert(self.cleanup.spec_discard(limit_reached()) =~= none) by {
            assert(0u32 & 1 == 0) by (bit_vector);
        }
        let after = self.cleanup.spec_discard_all(self.spec_push(completion, more).pending).to_multiset().add(
            self.spec_pushed(completion, more).discarded.to_multiset(),
        );
        assert(after =~= kept.to_multiset().add(dropped.to_multiset()));
    }
}

impl<P> MultishotState<P> {
    /// Apply one completion of a multishot request. `more` says whether the
    /// kernel will send further ones.
    pub fn push(&mut self, completion: Completion, more: bool) -> (outcome: Pushed)
        ensures
            final(self)@ == old(self)@.spec_push(completion, more),
            outcome@ == old(self)@.spec_pushed(completion, more),
    {
        let mut discarded: Vec<Discarded> = Vec::new();
        let mut state = MultishotState::Finished {
            pending: VecDeque::new(),
            cleanup: MultishotCleanup::Nothing,
        };
        std::mem::swap(self, &mut state);
        match state {
            MultishotState::Active { waker, mut pending, cleanup, pending_limit } => {
                let full = match pending_limit {
                    Some(limit) => pending.len() >= limit,
                    None => false,
                };
                if full {
                    cleanup.discard(completion, &mut discarded);
                    let busy = IoError::new(
                        ErrorKind::ResourceBusy,
                        "multishot accept pending completion limit reached",
                    );
                    pending.push_back(Completion::new(Err(busy)));
                    *self = if more {
                        MultishotState::Stopping { waker: None, pending, cleanup }
                    } else {
                        MultishotState::Finished { pending, cleanup }
                    };
                    assert(discarded@ =~= cleanup.spec_discard(completion));
                    Pushed { remove: false, wake: waker, cancel: more, discarded }
                } else {
                    pending.push_back(completion);
                    *self = if more {
                        MultishotState::Active { waker: None, pending, cleanup, pending_limit }
                    } else {
                        MultishotState::Finished { pending, cleanup }
                    };
                    Pushed { remove: false, wake: waker, cancel: false, discarded }
                }
            },
            MultishotState::Stopping { waker, pending, cleanup } => {
                cleanup.discard(completion, &mut discarded);
                *self = if more {
                    MultishotState::Stopping { waker: None, pending, cleanup }
                } else {
                    MultishotState::Finished { pending, cleanup }
                };
                assert(discarded@ =~= cleanup.spec_discard(completion));
                Pushed { remove: false, wake: waker, cancel: false, discarded }
            },
            MultishotState::Cancelled { mut pending, cleanup, payload } => {
                cleanup.discard(completion, &mut discarded);
                assert(discarded@ =~= cleanup.spec_discard(completion));
                if !more {
                    cleanup.discard_all(&mut pending, &mut discarded);
                }
                *self = MultishotState::Cancelled { pending, cleanup, payload };
                Pushed { remove: !more, wake: None, cancel: false, discarded }
            },
            MultishotState::Finished { pending, cleanup } => {
                *self = MultishotState::Finished { pending, cleanup };
                Pushed { remove: false, wake: None, cancel: false, discarded }
            },
        }
    }
}

/// Lifecycle of any io_uring operation.
pub enum State<P> {
    Oneshot(OneshotState<P>),
    Multishot(MultishotState<P>),
}

/// A lifecycle as a value.
pub enum StateView<P> {
    Oneshot(OneshotState<P>),
    Multishot(MultishotView<P>),
}

impl<P> View for State<P> {
    type V = StateView<P>;

    open spec fn view(&self) -> StateView<P> {
        match *self {
            State::Oneshot(oneshot) => StateView::Oneshot(oneshot),
            State::Multishot(multishot) => StateView::Multishot(multishot@),
        }
    }
}

impl<P> StateView<P> {
    /// A one-shot operation whose future is still there.
    pub open spec fn is_observed(self) -> bool {
        self matches StateView::Oneshot(oneshot) && !(oneshot.listener() is Payload)
    }

    /// The lifecycle once the ring shuts down: nobody but the payload that was
    /// left behind hears of late completions, and nothing is delivered.
    pub open spec fn spec_shutdown(self) -> StateView<P> {
        match self {
            StateView::Oneshot(OneshotState::Submitted) | StateView::Oneshot(OneshotState::Waiting(_)) => {
                StateView::Oneshot(OneshotState::Detached(IgnoredOp::Detached))
            },
            StateView::Oneshot(OneshotState::Canceling { observer, sqe }) => StateView::Oneshot(
                OneshotState::Canceling {
                    observer: match observer {
                        CancelObserver::Detached(payload) => CancelObserver::Detached(payload),
                        _ => CancelObserver::Detached(IgnoredOp::Detached),
                    },
                    sqe,
                },
            ),
            StateView::Oneshot(oneshot) => StateView::Oneshot(oneshot),
            StateView::Multishot(multishot) => match multishot.phase {
                Phase::Finished => StateView::Oneshot(
                    OneshotState::Completed(Completion { result: Ok(0), flags: 0, blocking_value: None }),
                ),
                Phase::Active(_) | Phase::Stopping => StateView::Multishot(
                    MultishotView {
                        phase: Phase::Cancelled(None),
                        waker: None,
                        pending: Seq::empty(),
                        cleanup: multishot.cleanup,
                    },
                ),
                Phase::Cancelled(payload) => StateView::Multishot(
                    MultishotView {
                        phase: Phase::Cancelled(payload),
                        waker: None,
                        pending: Seq::empty(),
                        cleanup: multishot.cleanup,
                    },
                ),
            },
        }
    }

    /// The resources that the shutdown of this operation gives back.
    pub open spec fn spec_shutdown_discards(self) -> Seq<Discarded> {
        match self {
            StateView::Oneshot(_) => Seq::empty(),
            StateView::Multishot(multishot) => multishot.cleanup.spec_discard_all(multishot.pending),
        }
    }

    /// Whether, during shutdown, the kernel may still use the operation.
    pub open spec fn awaits_completion(self) -> bool {
        match self {
            StateView::Oneshot(oneshot) => oneshot is Detached || oneshot is Canceling,
            StateView::Multishot(multishot) => multishot.phase is Cancelled,
        }
    }

    /// After the shutdown pass an operation is either over or waits for the
    /// kernel alone: no task and no stream is left to hear of it.
    pub proof fn law_shutdown_leaves_no_observer(self)
        ensures
            match self.spec_shutdown() {
                StateView::Oneshot(oneshot) => oneshot.listener() is Payload || oneshot.listener() is Done,
                StateView::Multishot(multishot) => multishot.phase is Cancelled && multishot.waker is None
                    && multishot.pending.len() == 0,
            },
            self.spec_shutdown().awaits_completion() || self.spec_shutdown()->Oneshot_0 is Completed,
    {
    }

    /// A second shutdown pass changes nothing and gives nothing back.
    pub proof fn law_shutdown_is_idempotent(self)
        ensures
            self.spec_shutdown().spec_shutdown() == self.spec_shutdown(),
            self.spec_shutdown().spec_shutdown_discards() == Seq::<Discarded>::empty(),
    {
    }

    /// Whether a cancel request is still to be pushed.
    pub open spec fn spec_needs_cancel_push(self) -> bool {
        self matches StateView::Oneshot(OneshotState::Canceling { sqe: CancelSqe::NeedPush, .. })
    }
}

impl<P> State<P> {
    /// Apply the terminal completion of a one-shot operation.
    pub fn complete(&mut self, completion: Completion) -> (outcome: Completed<P>)
        requires
            old(self)@ is Oneshot,
        ensures
            final(self)@ == StateView::Oneshot(old(self)@->Oneshot_0.spec_complete(completion)),
            outcome == old(self)@->Oneshot_0.spec_completed(completion),
    {
        match self {
            State::Oneshot(oneshot) => oneshot.complete(completion),
            State::Multishot(_) => Completed { remove: false, wake: None, cleanup: None },
        }
    }

    /// Apply one completion of a multishot operation.
    pub fn push_multishot(&mut self, completion: Completion, more: bool) -> (outcome: Pushed)
        requires
            old(self)@ is Multishot,
        ensures
            final(self)@ == StateView::Multishot(old(self)@->Multishot_0.spec_push(completion, more)),
            outcome@ == old(self)@->Multishot_0.spec_pushed(completion, more),
    {
        match self {
            State::Multishot(multishot) => multishot.push(completion, more),
            State::Oneshot(_) => Pushed { remove: false, wake: None, cancel: false, discarded: Vec::new() },
        }
    }

    pub fn is_multishot(&self) -> (multishot: bool)
        ensures
            multishot == (self@ is Multishot),
    {
        match self {
            State::Multishot(_) => true,
            State::Oneshot(_) => false,
        }
    }

    /// Whether a cancel request is still to be pushed.
    pub fn needs_cancel_push(&self) -> (needed: bool)
        ensures
            needed == self@.spec_needs_cancel_push(),
    {
        match self {
            State::Oneshot(OneshotState::Canceling { sqe, .. }) => *sqe == CancelSqe::NeedPush,
            _ => false,
        }
    }
}

impl<P> State<P> {
    /// Prepare the operation for the end of the ring.
    fn shutdown(&mut self, discarded: &mut Vec<Discarded>)
        ensures
            final(self)@ == old(self)@.spec_shutdown(),
            final(discarded)@ == old(discarded)@ + old(self)@.spec_shutdown_discards(),
    {
        let mut state = State::Oneshot(OneshotState::Detached(IgnoredOp::Detached));
        std::mem::swap(self, &mut state);
        assert(discarded@ + Seq::<Discarded>::empty() =~= discarded@);
        match state {
            State::Oneshot(OneshotState::Submitted) | State::Oneshot(OneshotState::Waiting(_)) => {},
            State::Oneshot(OneshotState::Canceling { observer, sqe }) => {
                let observer = match observer {
                    CancelObserver::Detached(payload) => CancelObserver::Detached(payload),
                    CancelObserver::Pending | CancelObserver::Waiting(_) => CancelObserver::Detached(
                        IgnoredOp::Detached,
                    ),
                };
                *self = State::Oneshot(OneshotState::Canceling { observer, sqe });
            },
            State::Oneshot(oneshot) => {
                *self = State::Oneshot(oneshot);
            },
            State::Multishot(MultishotState::Finished { mut pending, cleanup }) => {
                cleanup.discard_all(&mut pending, discarded);
                *self = State::Oneshot(OneshotState::Completed(Completion::new(Ok(0))));
            },
            State::Multishot(MultishotState::Cancelled { mut pending, cleanup, payload }) => {
                cleanup.discard_all(&mut pending, discarded);
                *self = State::Multishot(
                    MultishotState::Cancelled { pending: VecDeque::new(), cleanup, payload },
                );
            },
            State::Multishot(MultishotState::Active { mut pending, cleanup, .. })
            | State::Multishot(MultishotState::Stopping { mut pending, cleanup, .. }) => {
                cleanup.discard_all(&mut pending, discarded);
                *self = State::Multishot(
                    MultishotState::Cancelled { pending: VecDeque::new(), cleanup, payload: None },
                );
            },
        }
    }

    /// Whether, during shutdown, the kernel may still use the operation.
    fn awaits_completion(&self) -> (awaits: bool)
        ensures
            awaits == self@.awaits_completion(),
    {
        match self {
            State::Oneshot(OneshotState::Detached(_)) => true,
            State::Oneshot(OneshotState::Canceling { .. }) => true,
            State::Multishot(MultishotState::Cancelled { .. }) => true,
            _ => false,
        }
    }
}

/// One entry of the completion queue.
#[derive(Clone, Copy, Debug)]
pub struct Cqe {
    pub user_data: u64,
    pub result: i32,
    pub flags: u32,
}

impl Cqe {
    /// The completion that this entry reports. A negative result is a negated
    /// error code.
    pub open spec fn spec_completion(self) -> Completion {
        Completion {
            result: if self.result >= 0 {
                Ok(self.result as u32)
            } else if self.result == i32::MIN {
                Err(IoError::Os(i32::MIN))
            } else {
                Err(IoError::Os((-self.result) as i32))
            },
            flags: self.flags,
            blocking_value: None,
        }
    }

    /// The completion that this entry reports.
    pub fn completion(&self) -> (completion: Completion)
        ensures
            completion == self.spec_completion(),
    {
        let result = if self.result >= 0 {
            Ok(self.result as u32)
        } else if self.result == i32::MIN {
            Err(IoError::from_raw_os_error(i32::MIN))
        } else {
            Err(IoError::from_raw_os_error(-self.result))
        };
        Completion::with_flags(result, self.flags)
    }
}

/// The driver's state while it goes through a batch of completion queue
/// entries, and what it has to do afterwards.
#[verifier::ext_equal]
pub struct DispatchView<P> {
    pub ops: Map<OpKey, StateView<P>>,
    pub wakeup_read_armed: bool,
    pub rearm_wakeup: bool,
    pub deferred: Seq<DeferredAction<P>>,
    pub discarded: Seq<Discarded>,
    pub cancel: Seq<OpKey>,
}

impl<P> DispatchView<P> {
    /// The effect of one completion of the operation under `key`.
    pub open spec fn spec_operation(self, key: OpKey, cqe: Cqe) -> DispatchView<P> {
        if !self.ops.contains_key(key) {
            self
        } else {
            let completion = cqe.spec_completion();
            match self.ops[key] {
                StateView::Oneshot(oneshot) => {
                    let outcome = oneshot.spec_completed(completion);
                    DispatchView {
                        ops: if outcome.remove {
                            self.ops.remove(key)
                        } else {
                            self.ops.insert(key, StateView::Oneshot(oneshot.spec_complete(completion)))
                        },
                        deferred: self.deferred + crate::driver::ops::deferred_by(outcome),
                        ..self
                    }
                },
                StateView::Multishot(multishot) => {
                    let more = cqe.flags & 2 != 0;
                    let outcome = multishot.spec_pushed(completion, more);
                    DispatchView {
                        ops: if outcome.remove {
                            self.ops.remove(key)
                        } else {
                            self.ops.insert(key, StateView::Multishot(multishot.spec_push(completion, more)))
                        },
                        deferred: match outcome.wake {
                            Some(waker) => self.deferred.push(DeferredAction::Wake(waker)),
                            None => self.deferred,
                        },
                        discarded: self.discarded + outcome.discarded,
                        cancel: if outcome.cancel {
                            self.cancel.push(key)
                        } else {
                            self.cancel
                        },
                        ..self
                    }
                },
            }
        }
    }

    /// The effect of one completion queue entry.
    pub open spec fn spec_step(self, cqe: Cqe, shutting_down: bool) -> DispatchView<P> {
        match CompletionKey::spec_decode(cqe.user_data) {
            None => self,
            // The outcome of a cancel request. The target's own entry decides.
            Some(CompletionKey::Cancel) | Some(CompletionKey::WakeCancel) => self,
            Some(CompletionKey::Wake) => DispatchView {
                wakeup_read_armed: false,
                rearm_wakeup: !shutting_down,
                ..self
            },
            Some(CompletionKey::Operation(key)) => self.spec_operation(key, cqe),
        }
    }

    /// The effect of a batch of completion queue entries, in order.
    pub open spec fn spec_steps(self, batch: Seq<Cqe>, shutting_down: bool) -> DispatchView<P>
        decreases batch.len(),
    {
        if batch.len() == 0 {
            self
        } else {
            self.spec_steps(batch.drop_last(), shutting_down).spec_step(batch.last(), shutting_down)
        }
    }
}

/// What the driver has to do after a batch of completion queue entries.
pub struct Dispatched<P> {
    /// Wakes and cleanups, to run once the backend is no longer borrowed.
    pub deferred: Vec<DeferredAction<P>>,
    /// Resources to give back.
    pub discarded: Vec<Discarded>,
    /// Multishot requests to cancel.
    pub cancel: Vec<OpKey>,
    /// Whether the wakeup read has to be armed again.
    pub rearm_wakeup: bool,
}

/// The provided buffer pool is made when it is first asked for.
#[derive(Clone, Copy, Debug, PartialEq, Eq, Structural)]
pub enum BufferPoolState {
    Uninit { num_bufs: u16, buffer_len: usize },
    Ready,
}

/// The error of a ring that takes no more work.
pub open spec fn shut_down() -> IoError {
    IoError::Custom { kind: ErrorKind::BrokenPipe, message: "io_uring backend is shutting down" }
}

/// What the driver is configured with.
#[derive(Clone, Copy, Debug)]
pub struct DriverConfig {
    pub capacity: usize,
    pub buffer_pool_size: u16,
    pub buffer_pool_buffer_len: usize,
    pub multishot_accept_capacity: usize,
}

/// Operations and bookkeeping of one ring.
pub struct IoUringBackend<P> {
    ops: OpTable<State<P>>,
    wakeup_read_armed: bool,
    shutting_down: bool,
    buffer_pool: BufferPoolState,
    multishot_accept_capacity: usize,
}

impl<P> IoUringBackend<P> {
    /// The operations that the ring still tracks.
    pub closed spec fn spec_ops(&self) -> Map<OpKey, StateView<P>> {
        self.ops@.map_values(|state: State<P>| state@)
    }

    /// Whether no operation will be tracked under `key` any more.
    pub closed spec fn retired(&self, key: OpKey) -> bool {
        self.ops.retired(key)
    }

    /// What was retired stays retired, and the key of an operation that is gone
    /// is retired.
    pub open spec fn retires(&self, before: &Self) -> bool {
        &&& forall|key: OpKey|
            #![trigger before.retired(key)]
            #![trigger self.retired(key)]
            before.retired(key) ==> self.retired(key)
        &&& forall|key: OpKey|
            #![trigger before.spec_ops().contains_key(key)]
            #![trigger self.retired(key)]
            before.spec_ops().contains_key(key) && !self.spec_ops().contains_key(key) ==> self.retired(key)
    }

    /// Keys are retired, and the table takes no more room than before.
    pub open spec fn continues(&self, before: &Self) -> bool {
        &&& self.retires(before)
        &&& self.spec_slots() == before.spec_slots()
    }

    /// Keys are retired, and the table has room for one operation more.
    pub open spec fn extends(&self, before: &Self) -> bool {
        &&& self.retires(before)
        &&& self.spec_slots() <= before.spec_slots() + 1
    }

    /// As long as the table has fewer slots than keys can name, there is a key
    /// for the next operation.
    pub proof fn law_room_is_left(&self)
        requires
            self.wf(),
            self.spec_slots() < crate::driver::op_table::SLOT_LIMIT,
        ensures
            !self.is_exhausted(),
    {
        self.ops.law_room_is_left();
    }

    /// A retired key finds nothing, and is never handed out again: whoever still
    /// holds it cannot reach a later operation.
    pub proof fn law_stale_key_finds_nothing(&self, key: OpKey)
        requires
            self.wf(),
            self.retired(key),
        ensures
            !self.spec_ops().contains_key(key),
    {
        self.ops.law_retired_key_finds_nothing(key);
    }

    /// Whether a read of the wakeup descriptor is in flight.
    pub closed spec fn spec_wakeup_read_armed(&self) -> bool {
        self.wakeup_read_armed
    }

    /// Whether the ring has stopped taking work.
    pub closed spec fn spec_shutting_down(&self) -> bool {
        self.shutting_down
    }

    pub closed spec fn spec_buffer_pool(&self) -> BufferPoolState {
        self.buffer_pool
    }

    pub closed spec fn spec_multishot_accept_capacity(&self) -> usize {
        self.multishot_accept_capacity
    }

    pub closed spec fn is_exhausted(&self) -> bool {
        self.ops.is_exhausted()
    }

    /// How many slots the table of operations has.
    pub closed spec fn spec_slots(&self) -> nat {
        self.ops.spec_slots()
    }

    pub closed spec fn wf(&self) -> bool {
        self.ops.wf()
    }

    /// Everything but the operations stays as it is.
    pub open spec fn same_but_ops(&self, other: &Self) -> bool {
        &&& self.spec_wakeup_read_armed() == other.spec_wakeup_read_armed()
        &&& self.spec_shutting_down() == other.spec_shutting_down()
        &&& self.spec_buffer_pool() == other.spec_buffer_pool()
        &&& self.spec_multishot_accept_capacity() == other.spec_multishot_accept_capacity()
    }

    /// The state in which a batch of completion queue entries is gone through.
    pub open spec fn spec_dispatch_start(&self) -> DispatchView<P> {
        DispatchView {
            ops: self.spec_ops(),
            wakeup_read_armed: self.spec_wakeup_read_armed(),
            rearm_wakeup: false,
            deferred: Seq::empty(),
            discarded: Seq::empty(),
            cancel: Seq::empty(),
        }
    }

    /// Go through a batch of completion queue entries.
    ///
    /// Entries that name no live operation are skipped. The caller cancels,
    /// re-arms and runs what comes back.
    pub fn dispatch_completions(&mut self, batch: &Vec<Cqe>) -> (dispatched: Dispatched<P>)
        requires
            old(self).wf(),
        ensures
            final(self).wf(),
            ({
                let after = old(self).spec_dispatch_start().spec_steps(
                    batch@,
                    old(self).spec_shutting_down(),
                );
                &&& final(self).spec_ops() == after.ops
                &&& final(self).spec_wakeup_read_armed() == after.wakeup_read_armed
                &&& dispatched.rearm_wakeup == after.rearm_wakeup
                &&& dispatched.deferred@ == after.deferred
                &&& dispatched.discarded@ == after.discarded
                &&& dispatched.cancel@ == after.cancel
            }),
            final(self).spec_shutting_down() == old(self).spec_shutting_down(),
            final(self).spec_buffer_pool() == old(self).spec_buffer_pool(),
            final(self).spec_multishot_accept_capacity() == old(self).spec_multishot_accept_capacity(),
            final(self).continues(old(self)),
    {
        let mut deferred: Vec<DeferredAction<P>> = Vec::new();
        let mut discarded: Vec<Discarded> = Vec::new();
        let mut cancel: Vec<OpKey> = Vec::new();
        let mut rearm_wakeup = false;
        let mut next: usize = 0;
        let ghost start = self.spec_dispatch_start();
        let ghost shutting_down = self.shutting_down;
        while next < batch.len()
            invariant
                self.wf(),
                next <= batch@.len(),
                self.shutting_down == shutting_down,
                shutting_down == old(self).shutting_down,
                self.buffer_pool == old(self).buffer_pool,
                self.multishot_accept_capacity == old(self).multishot_accept_capacity,
                self.continues(old(self)),
                (DispatchView {
                    ops: self.spec_ops(),
                    wakeup_read_armed: self.wakeup_read_armed,
                    rearm_wakeup,
                    deferred: deferred@,
                    discarded: discarded@,
                    cancel: cancel@,
                }) == start.spec_steps(batch@.subrange(0, next as int), shutting_down),
            decreases batch@.len() - next,
        {
            let cqe = batch[next];
            proof {
                let taken = batch@.subrange(0, next + 1);
                assert(taken.drop_last() =~= batch@.subrange(0, next as int));
                assert(taken.last() == cqe);
            }
            match CompletionKey::decode(cqe.user_data) {
                None => {},
                Some(CompletionKey::Cancel) | Some(CompletionKey::WakeCancel) => {},
                Some(CompletionKey::Wake) => {
                    self.wakeup_read_armed = false;
                    rearm_wakeup = !self.shutting_down;
                },
                Some(CompletionKey::Operation(key)) => {
                    self.dispatch_one(key, cqe, &mut deferred, &mut discarded, &mut cancel);
                },
            }
            next += 1;
        }
        assert(batch@.subrange(0, next as int) =~= batch@);
        Dispatched { deferred, discarded, cancel, rearm_wakeup }
    }

    /// Apply one completion queue entry to the operation that it names.
    fn dispatch_one(
        &mut self,
        key: OpKey,
        cqe: Cqe,
        deferred: &mut Vec<DeferredAction<P>>,
        discarded: &mut Vec<Discarded>,
        cancel: &mut Vec<OpKey>,
    )
        requires
            old(self).wf(),
        ensures
            final(self).wf(),
            final(self).same_but_ops(old(self)),
            final(self).continues(old(self)),
            forall|armed: bool, rearm: bool|
                (DispatchView {
                    ops: final(self).spec_ops(),
                    wakeup_read_armed: armed,
                    rearm_wakeup: rearm,
                    deferred: final(deferred)@,
                    discarded: final(discarded)@,
                    cancel: final(cancel)@,
                }) == #[trigger] (DispatchView {
                    ops: old(self).spec_ops(),
                    wakeup_read_armed: armed,
                    rearm_wakeup: rearm,
                    deferred: old(deferred)@,
                    discarded: old(discarded)@,
                    cancel: old(cancel)@,
                }).spec_operation(key, cqe),
    {
        let completion = cqe.completion();
        let more = cqe_more(cqe.flags);
        let Some(state) = self.ops.get_mut(key) else {
            return;
        };
        if state.is_multishot() {
            let outcome = state.push_multishot(completion, more);
            if outcome.cancel {
                cancel.push(key);
            }
            defer(deferred, outcome.wake, None);
            let mut dropped = outcome.discarded;
            discarded.append(&mut dropped);
            if outcome.remove {
                self.ops.remove(key);
            }
        } else {
            let outcome = state.complete(completion);
            defer(deferred, outcome.wake, outcome.cleanup);
            if outcome.remove {
                self.ops.remove(key);
            }
        }
    }
}

/// What became of a request to use the provided buffer pool.
#[derive(Clone, Copy, Debug, PartialEq, Eq, Structural)]
pub enum PoolRequest {
    /// The pool is there.
    Ready,
    /// The pool has to be made first.
    Create { num_bufs: u16, buffer_len: usize },
}

/// What the removal of a multishot operation asks of the driver.
pub struct Removed {
    /// Resources to give back.
    pub discarded: Vec<Discarded>,
    /// Whether a cancel request has to be pushed.
    pub push_cancel: bool,
}

/// How the end of the ring goes on.
#[derive(Clone, Copy, Debug, PartialEq, Eq, Structural)]
pub enum DrainStep {
    /// No operation is left.
    Done,
    /// Wait for the kernel and dispatch what it reports.
    Wait,
}

impl<P> IoUringBackend<P> {
    /// Bookkeeping for a new ring. The wakeup read is not armed yet.
    pub fn new(config: &DriverConfig) -> (backend: Result<Self, IoError>)
        ensures
            backend is Err <==> config.capacity > crate::driver::op_table::SLOT_LIMIT,
            backend matches Err(error) ==> error == crate::driver::op_table::too_large(),
            backend matches Ok(backend) ==> {
                &&& backend.wf()
                &&& backend.spec_ops() == Map::<OpKey, StateView<P>>::empty()
                &&& backend.spec_slots() == 0
                &&& !backend.is_exhausted()
                &&& forall|key: OpKey| !backend.retired(key)
                &&& !backend.spec_wakeup_read_armed()
                &&& !backend.spec_shutting_down()
                &&& backend.spec_buffer_pool() == (BufferPoolState::Uninit {
                    num_bufs: config.buffer_pool_size,
                    buffer_len: config.buffer_pool_buffer_len,
                })
                &&& backend.spec_multishot_accept_capacity() == config.multishot_accept_capacity
            },
    {
        match OpTable::new(config.capacity) {
            Ok(ops) => {
                let backend = IoUringBackend {
                    ops,
                    wakeup_read_armed: false,
                    shutting_down: false,
                    buffer_pool: BufferPoolState::Uninit {
                        num_bufs: config.buffer_pool_size,
                        buffer_len: config.buffer_pool_buffer_len,
                    },
                    multishot_accept_capacity: config.multishot_accept_capacity,
                };
                assert(backend.spec_ops() =~= Map::<OpKey, StateView<P>>::empty());
                Ok(backend)
            },
            Err(error) => Err(error),
        }
    }

    /// Record that a read of the wakeup descriptor is in flight.
    pub fn arm_wakeup_read(&mut self)
        requires
            old(self).wf(),
        ensures
            final(self).wf(),
            final(self).spec_wakeup_read_armed(),
            final(self).spec_ops() == old(self).spec_ops(),
            final(self).spec_shutting_down() == old(self).spec_shutting_down(),
            final(self).spec_buffer_pool() == old(self).spec_buffer_pool(),
            final(self).spec_multishot_accept_capacity() == old(self).spec_multishot_accept_capacity(),
            final(self).continues(old(self)),
    {
        self.wakeup_read_armed = true;
    }

    /// Whether a read of the wakeup descriptor is in flight.
    pub fn wakeup_read_armed(&self) -> (armed: bool)
        ensures
            armed == self.spec_wakeup_read_armed(),
    {
        self.wakeup_read_armed
    }

    /// Ask for the provided buffer pool.
    pub fn buffer_pool(&self) -> (request: PoolRequest)
        ensures
            request == (match self.spec_buffer_pool() {
                BufferPoolState::Ready => PoolRequest::Ready,
                BufferPoolState::Uninit { num_bufs, buffer_len } => PoolRequest::Create { num_bufs, buffer_len },
            }),
    {
        match self.buffer_pool {
            BufferPoolState::Ready => PoolRequest::Ready,
            BufferPoolState::Uninit { num_bufs, buffer_len } => PoolRequest::Create { num_bufs, buffer_len },
        }
    }

    /// Record that the provided buffer pool was made.
    pub fn buffer_pool_created(&mut self)
        requires
            old(self).wf(),
        ensures
            final(self).wf(),
            final(self).spec_buffer_pool() == BufferPoolState::Ready,
            final(self).spec_ops() == old(self).spec_ops(),
            final(self).spec_wakeup_read_armed() == old(self).spec_wakeup_read_armed(),
            final(self).spec_shutting_down() == old(self).spec_shutting_down(),
            final(self).spec_multishot_accept_capacity() == old(self).spec_multishot_accept_capacity(),
            final(self).continues(old(self)),
    {
        self.buffer_pool = BufferPoolState::Ready;
    }

    /// Forget the provided buffer pool. Answers whether there is one to
    /// unregister.
    pub fn release_buffer_pool(&mut self) -> (release: bool)
        requires
            old(self).wf(),
        ensures
            final(self).wf(),
            release == (old(self).spec_buffer_pool() is Ready),
            final(self).spec_buffer_pool() == (BufferPoolState::Uninit { num_bufs: 0, buffer_len: 0 }),
            final(self).spec_ops() == old(self).spec_ops(),
            final(self).spec_wakeup_read_armed() == old(self).spec_wakeup_read_armed(),
            final(self).spec_shutting_down() == old(self).spec_shutting_down(),
            final(self).spec_multishot_accept_capacity() == old(self).spec_multishot_accept_capacity(),
            final(self).continues(old(self)),
    {
        let release = self.buffer_pool == BufferPoolState::Ready;
        self.buffer_pool = BufferPoolState::Uninit { num_bufs: 0, buffer_len: 0 };
        release
    }

    /// How many accepted connections a multishot accept keeps for its stream.
    pub fn multishot_accept_capacity(&self) -> (capacity: usize)
        ensures
            capacity == self.spec_multishot_accept_capacity(),
    {
        self.multishot_accept_capacity
    }

    /// Take in a one-shot operation.
    ///
    /// Where it is refused, the payload comes back with the error: the kernel
    /// has not seen the operation.
    pub fn submit_op<T>(&mut self, data: T) -> (op: Result<Op<T>, (IoError, T)>)
        requires
            old(self).wf(),
        ensures
            final(self).wf(),
            final(self).same_but_ops(old(self)),
            op is Err <==> old(self).spec_shutting_down() || old(self).is_exhausted(),
            op matches Err((error, returned)) ==> {
                &&& returned == data
                &&& old(self).spec_shutting_down() ==> error == shut_down()
                &&& !old(self).spec_shutting_down() ==> error == crate::driver::op_table::keys_exhausted()
                &&& final(self).spec_ops() == old(self).spec_ops()
            },
            op matches Ok(op) ==> {
                &&& op.spec_data() == Some(data)
                &&& !old(self).spec_ops().contains_key(op.spec_key())
                &&& !old(self).retired(op.spec_key())
                &&& final(self).spec_ops() == old(self).spec_ops().insert(
                    op.spec_key(),
                    StateView::Oneshot(OneshotState::Submitted),
                )
            },
            final(self).extends(old(self)),
    {
        if self.shutting_down {
            return Err((IoError::new(ErrorKind::BrokenPipe, "io_uring backend is shutting down"), data));
        }
        let ghost before = self.spec_ops();
        match self.ops.insert(State::Oneshot(OneshotState::Submitted)) {
            Ok(key) => {
                assert(self.spec_ops() =~= before.insert(key, StateView::Oneshot(OneshotState::Submitted)));
                Ok(Op::new(key, Box::new(data)))
            },
            Err(error) => {
                assert(self.spec_ops() =~= before);
                Err((error, data))
            },
        }
    }

    /// Undo the intake of an operation that could not be pushed to the
    /// submission queue.
    pub fn abort_submission(&mut self, key: OpKey)
        requires
            old(self).wf(),
        ensures
            final(self).wf(),
            final(self).same_but_ops(old(self)),
            final(self).spec_ops() == old(self).spec_ops().remove(key),
            final(self).continues(old(self)),
    {
        let ghost before = self.spec_ops();
        let _ = self.ops.remove(key);
        assert(self.spec_ops() =~= before.remove(key));
    }

    /// Take in a multishot operation.
    pub fn submit_multi_op<T>(
        &mut self,
        data: T,
        cleanup: MultishotCleanup,
        pending_limit: Option<usize>,
    ) -> (op: Result<MultiOp<T>, IoError>)
        requires
            old(self).wf(),
        ensures
            final(self).wf(),
            final(self).same_but_ops(old(self)),
            op is Err <==> old(self).spec_shutting_down() || old(self).is_exhausted(),
            op matches Err(error) ==> {
                &&& old(self).spec_shutting_down() ==> error == shut_down()
                &&& !old(self).spec_shutting_down() ==> error == crate::driver::op_table::keys_exhausted()
                &&& final(self).spec_ops() == old(self).spec_ops()
            },
            op matches Ok(op) ==> {
                &&& op.spec_data() == Some(data)
                &&& !old(self).spec_ops().contains_key(op.spec_key())
                &&& !old(self).retired(op.spec_key())
                &&& final(self).spec_ops() == old(self).spec_ops().insert(
                    op.spec_key(),
                    StateView::Multishot(
                        MultishotView {
                            phase: Phase::Active(pending_limit),
                            waker: None,
                            pending: Seq::empty(),
                            cleanup,
                        },
                    ),
                )
            },
            final(self).extends(old(self)),
    {
        if self.shutting_down {
            return Err(IoError::new(ErrorKind::BrokenPipe, "io_uring backend is shutting down"));
        }
        let ghost before = self.spec_ops();
        let state = State::Multishot(
            MultishotState::Active { waker: None, pending: VecDeque::new(), cleanup, pending_limit },
        );
        let ghost view = state@;
        match self.ops.insert(state) {
            Ok(key) => {
                assert(self.spec_ops() =~= before.insert(key, view));
                Ok(MultiOp::new(key, Box::new(data)))
            },
            Err(error) => {
                assert(self.spec_ops() =~= before);
                Err(error)
            },
        }
    }

    /// Let go of a one-shot operation whose future is dropped.
    ///
    /// The payload stays with the ring until the operation's completion. A
    /// completion that was never asked for comes back.
    pub fn remove_op(&mut self, op: &mut Op<P>) -> (completion: Option<Completion>)
        requires
            old(self).wf(),
            old(self).spec_ops().contains_key(old(op).spec_key()) ==> {
                let state = old(self).spec_ops()[old(op).spec_key()];
                &&& state.is_observed()
                &&& !(state->Oneshot_0 is Completed) ==> old(op).spec_data() is Some
            },
        ensures
            final(self).wf(),
            final(self).same_but_ops(old(self)),
            final(op).spec_key() == old(op).spec_key(),
            final(self).continues(old(self)),
            ({
                let key = old(op).spec_key();
                let ops = old(self).spec_ops();
                if !ops.contains_key(key) {
                    &&& completion is None
                    &&& final(self).spec_ops() == ops
                    &&& final(op).spec_data() == old(op).spec_data()
                } else {
                    match ops[key]->Oneshot_0 {
                        OneshotState::Completed(terminal) => {
                            &&& completion == Some(terminal)
                            &&& final(self).spec_ops() == ops.remove(key)
                            &&& final(op).spec_data() == old(op).spec_data()
                        },
                        oneshot => {
                            &&& completion is None
                            &&& final(self).spec_ops() == ops.insert(
                                key,
                                StateView::Oneshot(oneshot.spec_detach(old(op).spec_data()->0)),
                            )
                            &&& final(op).spec_data() is None
                        },
                    }
                }
            }),
    {
        let key = op.key();
        let ghost before = self.spec_ops();
        let over = match self.ops.get(key) {
            Some(State::Oneshot(OneshotState::Completed(_))) => true,
            Some(_) => false,
            None => {
                return None;
            },
        };
        if over {
            let state = self.ops.remove(key);
            assert(self.spec_ops() =~= before.remove(key));
            return match state {
                Some(State::Oneshot(OneshotState::Completed(completion))) => Some(completion),
                _ => None,
            };
        }
        if let Some(State::Oneshot(oneshot)) = self.ops.get_mut(key) {
            if let Some(data) = op.take_data() {
                oneshot.detach(*data);
            }
        }
        proof {
            let state = before[key]->Oneshot_0.spec_detach(old(op).spec_data()->0);
            assert(self.spec_ops() =~= before.insert(key, StateView::Oneshot(state)));
        }
        None
    }

    /// Request cancellation of a one-shot operation. Answers whether a cancel
    /// request has to be pushed.
    ///
    /// A stale key and a multishot operation are left alone.
    pub fn cancel_op(&mut self, key: OpKey) -> (push: bool)
        requires
            old(self).wf(),
        ensures
            final(self).wf(),
            final(self).same_but_ops(old(self)),
            final(self).continues(old(self)),
            ({
                let ops = old(self).spec_ops();
                if ops.contains_key(key) && ops[key] is Oneshot {
                    &&& push == ops[key]->Oneshot_0.wants_cancel()
                    &&& final(self).spec_ops() == ops.insert(
                        key,
                        StateView::Oneshot(ops[key]->Oneshot_0.spec_request_cancel()),
                    )
                } else {
                    &&& !push
                    &&& final(self).spec_ops() == ops
                }
            }),
    {
        let ghost before = self.spec_ops();
        let mut push = false;
        if let Some(state) = self.ops.get_mut(key) {
            if let State::Oneshot(oneshot) = state {
                push = oneshot.request_cancel();
            }
        }
        proof {
            if before.contains_key(key) && before[key] is Oneshot {
                assert(self.spec_ops() =~= before.insert(
                    key,
                    StateView::Oneshot(before[key]->Oneshot_0.spec_request_cancel()),
                ));
            } else {
                assert(self.spec_ops() =~= before);
            }
        }
        push
    }

    /// Record that the cancel request of an operation is in the submission
    /// queue.
    pub fn cancel_pushed(&mut self, key: OpKey)
        requires
            old(self).wf(),
        ensures
            final(self).wf(),
            final(self).same_but_ops(old(self)),
            final(self).continues(old(self)),
            final(self).spec_ops() == with_cancel_pushed(old(self).spec_ops(), key),
    {
        let ghost before = self.spec_ops();
        if let Some(state) = self.ops.get_mut(key) {
            if let State::Oneshot(oneshot) = state {
                oneshot.mark_cancel_in_flight();
            }
        }
        proof {
            if before.contains_key(key) && before[key] is Oneshot {
                assert(self.spec_ops() =~= before.insert(
                    key,
                    StateView::Oneshot(before[key]->Oneshot_0.spec_cancel_in_flight()),
                ));
            } else {
                assert(self.spec_ops() =~= before);
            }
        }
    }

    /// Let go of a multishot operation whose stream is dropped.
    ///
    /// What is queued is given back. While the request is armed, it has to be
    /// cancelled, and its payload is kept until the last completion.
    pub fn remove_multi_op(&mut self, key: OpKey, payload: P) -> (removed: Removed)
        requires
            old(self).wf(),
            old(self).spec_ops().contains_key(key) ==> old(self).spec_ops()[key] is Multishot,
        ensures
            final(self).wf(),
            final(self).same_but_ops(old(self)),
            final(self).continues(old(self)),
            ({
                let ops = old(self).spec_ops();
                if !ops.contains_key(key) {
                    &&& removed.discarded@ == Seq::<Discarded>::empty()
                    &&& !removed.push_cancel
                    &&& final(self).spec_ops() == ops
                } else {
                    let multishot = ops[key]->Multishot_0;
                    &&& removed.discarded@ == multishot.cleanup.spec_discard_all(multishot.pending)
                    &&& removed.push_cancel == (multishot.phase is Active || multishot.phase is Stopping)
                    &&& final(self).spec_ops() == (match multishot.phase {
                        Phase::Finished => ops.remove(key),
                        Phase::Active(_) | Phase::Stopping => ops.insert(
                            key,
                            StateView::Multishot(multishot.spec_cancelled(Some(payload))),
                        ),
                        Phase::Cancelled(retained) => ops.insert(
                            key,
                            StateView::Multishot(
                                multishot.spec_cancelled(
                                    match retained {
                                        Some(first) => Some(first),
                                        None => Some(payload),
                                    },
                                ),
                            ),
                        ),
                    })
                }
            }),
    {
        let ghost before = self.spec_ops();
        let mut discarded: Vec<Discarded> = Vec::new();
        let Some(state) = self.ops.get_mut(key) else {
            return Removed { discarded, push_cancel: false };
        };
        let mut multishot = State::Oneshot(OneshotState::Submitted);
        std::mem::swap(state, &mut multishot);
        let mut push_cancel = false;
        let mut finished = false;
        match multishot {
            State::Multishot(MultishotState::Active { mut pending, cleanup, .. })
            | State::Multishot(MultishotState::Stopping { mut pending, cleanup, .. }) => {
                cleanup.discard_all(&mut pending, &mut discarded);
                *state = State::Multishot(
                    MultishotState::Cancelled { pending, cleanup, payload: Some(payload) },
                );
                push_cancel = true;
            },
            State::Multishot(MultishotState::Finished { mut pending, cleanup }) => {
                cleanup.discard_all(&mut pending, &mut discarded);
                finished = true;
            },
            State::Multishot(MultishotState::Cancelled { mut pending, cleanup, payload: retained }) => {
                cleanup.discard_all(&mut pending, &mut discarded);
                let payload = match retained {
                    Some(first) => Some(first),
                    None => Some(payload),
                };
                *state = State::Multishot(MultishotState::Cancelled { pending, cleanup, payload });
            },
            State::Oneshot(_) => {},
        }
        if finished {
            let _ = self.ops.remove(key);
        }
        proof {
            let multishot = before[key]->Multishot_0;
            let dropped = multishot.cleanup.spec_discard_all(multishot.pending);
            assert(Seq::<Discarded>::empty() + dropped =~= dropped);
            if finished {
                assert(self.spec_ops() =~= before.remove(key));
            } else {
                assert(self.spec_ops() =~= before.insert(key, self.spec_ops()[key]));
            }
        }
        Removed { discarded, push_cancel }
    }

    /// One poll of a one-shot operation, on behalf of a task with this waker.
    ///
    /// `same` says whether the waker registered before, if there is one, is
    /// known to wake the same task. A terminal completion comes back and frees
    /// the slot. The payload stays with the operation.
    pub fn poll_op_as(&mut self, op: &Op<P>, current: Waker, same: bool) -> (polled: Poll<Completion>)
        requires
            old(self).wf(),
            old(self).spec_ops().contains_key(op.spec_key()),
            old(self).spec_ops()[op.spec_key()].is_observed(),
        ensures
            final(self).wf(),
            final(self).same_but_ops(old(self)),
            final(self).continues(old(self)),
            polled_as(old(self).spec_ops(), op.spec_key(), current, same, final(self).spec_ops(), polled),
    {
        let key = op.key();
        let ghost before = self.spec_ops();
        let over = match self.ops.get(key) {
            Some(State::Oneshot(OneshotState::Completed(_))) => true,
            _ => false,
        };
        if over {
            let state = self.ops.remove(key);
            assert(self.spec_ops() =~= before.remove(key));
            return match state {
                Some(State::Oneshot(OneshotState::Completed(completion))) => Poll::Ready(completion),
                _ => Poll::Pending,
            };
        }
        if let Some(State::Oneshot(oneshot)) = self.ops.get_mut(key) {
            oneshot.observe(current, same);
        }
        assert(self.spec_ops() =~= before.insert(
            key,
            StateView::Oneshot(before[key]->Oneshot_0.spec_observe(current, same)),
        ));
        Poll::Pending
    }

    /// One poll of a one-shot operation.
    ///
    /// The registered waker is kept where it is known to wake the polling task,
    /// and replaced by a clone of the task's own waker otherwise.
    pub fn poll_op(&mut self, op: &Op<P>, waker: &Waker) -> (polled: Poll<Completion>)
        requires
            old(self).wf(),
            old(self).spec_ops().contains_key(op.spec_key()),
            old(self).spec_ops()[op.spec_key()].is_observed(),
        ensures
            final(self).wf(),
            final(self).same_but_ops(old(self)),
            final(self).continues(old(self)),
            exists|current: Waker, same: bool| #[trigger]
                polled_as(old(self).spec_ops(), op.spec_key(), current, same, final(self).spec_ops(), polled)
                    && crate::task::brought(
                    old(self).spec_ops()[op.spec_key()]->Oneshot_0.listener().spec_task(),
                    *waker,
                    current,
                    same,
                ),
    {
        let registered = match self.ops.get(op.key()) {
            Some(State::Oneshot(oneshot)) => oneshot.registered(),
            _ => None,
        };
        let (current, same) = bring(registered, waker);
        self.poll_op_as(op, current, same)
    }

    /// One poll of a multishot operation, on behalf of a task with this waker.
    ///
    /// A queued completion comes back first. Where nothing is queued, the end
    /// of the stream is `Ready(None)`, and otherwise the task is remembered.
    pub fn poll_multi_op_as(&mut self, key: OpKey, current: Waker) -> (polled: Poll<Option<Completion>>)
        requires
            old(self).wf(),
            old(self).spec_ops().contains_key(key),
            old(self).spec_ops()[key] is Multishot,
        ensures
            final(self).wf(),
            final(self).same_but_ops(old(self)),
            final(self).continues(old(self)),
            multi_polled_as(old(self).spec_ops(), key, current, final(self).spec_ops(), polled),
    {
        let ghost before = self.spec_ops();
        let ghost multishot = before[key]->Multishot_0;
        let mut polled: Poll<Option<Completion>> = Poll::Pending;
        let mut finished = false;
        if let Some(State::Multishot(state)) = self.ops.get_mut(key) {
            match state {
                MultishotState::Active { waker, pending, .. } => match pending.pop_front() {
                    Some(completion) => {
                        polled = Poll::Ready(Some(completion));
                    },
                    None => {
                        *waker = Some(current);
                    },
                },
                MultishotState::Stopping { waker, pending, .. } => match pending.pop_front() {
                    Some(completion) => {
                        polled = Poll::Ready(Some(completion));
                    },
                    None => {
                        *waker = Some(current);
                    },
                },
                MultishotState::Finished { pending, .. } => match pending.pop_front() {
                    Some(completion) => {
                        polled = Poll::Ready(Some(completion));
                    },
                    None => {
                        polled = Poll::Ready(None);
                        finished = true;
                    },
                },
                MultishotState::Cancelled { .. } => {
                    polled = Poll::Ready(None);
                },
            }
        }
        if finished {
            let _ = self.ops.remove(key);
        }
        proof {
            if finished {
                assert(self.spec_ops() =~= before.remove(key));
            } else {
                let after = self.spec_ops()[key]->Multishot_0;
                if multishot.pending.len() > 0 && !(multishot.phase is Cancelled) {
                    assert(after.pending =~= multishot.pending.drop_first());
                } else {
                    assert(after.pending =~= multishot.pending);
                }
                if multishot.phase is Cancelled {
                    assert(self.spec_ops() =~= before);
                } else {
                    assert(self.spec_ops() =~= before.insert(key, StateView::Multishot(after)));
                }
            }
        }
        polled
    }

    /// One poll of a multishot operation.
    pub fn poll_multi_op(&mut self, key: OpKey, waker: &Waker) -> (polled: Poll<Option<Completion>>)
        requires
            old(self).wf(),
            old(self).spec_ops().contains_key(key),
            old(self).spec_ops()[key] is Multishot,
        ensures
            final(self).wf(),
            final(self).same_but_ops(old(self)),
            final(self).continues(old(self)),
            exists|current: Waker| #[trigger]
                multi_polled_as(old(self).spec_ops(), key, current, final(self).spec_ops(), polled)
                    && crate::task::cloned_from(*waker, current),
    {
        let (current, _) = bring(None, waker);
        self.poll_multi_op_as(key, current)
    }

    /// The operations whose cancel request is still to be pushed, by slot.
    pub fn cancel_retries(&self) -> (keys: Vec<OpKey>)
        requires
            self.wf(),
        ensures
            forall|key: OpKey| #[trigger]
                keys@.contains(key) <==> self.spec_ops().contains_key(key)
                    && self.spec_ops()[key].spec_needs_cancel_push(),
            crate::driver::op_table::slots_ascend(keys@),
    {
        let all = self.ops.keys();
        let mut keys: Vec<OpKey> = Vec::new();
        let mut next: usize = 0;
        while next < all.len()
            invariant
                self.wf(),
                next <= all@.len(),
                crate::driver::op_table::slots_ascend(all@),
                forall|key: OpKey| #[trigger] all@.contains(key) <==> self.ops@.contains_key(key),
                crate::driver::op_table::slots_ascend(keys@),
                forall|i: int, j: int|
                    0 <= i < keys@.len() && next <= j < all@.len() ==> (#[trigger] keys@[i]).spec_slot() < (
                    #[trigger] all@[j]).spec_slot(),
                forall|key: OpKey| #[trigger]
                    keys@.contains(key) <==> all@.subrange(0, next as int).contains(key)
                        && self.spec_ops()[key].spec_needs_cancel_push(),
            decreases all@.len() - next,
        {
            let key = all[next];
            let ghost chosen = keys@;
            assert(all@.contains(key));
            assert(self.spec_ops().contains_key(key));
            if let Some(state) = self.ops.get(key) {
                if state.needs_cancel_push() {
                    keys.push(key);
                }
            }
            proof {
                lemma_filtered_push(
                    all@,
                    next as int,
                    chosen,
                    keys@,
                    |key: OpKey| self.spec_ops()[key].spec_needs_cancel_push(),
                );
            }
            next += 1;
        }
        assert(all@.subrange(0, next as int) =~= all@);
        keys
    }

    /// Stop taking work. Answers whether this is the first request to do so.
    pub fn shutdown(&mut self) -> (first: bool)
        requires
            old(self).wf(),
        ensures
            final(self).wf(),
            first == !old(self).spec_shutting_down(),
            final(self).spec_shutting_down(),
            final(self).spec_ops() == old(self).spec_ops(),
            final(self).spec_wakeup_read_armed() == old(self).spec_wakeup_read_armed(),
            final(self).spec_buffer_pool() == old(self).spec_buffer_pool(),
            final(self).spec_multishot_accept_capacity() == old(self).spec_multishot_accept_capacity(),
            final(self).continues(old(self)),
    {
        let first = !self.shutting_down;
        self.shutting_down = true;
        first
    }

    /// Prepare every operation for the end of the ring. Answers with the
    /// resources to give back, operation by operation in the order of the slots.
    pub fn shutdown_prepare(&mut self) -> (discarded: Vec<Discarded>)
        requires
            old(self).wf(),
        ensures
            final(self).wf(),
            final(self).same_but_ops(old(self)),
            final(self).continues(old(self)),
            final(self).spec_ops() == old(self).spec_ops().map_values(
                |state: StateView<P>| state.spec_shutdown(),
            ),
            exists|keys: Seq<OpKey>| #[trigger]
                crate::driver::op_table::covers(keys, old(self).spec_ops().dom()) && discarded@ == shutdown_discards(
                    old(self).spec_ops(),
                    keys,
                ),
    {
        let keys = self.ops.keys();
        let mut discarded: Vec<Discarded> = Vec::new();
        let mut next: usize = 0;
        let ghost before = self.spec_ops();
        assert(self.spec_ops().dom() =~= self.ops@.dom());
        assert(crate::driver::op_table::covers(keys@, before.dom()));
        assert(keys@.subrange(0, 0) =~= Seq::<OpKey>::empty());
        while next < keys.len()
            invariant
                self.wf(),
                self.same_but_ops(old(self)),
                self.continues(old(self)),
                before == old(self).spec_ops(),
                next <= keys@.len(),
                crate::driver::op_table::covers(keys@, before.dom()),
                self.spec_ops().dom() == before.dom(),
                forall|i: int|
                    0 <= i < next ==> self.spec_ops()[#[trigger] keys@[i]] == before[keys@[i]].spec_shutdown(),
                forall|i: int|
                    next <= i < keys@.len() ==> self.spec_ops()[#[trigger] keys@[i]] == before[keys@[i]],
                discarded@ == shutdown_discards(before, keys@.subrange(0, next as int)),
            decreases keys@.len() - next,
        {
            let key = keys[next];
            let ghost ops = self.spec_ops();
            assert(keys@.contains(key));
            assert(ops.dom().contains(key));
            if let Some(state) = self.ops.get_mut(key) {
                state.shutdown(&mut discarded);
            }
            proof {
                assert(self.spec_ops() =~= ops.insert(key, before[key].spec_shutdown()));
                assert(self.spec_ops().dom() =~= before.dom());
                let taken = keys@.subrange(0, next + 1);
                assert(taken.drop_last() =~= keys@.subrange(0, next as int));
                assert(taken.last() == key);
            }
            next += 1;
        }
        proof {
            assert(keys@.subrange(0, next as int) =~= keys@);
            let after = before.map_values(|state: StateView<P>| state.spec_shutdown());
            assert forall|key: OpKey| before.dom().contains(key) implies #[trigger] self.spec_ops()[key]
                == after[key] by {
                assert(keys@.contains(key));
                let i = choose|i: int| 0 <= i < keys@.len() && keys@[i] == key;
                assert(self.spec_ops()[keys@[i]] == before[keys@[i]].spec_shutdown());
            }
            assert(self.spec_ops() =~= after);
        }
        discarded
    }

    /// The operations that the kernel may still use, by slot.
    pub fn shutdown_cancels(&self) -> (keys: Vec<OpKey>)
        requires
            self.wf(),
        ensures
            forall|key: OpKey| #[trigger]
                keys@.contains(key) <==> self.spec_ops().contains_key(key)
                    && self.spec_ops()[key].awaits_completion(),
            crate::driver::op_table::slots_ascend(keys@),
    {
        let all = self.ops.keys();
        let mut keys: Vec<OpKey> = Vec::new();
        let mut next: usize = 0;
        while next < all.len()
            invariant
                self.wf(),
                next <= all@.len(),
                crate::driver::op_table::slots_ascend(all@),
                forall|key: OpKey| #[trigger] all@.contains(key) <==> self.ops@.contains_key(key),
                crate::driver::op_table::slots_ascend(keys@),
                forall|i: int, j: int|
                    0 <= i < keys@.len() && next <= j < all@.len() ==> (#[trigger] keys@[i]).spec_slot() < (
                    #[trigger] all@[j]).spec_slot(),
                forall|key: OpKey| #[trigger]
                    keys@.contains(key) <==> all@.subrange(0, next as int).contains(key)
                        && self.spec_ops()[key].awaits_completion(),
            decreases all@.len() - next,
        {
            let key = all[next];
            let ghost chosen = keys@;
            assert(all@.contains(key));
            assert(self.spec_ops().contains_key(key));
            if let Some(state) = self.ops.get(key) {
                if state.awaits_completion() {
                    keys.push(key);
                }
            }
            proof {
                lemma_filtered_push(
                    all@,
                    next as int,
                    chosen,
                    keys@,
                    |key: OpKey| self.spec_ops()[key].awaits_completion(),
                );
            }
            next += 1;
        }
        assert(all@.subrange(0, next as int) =~= all@);
        keys
    }

    /// Free the slots, in order, up to the first operation that the kernel may
    /// still use.
    pub fn shutdown_drain(&mut self) -> (step: DrainStep)
        requires
            old(self).wf(),
        ensures
            final(self).wf(),
            final(self).same_but_ops(old(self)),
            final(self).continues(old(self)),
            step is Done <==> forall|key: OpKey| #[trigger]
                old(self).spec_ops().contains_key(key) ==> !old(self).spec_ops()[key].awaits_completion(),
            step is Done ==> final(self).spec_ops() == Map::<OpKey, StateView<P>>::empty(),
            final(self).spec_ops().submap_of(old(self).spec_ops()),
            forall|key: OpKey| #[trigger]
                old(self).spec_ops().contains_key(key) ==> (final(self).spec_ops().contains_key(key)
                    <==> exists|first: OpKey| #[trigger]
                    old(self).spec_ops().contains_key(first) && old(self).spec_ops()[first].awaits_completion()
                        && first.spec_slot() <= key.spec_slot()),
    {
        let keys = self.ops.keys();
        let mut next: usize = 0;
        let ghost before = self.spec_ops();
        assert(before.dom() =~= self.ops@.dom());
        assert forall|i: int| 0 <= i < keys@.len() implies before.contains_key(#[trigger] keys@[i]) by {
            assert(keys@.contains(keys@[i]));
        }
        while next < keys.len()
            invariant
                self.wf(),
                self.same_but_ops(old(self)),
                self.continues(old(self)),
                before == old(self).spec_ops(),
                next <= keys@.len(),
                crate::driver::op_table::slots_ascend(keys@),
                crate::driver::op_table::covers(keys@, before.dom()),
                self.spec_ops().submap_of(before),
                forall|i: int| 0 <= i < next ==> !before[#[trigger] keys@[i]].awaits_completion(),
                forall|i: int| 0 <= i < next ==> !self.spec_ops().contains_key(#[trigger] keys@[i]),
                forall|i: int|
                    next <= i < keys@.len() ==> self.spec_ops().contains_key(#[trigger] keys@[i]),
            decreases keys@.len() - next,
        {
            let key = keys[next];
            assert(keys@.contains(key));
            let awaits = match self.ops.get(key) {
                Some(state) => state.awaits_completion(),
                None => false,
            };
            if awaits {
                proof {
                    assert(before.contains_key(key) && before[key].awaits_completion());
                    assert forall|k: OpKey| #[trigger] before.contains_key(k) implies (
                    self.spec_ops().contains_key(k) <==> exists|first: OpKey| #[trigger]
                        before.contains_key(first) && before[first].awaits_completion()
                            && first.spec_slot() <= k.spec_slot()) by {
                        assert(keys@.contains(k));
                        let i = choose|i: int| 0 <= i < keys@.len() && keys@[i] == k;
                        if i >= next {
                            assert(keys@[next as int].spec_slot() <= keys@[i].spec_slot());
                        } else {
                            assert forall|first: OpKey| #[trigger] before.contains_key(first)
                                && before[first].awaits_completion() implies first.spec_slot() > k.spec_slot() by {
                                assert(keys@.contains(first));
                                let j = choose|j: int| 0 <= j < keys@.len() && keys@[j] == first;
                                assert(j >= next);
                                assert(keys@[i].spec_slot() < keys@[j].spec_slot());
                            }
                        }
                    }
                }
                return DrainStep::Wait;
            }
            let ghost ops = self.spec_ops();
            let _ = self.ops.remove(key);
            assert(self.spec_ops() =~= ops.remove(key));
            assert forall|k: OpKey| #[trigger] self.spec_ops().dom().contains(k) implies before.dom().contains(k)
                && self.spec_ops()[k] == before[k] by {
                assert(ops.dom().contains(k));
                assert(keys@.contains(k) == before.dom().contains(k));
            }
            next += 1;
        }
        proof {
            assert forall|key: OpKey| #[trigger] before.contains_key(key) implies !before[key].awaits_completion()
                && !self.spec_ops().contains_key(key) by {
                assert(keys@.contains(key));
                let i = choose|i: int| 0 <= i < keys@.len() && keys@[i] == key;
                assert(!before[keys@[i]].awaits_completion());
            }
            assert forall|key: OpKey| !self.spec_ops().contains_key(key) by {
                if self.spec_ops().contains_key(key) {
                    assert(self.spec_ops().dom().contains(key));
                    assert(before.contains_key(key));
                }
            }
            assert(self.spec_ops() =~= Map::<OpKey, StateView<P>>::empty());
        }
        DrainStep::Done
    }
}

/// How far the end of a ring has come.
pub enum ShutdownStage {
    /// Hand what is queued for submission to the kernel.
    Flush,
    /// Cancel the operations that the kernel may still use, one by one.
    Cancel { keys: Vec<OpKey>, next: usize },
    /// Submit the request that cancels the wakeup read.
    SubmitWakeCancel,
    /// Wait for the wakeup read to end.
    AwaitWakeup,
    /// Wait for the operations to end.
    Drain,
    Finished,
}

/// What has to be done next at the end of a ring. Where it fails, the ring is
/// dropped as it is.
pub enum ShutdownAction {
    /// Submit what is queued.
    Submit,
    /// Give these resources back.
    Discard(Vec<Discarded>),
    /// Push a cancel request for this operation.
    PushCancel(OpKey),
    /// Push a cancel request for the wakeup read.
    PushWakeCancel,
    /// Wait for one completion and dispatch what the kernel reports.
    WaitAndDispatch,
    /// The operations are gone. Unregister the provided buffer pool, if there
    /// is one.
    ReleasePool(bool),
    Done,
}

impl<P> IoUringBackend<P> {
    /// The next step of the end of a ring, after the step before succeeded.
    ///
    /// `flushed` says whether the submission queue is empty. The provided
    /// buffer pool is let go only when no operation can use it any more.
    pub fn shutdown_next(&mut self, stage: ShutdownStage, flushed: bool) -> (step: (ShutdownStage, ShutdownAction))
        requires
            old(self).wf(),
            stage matches ShutdownStage::Cancel { keys, next } ==> next <= keys@.len(),
        ensures
            final(self).wf(),
            step.0 matches ShutdownStage::Cancel { keys, next } ==> next <= keys@.len(),
            final(self).continues(old(self)),
            final(self).spec_wakeup_read_armed() == old(self).spec_wakeup_read_armed(),
            final(self).spec_shutting_down() == old(self).spec_shutting_down(),
            final(self).spec_multishot_accept_capacity() == old(self).spec_multishot_accept_capacity(),
            !(step.1 is ReleasePool) ==> final(self).spec_buffer_pool() == old(self).spec_buffer_pool(),
            shutdown_stepped(old(self), stage, flushed, final(self), step),
    {
        match stage {
            ShutdownStage::Flush => {
                if !flushed {
                    return (ShutdownStage::Flush, ShutdownAction::Submit);
                }
                let discarded = self.shutdown_prepare();
                let keys = self.shutdown_cancels();
                (ShutdownStage::Cancel { keys, next: 0 }, ShutdownAction::Discard(discarded))
            },
            ShutdownStage::Cancel { keys, next } => {
                if next < keys.len() {
                    let key = keys[next];
                    return (ShutdownStage::Cancel { keys, next: next + 1 }, ShutdownAction::PushCancel(key));
                }
                if self.wakeup_read_armed {
                    return (ShutdownStage::SubmitWakeCancel, ShutdownAction::PushWakeCancel);
                }
                self.shutdown_drain_step()
            },
            ShutdownStage::SubmitWakeCancel => (ShutdownStage::AwaitWakeup, ShutdownAction::Submit),
            ShutdownStage::AwaitWakeup => {
                if self.wakeup_read_armed {
                    return (ShutdownStage::AwaitWakeup, ShutdownAction::WaitAndDispatch);
                }
                self.shutdown_drain_step()
            },
            ShutdownStage::Drain => self.shutdown_drain_step(),
            ShutdownStage::Finished => (ShutdownStage::Finished, ShutdownAction::Done),
        }
    }

    fn shutdown_drain_step(&mut self) -> (step: (ShutdownStage, ShutdownAction))
        requires
            old(self).wf(),
        ensures
            final(self).wf(),
            final(self).continues(old(self)),
            final(self).spec_wakeup_read_armed() == old(self).spec_wakeup_read_armed(),
            final(self).spec_shutting_down() == old(self).spec_shutting_down(),
            final(self).spec_multishot_accept_capacity() == old(self).spec_multishot_accept_capacity(),
            drained(old(self), final(self), step),
    {
        match self.shutdown_drain() {
            DrainStep::Wait => (ShutdownStage::Drain, ShutdownAction::WaitAndDispatch),
            DrainStep::Done => {
                let release = self.release_buffer_pool();
                (ShutdownStage::Finished, ShutdownAction::ReleasePool(release))
            },
        }
    }
}

/// The operations once the cancel request of one of them was pushed.
pub open spec fn with_cancel_pushed<P>(ops: Map<OpKey, StateView<P>>, key: OpKey) -> Map<OpKey, StateView<P>> {
    if ops.contains_key(key) && ops[key] is Oneshot {
        ops.insert(key, StateView::Oneshot(ops[key]->Oneshot_0.spec_cancel_in_flight()))
    } else {
        ops
    }
}

/// What one step of the end of a ring does: it goes on from `stage`.
pub open spec fn shutdown_stepped<P>(
    before: &IoUringBackend<P>,
    stage: ShutdownStage,
    flushed: bool,
    after: &IoUringBackend<P>,
    step: (ShutdownStage, ShutdownAction),
) -> bool {
    match stage {
        ShutdownStage::Flush => if !flushed {
            &&& step.0 is Flush
            &&& step.1 is Submit
            &&& after.spec_ops() == before.spec_ops()
        } else {
            &&& after.spec_ops() == before.spec_ops().map_values(
                |state: StateView<P>| state.spec_shutdown(),
            )
            &&& step.0 matches ShutdownStage::Cancel { keys, next }
            &&& next == 0
            &&& crate::driver::op_table::slots_ascend(keys@)
            &&& forall|key: OpKey| #[trigger]
                keys@.contains(key) <==> after.spec_ops().contains_key(key)
                    && after.spec_ops()[key].awaits_completion()
            &&& step.1 matches ShutdownAction::Discard(discarded)
            &&& exists|order: Seq<OpKey>| #[trigger]
                crate::driver::op_table::covers(order, before.spec_ops().dom()) && discarded@ == shutdown_discards(
                    before.spec_ops(),
                    order,
                )
        },
        ShutdownStage::Cancel { keys, next } => if next < keys@.len() {
            &&& step.0 == (ShutdownStage::Cancel { keys, next: (next + 1) as usize })
            &&& step.1 == ShutdownAction::PushCancel(keys@[next as int])
            &&& after.spec_ops() == before.spec_ops()
        } else if before.spec_wakeup_read_armed() {
            &&& step.0 is SubmitWakeCancel
            &&& step.1 is PushWakeCancel
            &&& after.spec_ops() == before.spec_ops()
        } else {
            drained(before, after, step)
        },
        ShutdownStage::SubmitWakeCancel => {
            &&& step.0 is AwaitWakeup
            &&& step.1 is Submit
            &&& after.spec_ops() == before.spec_ops()
        },
        ShutdownStage::AwaitWakeup => if before.spec_wakeup_read_armed() {
            &&& step.0 is AwaitWakeup
            &&& step.1 is WaitAndDispatch
            &&& after.spec_ops() == before.spec_ops()
        } else {
            drained(before, after, step)
        },
        ShutdownStage::Drain => drained(before, after, step),
        ShutdownStage::Finished => {
            &&& step.0 is Finished
            &&& step.1 is Done
            &&& after.spec_ops() == before.spec_ops()
        },
    }
}

/// One attempt to empty the table at the end of a ring: the slots are freed, in
/// order, up to the first operation that the kernel may still use.
pub open spec fn drained<P>(
    before: &IoUringBackend<P>,
    after: &IoUringBackend<P>,
    step: (ShutdownStage, ShutdownAction),
) -> bool {
    let waiting = exists|key: OpKey| #[trigger]
        before.spec_ops().contains_key(key) && before.spec_ops()[key].awaits_completion();
    if waiting {
        &&& step.0 is Drain
        &&& step.1 is WaitAndDispatch
        &&& after.spec_buffer_pool() == before.spec_buffer_pool()
        &&& after.spec_ops().submap_of(before.spec_ops())
        &&& forall|key: OpKey| #[trigger]
            before.spec_ops().contains_key(key) ==> (after.spec_ops().contains_key(key)
                <==> exists|first: OpKey| #[trigger]
                before.spec_ops().contains_key(first) && before.spec_ops()[first].awaits_completion()
                    && first.spec_slot() <= key.spec_slot())
    } else {
        &&& step.0 is Finished
        &&& step.1 == ShutdownAction::ReleasePool(before.spec_buffer_pool() is Ready)
        &&& after.spec_ops() == Map::<OpKey, StateView<P>>::empty()
        &&& after.spec_buffer_pool() == (BufferPoolState::Uninit { num_bufs: 0, buffer_len: 0 })
    }
}

/// Linux error number: the device or resource is busy.
pub const EBUSY: i32 = 16;

/// Linux error number: the call was interrupted.
pub const EINTR: i32 = 4;

/// Linux error number: the timer expired.
pub const ETIME: i32 = 62;

/// What follows an attempt to submit.
pub enum SubmitStep {
    Done,
    /// The completion queue is full: dispatch it, then submit again.
    DispatchAndRetry,
    Retry,
    Fail(IoError),
}

/// Judge an attempt to submit.
pub fn submit_step(result: Result<(), IoError>) -> (step: SubmitStep)
    ensures
        step == (match result {
            Ok(()) => SubmitStep::Done,
            Err(error) => if error == IoError::Os(EBUSY) {
                SubmitStep::DispatchAndRetry
            } else if error == IoError::Os(EINTR) {
                SubmitStep::Retry
            } else {
                SubmitStep::Fail(error)
            },
        }),
{
    match result {
        Ok(()) => SubmitStep::Done,
        Err(error) => match error.raw_os_error() {
            Some(code) => if code == EBUSY {
                SubmitStep::DispatchAndRetry
            } else if code == EINTR {
                SubmitStep::Retry
            } else {
                SubmitStep::Fail(error)
            },
            None => SubmitStep::Fail(error),
        },
    }
}

/// What follows a wait with a time limit.
pub enum WaitStep {
    Done(usize),
    Retry,
    Fail(IoError),
}

/// Judge a wait with a time limit. Running out of time is no failure.
pub fn wait_step(result: Result<usize, IoError>) -> (step: WaitStep)
    ensures
        step == (match result {
            Ok(count) => WaitStep::Done(count),
            Err(error) => if error == IoError::Os(ETIME) {
                WaitStep::Done(0)
            } else if error == IoError::Os(EINTR) {
                WaitStep::Retry
            } else {
                WaitStep::Fail(error)
            },
        }),
{
    match result {
        Ok(count) => WaitStep::Done(count),
        Err(error) => match error.raw_os_error() {
            Some(code) => if code == ETIME {
                WaitStep::Done(0)
            } else if code == EINTR {
                WaitStep::Retry
            } else {
                WaitStep::Fail(error)
            },
            None => WaitStep::Fail(error),
        },
    }
}

/// The outcome of one poll of a one-shot operation.
pub open spec fn polled_as<P>(
    before: Map<OpKey, StateView<P>>,
    key: OpKey,
    current: Waker,
    same: bool,
    after: Map<OpKey, StateView<P>>,
    polled: Poll<Completion>,
) -> bool {
    match before[key]->Oneshot_0 {
        OneshotState::Completed(completion) => {
            &&& polled == Poll::Ready(completion)
            &&& after == before.remove(key)
        },
        oneshot => {
            &&& polled == Poll::<Completion>::Pending
            &&& after == before.insert(key, StateView::Oneshot(oneshot.spec_observe(current, same)))
        },
    }
}

/// The outcome of one poll of a multishot operation.
pub open spec fn multi_polled_as<P>(
    before: Map<OpKey, StateView<P>>,
    key: OpKey,
    current: Waker,
    after: Map<OpKey, StateView<P>>,
    polled: Poll<Option<Completion>>,
) -> bool {
    let multishot = before[key]->Multishot_0;
    if multishot.phase is Cancelled {
        &&& polled == Poll::Ready(None::<Completion>)
        &&& after == before
    } else if multishot.pending.len() > 0 {
        &&& polled == Poll::Ready(Some(multishot.pending[0]))
        &&& after == before.insert(
            key,
            StateView::Multishot(MultishotView { pending: multishot.pending.drop_first(), ..multishot }),
        )
    } else if multishot.phase is Finished {
        &&& polled == Poll::Ready(None::<Completion>)
        &&& after == before.remove(key)
    } else {
        &&& polled == Poll::<Option<Completion>>::Pending
        &&& after == before.insert(
            key,
            StateView::Multishot(MultishotView { waker: Some(current), ..multishot }),
        )
    }
}

/// The resources that the shutdown of these operations gives back, in order.
pub open spec fn shutdown_discards<P>(ops: Map<OpKey, StateView<P>>, keys: Seq<OpKey>) -> Seq<Discarded>
    decreases keys.len(),
{
    if keys.len() == 0 {
        Seq::empty()
    } else {
        shutdown_discards(ops, keys.drop_last()) + ops[keys.last()].spec_shutdown_discards()
    }
}

/// Choosing from a sequence element by element.
proof fn lemma_filtered_push(
    all: Seq<OpKey>,
    next: int,
    chosen: Seq<OpKey>,
    after: Seq<OpKey>,
    wanted: spec_fn(OpKey) -> bool,
)
    requires
        0 <= next < all.len(),
        crate::driver::op_table::slots_ascend(all),
        crate::driver::op_table::slots_ascend(chosen),
        forall|i: int, j: int|
            0 <= i < chosen.len() && next <= j < all.len() ==> (#[trigger] chosen[i]).spec_slot() < (
            #[trigger] all[j]).spec_slot(),
        forall|key: OpKey| #[trigger]
            chosen.contains(key) <==> all.subrange(0, next).contains(key) && wanted(key),
        after == (if wanted(all[next]) {
            chosen.push(all[next])
        } else {
            chosen
        }),
    ensures
        crate::driver::op_table::slots_ascend(after),
        forall|i: int, j: int|
            0 <= i < after.len() && next + 1 <= j < all.len() ==> (#[trigger] after[i]).spec_slot() < (
            #[trigger] all[j]).spec_slot(),
        forall|key: OpKey| #[trigger]
            after.contains(key) <==> all.subrange(0, next + 1).contains(key) && wanted(key),
{
    let taken = all.subrange(0, next);
    assert(all.subrange(0, next + 1) =~= taken.push(all[next]));
    assert forall|key: OpKey| #[trigger] after.contains(key) <==> taken.push(all[next]).contains(key)
        && wanted(key) by {
        assert(taken.push(all[next]).last() == all[next]);
        if taken.contains(key) {
            let i = choose|i: int| 0 <= i < taken.len() && taken[i] == key;
            assert(taken.push(all[next])[i] == key);
        }
        if chosen.contains(key) {
            let i = choose|i: int| 0 <= i < chosen.len() && chosen[i] == key;
            assert(after[i] == key);
        }
        if wanted(all[next]) {
            assert(after.last() == all[next]);
        }
        if after.contains(key) {
            let i = choose|i: int| 0 <= i < after.len() && after[i] == key;
            if i < chosen.len() {
                assert(chosen[i] == key);
                assert(chosen.contains(key));
            }
        }
        if taken.push(all[next]).contains(key) && key != all[next] {
            let i = choose|i: int| 0 <= i < taken.push(all[next]).len() && taken.push(all[next])[i] == key;
            assert(taken[i] == key);
            assert(taken.contains(key));
        }
    }
}

/// Whether a completion queue entry is about the operation under `key`.
pub open spec fn is_about(cqe: Cqe, key: OpKey) -> bool {
    CompletionKey::spec_decode(cqe.user_data) == Some(CompletionKey::Operation(key))
}

impl<P> DispatchView<P> {
    /// Entries about other operations leave an operation alone.
    proof fn lemma_others_are_left_alone(self, batch: Seq<Cqe>, shutting_down: bool, key: OpKey)
        requires
            self.ops.contains_key(key),
            forall|i: int| 0 <= i < batch.len() ==> !is_about(#[trigger] batch[i], key),
        ensures
            self.spec_steps(batch, shutting_down).ops.contains_key(key),
            self.spec_steps(batch, shutting_down).ops[key] == self.ops[key],
        decreases batch.len(),
    {
        if batch.len() > 0 {
            let earlier = batch.drop_last();
            assert forall|i: int| 0 <= i < earlier.len() implies !is_about(#[trigger] earlier[i], key) by {
                assert(earlier[i] == batch[i]);
            }
            self.lemma_others_are_left_alone(earlier, shutting_down, key);
            assert(!is_about(batch[batch.len() - 1], key));
        }
    }

    /// The future of an operation gets what the kernel reported first of it,
    /// and a task that waits for it is woken, whatever else the kernel reports
    /// in the same batch. The slot is free then.
    pub proof fn law_future_gets_the_first_completion(
        self,
        batch: Seq<Cqe>,
        shutting_down: bool,
        key: OpKey,
        first: int,
        current: Waker,
        same: bool,
        after: Map<OpKey, StateView<P>>,
        polled: Poll<Completion>,
    )
        requires
            self.ops.contains_key(key),
            self.ops[key] is Oneshot,
            self.ops[key]->Oneshot_0.listener() is Nobody || self.ops[key]->Oneshot_0.listener() is Task,
            0 <= first < batch.len(),
            is_about(batch[first], key),
            forall|i: int| 0 <= i < first ==> !is_about(#[trigger] batch[i], key),
            polled_as(self.spec_steps(batch, shutting_down).ops, key, current, same, after, polled),
        ensures
            polled == Poll::Ready(batch[first].spec_completion()),
            polled matches Poll::Ready(completion) && reported_by(batch[first], completion),
            after == self.spec_steps(batch, shutting_down).ops.remove(key),
            self.ops[key]->Oneshot_0.listener() matches Listener::Task(waker) ==> self.spec_steps(
                batch,
                shutting_down,
            ).deferred.contains(DeferredAction::Wake(waker)),
    {
        self.lemma_first_completion_stays(batch, shutting_down, key, first);
    }

    proof fn lemma_first_completion_stays(self, batch: Seq<Cqe>, shutting_down: bool, key: OpKey, first: int)
        requires
            self.ops.contains_key(key),
            self.ops[key] is Oneshot,
            self.ops[key]->Oneshot_0.listener() is Nobody || self.ops[key]->Oneshot_0.listener() is Task,
            0 <= first < batch.len(),
            is_about(batch[first], key),
            forall|i: int| 0 <= i < first ==> !is_about(#[trigger] batch[i], key),
        ensures
            self.spec_steps(batch, shutting_down).ops.contains_key(key),
            self.spec_steps(batch, shutting_down).ops[key] == StateView::<P>::Oneshot(
                OneshotState::Completed(batch[first].spec_completion()),
            ),
            self.ops[key]->Oneshot_0.listener() matches Listener::Task(waker) ==> self.spec_steps(
                batch,
                shutting_down,
            ).deferred.contains(DeferredAction::Wake(waker)),
        decreases batch.len(),
    {
        let earlier = batch.drop_last();
        let before = self.spec_steps(earlier, shutting_down);
        let after = self.spec_steps(batch, shutting_down);
        assert forall|i: int| 0 <= i < first implies !is_about(#[trigger] earlier[i], key) by {
            assert(earlier[i] == batch[i]);
        }
        if first == batch.len() - 1 {
            self.lemma_others_are_left_alone(earlier, shutting_down, key);
            if let Listener::Task(waker) = self.ops[key]->Oneshot_0.listener() {
                assert(after.deferred == before.deferred + seq![DeferredAction::<P>::Wake(waker)]);
                assert(after.deferred[before.deferred.len() as int] == DeferredAction::<P>::Wake(waker));
            }
        } else {
            assert(earlier[first] == batch[first]);
            self.lemma_first_completion_stays(earlier, shutting_down, key, first);
            if let Listener::Task(waker) = self.ops[key]->Oneshot_0.listener() {
                let wake = DeferredAction::<P>::Wake(waker);
                let i = choose|i: int| 0 <= i < before.deferred.len() && before.deferred[i] == wake;
                assert(after.deferred[i] == wake);
            }
        }
    }
}

/// One event in the life of a stream.
pub enum StreamEvent {
    /// The kernel completed an item, and says whether more follow.
    Pushed(Completion, bool),
    /// The stream was asked for its next item and had this one.
    Taken(Completion),
    /// The stream was asked for its next item and had none.
    Awaited(Waker),
}

impl<P> MultishotView<P> {
    /// What an event does to a stream that was not dropped.
    pub open spec fn happened(self, event: StreamEvent, after: MultishotView<P>) -> bool {
        &&& !(self.phase is Cancelled)
        &&& match event {
            StreamEvent::Pushed(completion, more) => after == self.spec_push(completion, more),
            StreamEvent::Taken(completion) => {
                &&& self.pending.len() > 0
                &&& completion == self.pending[0]
                &&& after == (MultishotView { pending: self.pending.drop_first(), ..self })
            },
            StreamEvent::Awaited(waker) => {
                &&& self.pending.len() == 0
                &&& !(self.phase is Finished)
                &&& after == (MultishotView { waker: Some(waker), ..self })
            },
        }
    }

    /// What an event adds to the queue of a stream: a completed item, or in the
    /// place of the first that is too many the error that ends the stream.
    /// Nothing is added after that.
    pub open spec fn spec_queued(self, event: StreamEvent) -> Seq<Completion> {
        match event {
            StreamEvent::Pushed(completion, _) => if !(self.phase is Active) {
                Seq::empty()
            } else if self.is_full() {
                seq![limit_reached()]
            } else {
                seq![completion]
            },
            _ => Seq::empty(),
        }
    }

    /// The items of a stream come in the order in which the kernel completed
    /// them, each once, and what was not taken yet is still queued. A limited
    /// stream that falls behind ends with the error that says so, and nothing
    /// follows it.
    pub proof fn law_items_come_in_order(states: Seq<MultishotView<P>>, events: Seq<StreamEvent>)
        requires
            states.len() == events.len() + 1,
            forall|i: int| 0 <= i < events.len() ==> states[i].happened(#[trigger] events[i], states[i + 1]),
        ensures
            items_taken(events) + states.last().pending == states[0].pending + items_queued(states, events),
            !(states.last().phase is Cancelled) || events.len() == 0,
            forall|i: int|
                0 <= i < events.len() && states[i].is_full() && (#[trigger] events[i]) is Pushed ==> {
                    &&& !(states.last().phase is Active)
                    &&& items_queued(states, events).len() > 0
                    &&& items_queued(states, events).last() == limit_reached()
                },
        decreases events.len(),
    {
        let queued = items_queued(states, events);
        if events.len() == 0 {
            assert(items_taken(events) + states.last().pending =~= states[0].pending + queued);
        } else {
            let last = events.len() - 1;
            let earlier = events.drop_last();
            let before = states.drop_last();
            assert forall|i: int| 0 <= i < earlier.len() implies before[i].happened(
                #[trigger] earlier[i],
                before[i + 1],
            ) by {
                assert(states[i].happened(events[i], states[i + 1]));
            }
            Self::law_items_come_in_order(before, earlier);
            assert(before.last() == states[last]);
            assert(states.last() == states[last + 1]);
            assert(states[last].happened(events[last], states[last + 1]));
            let held = states[last].pending;
            let added = states[last].spec_queued(events[last]);
            assert(queued =~= items_queued(before, earlier) + added);
            match events.last() {
                StreamEvent::Pushed(completion, _) => {
                    assert(states.last().pending =~= held + added);
                    assert(items_taken(events) + (held + added) =~= (items_taken(earlier) + held) + added);
                    assert((states[0].pending + items_queued(before, earlier)) + added =~= states[0].pending
                        + queued);
                },
                StreamEvent::Taken(completion) => {
                    assert(items_taken(events) + held.drop_first() =~= items_taken(earlier) + held);
                    assert(queued =~= items_queued(before, earlier));
                },
                StreamEvent::Awaited(_) => {
                    assert(queued =~= items_queued(before, earlier));
                },
            }
            assert forall|i: int|
                0 <= i < events.len() && states[i].is_full() && (#[trigger] events[i]) is Pushed implies {
                &&& !(states.last().phase is Active)
                &&& queued.len() > 0
                &&& queued.last() == limit_reached()
            } by {
                if i < last {
                    assert(earlier[i] == events[i]);
                    assert(before[i] == states[i]);
                    assert(added =~= Seq::<Completion>::empty());
                    assert(queued =~= items_queued(before, earlier));
                }
            }
        }
    }

    /// As long as a stream keeps up, what is queued are the items themselves.
    pub proof fn law_nothing_is_left_out(states: Seq<MultishotView<P>>, events: Seq<StreamEvent>)
        requires
            states.len() == events.len() + 1,
            forall|i: int|
                0 <= i < events.len() && (#[trigger] events[i]) is Pushed ==> states[i].phase is Active
                    && !states[i].is_full(),
        ensures
            items_queued(states, events) == items_pushed(events),
        decreases events.len(),
    {
        if events.len() > 0 {
            let last = events.len() - 1;
            let earlier = events.drop_last();
            let before = states.drop_last();
            assert forall|i: int| 0 <= i < earlier.len() && (#[trigger] earlier[i]) is Pushed implies before[i].phase is Active
                && !before[i].is_full() by {
                assert(events[i] == earlier[i]);
            }
            Self::law_nothing_is_left_out(before, earlier);
            assert(events[last] is Pushed ==> states[last].phase is Active && !states[last].is_full());
            assert(items_queued(states, events) =~= items_pushed(events));
        }
    }
}

/// What was added to the queue of a stream, in order.
pub open spec fn items_queued<P>(states: Seq<MultishotView<P>>, events: Seq<StreamEvent>) -> Seq<Completion>
    decreases events.len(),
{
    if events.len() == 0 {
        Seq::empty()
    } else {
        items_queued(states.drop_last(), events.drop_last()) + states[events.len() - 1].spec_queued(events.last())
    }
}

/// The items that the kernel completed, in order.
pub open spec fn items_pushed(events: Seq<StreamEvent>) -> Seq<Completion>
    decreases events.len(),
{
    if events.len() == 0 {
        Seq::empty()
    } else {
        match events.last() {
            StreamEvent::Pushed(completion, _) => items_pushed(events.drop_last()).push(completion),
            _ => items_pushed(events.drop_last()),
        }
    }
}

/// The items that were taken from a stream, in order.
pub open spec fn items_taken(events: Seq<StreamEvent>) -> Seq<Completion>
    decreases events.len(),
{
    if events.len() == 0 {
        Seq::empty()
    } else {
        match events.last() {
            StreamEvent::Taken(completion) => items_taken(events.drop_last()).push(completion),
            _ => items_taken(events.drop_last()),
        }
    }
}

/// One event at the end of a ring.
pub enum EndEvent {
    /// The next step was taken.
    Stepped { flushed: bool, action: ShutdownAction },
    /// The cancel request of an operation was pushed.
    CancelPushed(OpKey),
    /// The kernel reported these completions.
    Reported(Seq<Cqe>),
}

/// What an event does at the end of a ring.
pub open spec fn end_event<P>(
    before: (IoUringBackend<P>, ShutdownStage),
    event: EndEvent,
    after: (IoUringBackend<P>, ShutdownStage),
) -> bool {
    match event {
        EndEvent::Stepped { flushed, action } => shutdown_stepped(
            &before.0,
            before.1,
            flushed,
            &after.0,
            (after.1, action),
        ),
        EndEvent::CancelPushed(key) => {
            &&& after.1 == before.1
            &&& after.0.spec_ops() == with_cancel_pushed(before.0.spec_ops(), key)
        },
        EndEvent::Reported(batch) => {
            &&& after.1 == before.1
            &&& after.0.spec_ops() == before.0.spec_dispatch_start().spec_steps(
                batch,
                before.0.spec_shutting_down(),
            ).ops
        },
    }
}

impl<P> DispatchView<P> {
    /// The deferred work that the entries of a batch about one operation bring.
    pub open spec fn spec_work_for(self, batch: Seq<Cqe>, shutting_down: bool, key: OpKey) -> Seq<DeferredAction<P>>
        decreases batch.len(),
    {
        if batch.len() == 0 {
            Seq::empty()
        } else {
            let earlier = self.spec_work_for(batch.drop_last(), shutting_down, key);
            if is_about(batch.last(), key) {
                let before = self.spec_steps(batch.drop_last(), shutting_down);
                let after = before.spec_step(batch.last(), shutting_down);
                earlier + after.deferred.skip(before.deferred.len() as int)
            } else {
                earlier
            }
        }
    }

    /// Whether the payload of an operation waits for its completion.
    pub open spec fn spec_left_behind(self, key: OpKey, payload: IgnoredOp<P>) -> bool {
        &&& self.ops.contains_key(key)
        &&& self.ops[key] is Oneshot
        &&& self.ops[key]->Oneshot_0.listener() == Listener::Payload(payload)
    }

    /// Entries about other operations bring no work for an operation.
    proof fn lemma_others_bring_no_work(self, batch: Seq<Cqe>, shutting_down: bool, key: OpKey)
        requires
            forall|i: int| 0 <= i < batch.len() ==> !is_about(#[trigger] batch[i], key),
        ensures
            self.spec_work_for(batch, shutting_down, key) == Seq::<DeferredAction<P>>::empty(),
        decreases batch.len(),
    {
        if batch.len() > 0 {
            let earlier = batch.drop_last();
            assert forall|i: int| 0 <= i < earlier.len() implies !is_about(#[trigger] earlier[i], key) by {
                assert(earlier[i] == batch[i]);
            }
            self.lemma_others_bring_no_work(earlier, shutting_down, key);
            assert(!is_about(batch[batch.len() - 1], key));
        }
    }

    /// What is gone stays gone, and brings no work.
    proof fn lemma_gone_stays_gone(self, batch: Seq<Cqe>, shutting_down: bool, key: OpKey)
        requires
            !self.ops.contains_key(key),
        ensures
            !self.spec_steps(batch, shutting_down).ops.contains_key(key),
            self.spec_work_for(batch, shutting_down, key) == Seq::<DeferredAction<P>>::empty(),
        decreases batch.len(),
    {
        if batch.len() > 0 {
            self.lemma_gone_stays_gone(batch.drop_last(), shutting_down, key);
            let before = self.spec_steps(batch.drop_last(), shutting_down);
            if is_about(batch.last(), key) {
                assert(before.deferred.skip(before.deferred.len() as int) =~= Seq::<DeferredAction<P>>::empty());
            }
        }
    }

    /// A payload that waits is cleaned up once, with the first completion that
    /// is reported of its operation.
    proof fn lemma_payload_is_cleaned_up(
        self,
        batch: Seq<Cqe>,
        shutting_down: bool,
        key: OpKey,
        payload: IgnoredOp<P>,
        first: int,
    )
        requires
            self.spec_left_behind(key, payload),
            0 <= first < batch.len(),
            is_about(batch[first], key),
            forall|i: int| 0 <= i < first ==> !is_about(#[trigger] batch[i], key),
        ensures
            !self.spec_steps(batch, shutting_down).ops.contains_key(key),
            self.spec_work_for(batch, shutting_down, key) == seq![
                DeferredAction::Cleanup { payload, completion: batch[first].spec_completion() },
            ],
        decreases batch.len(),
    {
        let earlier = batch.drop_last();
        let before = self.spec_steps(earlier, shutting_down);
        let cleanup = DeferredAction::Cleanup { payload, completion: batch[first].spec_completion() };
        assert forall|i: int| 0 <= i < first implies !is_about(#[trigger] earlier[i], key) by {
            assert(earlier[i] == batch[i]);
        }
        if first == batch.len() - 1 {
            self.lemma_others_are_left_alone(earlier, shutting_down, key);
            self.lemma_others_bring_no_work(earlier, shutting_down, key);
            let after = before.spec_step(batch.last(), shutting_down);
            assert(after.deferred =~= before.deferred.push(cleanup));
            assert(after.deferred.skip(before.deferred.len() as int) =~= seq![cleanup]);
            assert(self.spec_work_for(batch, shutting_down, key) =~= seq![cleanup]);
        } else {
            assert(earlier[first] == batch[first]);
            self.lemma_payload_is_cleaned_up(earlier, shutting_down, key, payload, first);
            if is_about(batch.last(), key) {
                assert(before.deferred.skip(before.deferred.len() as int) =~= Seq::<DeferredAction<P>>::empty());
                assert(self.spec_work_for(batch, shutting_down, key) =~= seq![cleanup]);
            }
        }
    }
}

/// The deferred work that all reports about one operation bring.
pub open spec fn work_of_run<P>(
    states: Seq<(IoUringBackend<P>, ShutdownStage)>,
    events: Seq<EndEvent>,
    key: OpKey,
) -> Seq<DeferredAction<P>>
    decreases events.len(),
{
    if events.len() == 0 {
        Seq::empty()
    } else {
        let earlier = work_of_run(states.drop_last(), events.drop_last(), key);
        match events.last() {
            EndEvent::Reported(batch) => {
                let backend = states[events.len() - 1].0;
                earlier + backend.spec_dispatch_start().spec_work_for(batch, backend.spec_shutting_down(), key)
            },
            _ => earlier,
        }
    }
}

/// Whether nothing was reported of an operation.
pub open spec fn unreported(events: Seq<EndEvent>, key: OpKey) -> bool {
    forall|i: int, j: int|
        #![trigger events[i]->Reported_0[j]]
        0 <= i < events.len() && events[i] is Reported && 0 <= j < events[i]->Reported_0.len() ==> !is_about(
            events[i]->Reported_0[j],
            key,
        )
}

/// Whether this is the first that was reported of an operation.
pub open spec fn first_report(events: Seq<EndEvent>, event: int, entry: int, key: OpKey) -> bool {
    &&& 0 <= event < events.len()
    &&& events[event] is Reported
    &&& 0 <= entry < events[event]->Reported_0.len()
    &&& is_about(events[event]->Reported_0[entry], key)
    &&& forall|j: int| 0 <= j < entry ==> !is_about(#[trigger] events[event]->Reported_0[j], key)
    &&& unreported(events.take(event), key)
}

/// How far a payload has come that was left behind before the end of a ring.
proof fn lemma_payload_of_run<P>(
    states: Seq<(IoUringBackend<P>, ShutdownStage)>,
    events: Seq<EndEvent>,
    key: OpKey,
    payload: IgnoredOp<P>,
)
    requires
        states.len() == events.len() + 1,
        states[0].0.spec_dispatch_start().spec_left_behind(key, payload),
        forall|i: int| 0 <= i < events.len() ==> end_event(states[i], #[trigger] events[i], states[i + 1]),
    ensures
        ({
            ||| {
                &&& states.last().0.spec_dispatch_start().spec_left_behind(key, payload)
                &&& work_of_run(states, events, key) == Seq::<DeferredAction<P>>::empty()
                &&& unreported(events, key)
            }
            ||| {
                &&& !states.last().0.spec_ops().contains_key(key)
                &&& exists|event: int, entry: int| #[trigger]
                    first_report(events, event, entry, key) && work_of_run(states, events, key) == seq![
                        DeferredAction::Cleanup {
                            payload,
                            completion: events[event]->Reported_0[entry].spec_completion(),
                        },
                    ]
            }
        }),
    decreases events.len(),
{
    if events.len() > 0 {
        let last = events.len() - 1;
        let earlier = events.drop_last();
        let before = states.drop_last();
        assert forall|i: int| 0 <= i < earlier.len() implies end_event(
            before[i],
            #[trigger] earlier[i],
            before[i + 1],
        ) by {
            assert(end_event(states[i], events[i], states[i + 1]));
        }
        lemma_payload_of_run(before, earlier, key, payload);
        assert(before.last() == states[last]);
        assert(end_event(states[last], events[last], states[last + 1]));
        let view = states[last].0.spec_dispatch_start();
        let shutting_down = states[last].0.spec_shutting_down();
        if view.spec_left_behind(key, payload) && unreported(earlier, key) {
            match events.last() {
                EndEvent::Reported(batch) => {
                    if exists|j: int| 0 <= j < batch.len() && is_about(#[trigger] batch[j], key) {
                        let first = lemma_first_about(batch, key);
                        view.lemma_payload_is_cleaned_up(batch, shutting_down, key, payload, first);
                        assert(events.take(last) =~= earlier);
                        assert(first_report(events, last, first, key));
                        assert(work_of_run(states, events, key) =~= seq![
                            DeferredAction::Cleanup {
                                payload,
                                completion: events[last]->Reported_0[first].spec_completion(),
                            },
                        ]);
                    } else {
                        view.lemma_others_are_left_alone(batch, shutting_down, key);
                        view.lemma_others_bring_no_work(batch, shutting_down, key);
                        lemma_still_unreported(events, key);
                        assert(work_of_run(states, events, key) =~= Seq::<DeferredAction<P>>::empty());
                    }
                },
                _ => {
                    assert(states[last].0.spec_ops().contains_key(key));
                    assert(states[last].0.spec_ops()[key].awaits_completion());
                    lemma_still_unreported(events, key);
                },
            }
        } else {
            let (event, entry) = choose|event: int, entry: int| #[trigger]
                first_report(earlier, event, entry, key) && work_of_run(before, earlier, key) == seq![
                    DeferredAction::Cleanup {
                        payload,
                        completion: earlier[event]->Reported_0[entry].spec_completion(),
                    },
                ];
            assert(events.take(event) =~= earlier.take(event));
            assert(events[event] == earlier[event]);
            assert(first_report(events, event, entry, key)) by {
                assert forall|j: int| 0 <= j < entry implies !is_about(#[trigger] events[event]->Reported_0[j], key) by {
                    assert(!is_about(earlier[event]->Reported_0[j], key));
                }
            }
            if let EndEvent::Reported(batch) = events.last() {
                view.lemma_gone_stays_gone(batch, shutting_down, key);
                assert(work_of_run(states, events, key) =~= work_of_run(before, earlier, key));
            }
        }
    }
}

/// The first entry of a batch that is about an operation.
proof fn lemma_first_about(batch: Seq<Cqe>, key: OpKey) -> (first: int)
    requires
        exists|j: int| 0 <= j < batch.len() && is_about(#[trigger] batch[j], key),
    ensures
        0 <= first < batch.len(),
        is_about(batch[first], key),
        forall|i: int| 0 <= i < first ==> !is_about(#[trigger] batch[i], key),
    decreases batch.len(),
{
    let earlier = batch.drop_last();
    if exists|j: int| 0 <= j < earlier.len() && is_about(#[trigger] earlier[j], key) {
        let first = lemma_first_about(earlier, key);
        assert(earlier[first] == batch[first]);
        assert forall|i: int| 0 <= i < first implies !is_about(#[trigger] batch[i], key) by {
            assert(earlier[i] == batch[i]);
        }
        first
    } else {
        let j = choose|j: int| 0 <= j < batch.len() && is_about(#[trigger] batch[j], key);
        assert forall|i: int| 0 <= i < batch.len() - 1 implies !is_about(#[trigger] batch[i], key) by {
            assert(earlier[i] == batch[i]);
        }
        assert(j == batch.len() - 1);
        batch.len() - 1
    }
}

/// Nothing is reported of an operation by an event that does not name it.
proof fn lemma_still_unreported(events: Seq<EndEvent>, key: OpKey)
    requires
        events.len() > 0,
        unreported(events.drop_last(), key),
        events.last() is Reported ==> forall|j: int|
            0 <= j < events.last()->Reported_0.len() ==> !is_about(#[trigger] events.last()->Reported_0[j], key),
    ensures
        unreported(events, key),
{
    let earlier = events.drop_last();
    assert forall|i: int, j: int|
        #![trigger events[i]->Reported_0[j]]
        0 <= i < events.len() && events[i] is Reported && 0 <= j < events[i]->Reported_0.len() implies !is_about(
        events[i]->Reported_0[j],
        key,
    ) by {
        if i < events.len() - 1 {
            assert(earlier[i] == events[i]);
            assert(!is_about(earlier[i]->Reported_0[j], key));
        } else {
            assert(events[i] == events.last());
            assert(!is_about(events.last()->Reported_0[j], key));
        }
    }
}

/// A payload that was left behind before the end of a ring is cleaned up once,
/// with the first completion that the kernel reports of its operation, before
/// the provided buffer pool is released.
pub proof fn law_payloads_are_cleaned_up_before_the_pool_is_released<P>(
    states: Seq<(IoUringBackend<P>, ShutdownStage)>,
    events: Seq<EndEvent>,
    key: OpKey,
    payload: IgnoredOp<P>,
)
    requires
        states.len() == events.len() + 1,
        events.len() > 0,
        states[0].0.spec_dispatch_start().spec_left_behind(key, payload),
        forall|i: int| 0 <= i < events.len() ==> end_event(states[i], #[trigger] events[i], states[i + 1]),
        events.last() matches EndEvent::Stepped { action, .. } && action is ReleasePool,
    ensures
        states.last().0.spec_ops() == Map::<OpKey, StateView<P>>::empty(),
        exists|event: int, entry: int| #[trigger]
            first_report(events.drop_last(), event, entry, key) && work_of_run(states, events, key) == seq![
                DeferredAction::Cleanup {
                    payload,
                    completion: events[event]->Reported_0[entry].spec_completion(),
                },
            ],
{
    let last = events.len() - 1;
    let earlier = events.drop_last();
    let before = states.drop_last();
    assert forall|i: int| 0 <= i < earlier.len() implies end_event(before[i], #[trigger] earlier[i], before[i + 1]) by {
        assert(end_event(states[i], events[i], states[i + 1]));
    }
    lemma_payload_of_run(before, earlier, key, payload);
    assert(before.last() == states[last]);
    assert(end_event(states[last], events[last], states[last + 1]));
    assert(states.last() == states[last + 1]);
    if states[last].0.spec_dispatch_start().spec_left_behind(key, payload) {
        assert(states[last].0.spec_ops().contains_key(key));
        assert(states[last].0.spec_ops()[key].awaits_completion());
    }
    let (event, entry) = choose|event: int, entry: int| #[trigger]
        first_report(earlier, event, entry, key) && work_of_run(before, earlier, key) == seq![
            DeferredAction::Cleanup {
                payload,
                completion: earlier[event]->Reported_0[entry].spec_completion(),
            },
        ];
    assert(earlier[event] == events[event]);
}

/// Whether a completion says what a completion queue entry says: a count or an
/// error number, and the flags.
pub open spec fn reported_by(cqe: Cqe, completion: Completion) -> bool {
    &&& completion.flags == cqe.flags
    &&& completion.result matches Ok(n) ==> n == cqe.result
    &&& completion.result matches Err(error) ==> cqe.result < 0 && (cqe.result > i32::MIN ==> error == IoError::Os(
        (0 - cqe.result) as i32,
    ))
}

impl Cqe {
    /// What the kernel writes into a completion queue entry is what its completion
    /// says: a result of zero or more is a success with that number, a negative one
    /// is the failure with the negated number, and the flags are the same.
    pub proof fn law_completion_says_what_the_entry_says(self, completion: Completion)
        requires
            call_ensures(Cqe::completion, (&self,), completion),
        ensures
            reported_by(self, completion),
            completion.flags == self.flags,
            self.result >= 0 ==> completion.result == Ok::<u32, IoError>(self.result as u32),
            i32::MIN < self.result < 0 ==> completion.result == Err::<u32, IoError>(
                IoError::Os((0 - self.result) as i32),
            ),
            self.result == i32::MIN ==> completion.result is Err,
            completion == self.spec_completion(),
    {
    }
}

impl MultishotCleanup {
    /// What a completion owns that nobody will receive is given back: a descriptor
    /// is closed, and a buffer goes back to the group it is from. Nothing else is
    /// given back.
    pub proof fn law_undelivered_completion_gives_back(self, completion: Completion)
        ensures
            self is Nothing ==> self.spec_discard(completion).len() == 0,
            self is AcceptedFd ==> match completion.result {
                Ok(fd) => self.spec_discard(completion) == seq![Discarded::CloseFd(fd as i32)],
                Err(_) => self.spec_discard(completion).len() == 0,
            },
            self matches MultishotCleanup::ProvidedBuffer(group) ==> if completion.flags & 1 != 0 {
                self.spec_discard(completion) == seq![
                    Discarded::RecycleBuffer { group, buffer_id: (completion.flags >> 16) as u16 },
                ]
            } else {
                self.spec_discard(completion).len() == 0
            },
    {
    }

    /// Giving up on a queue gives up on each of its completions, in order.
    pub proof fn law_every_queued_completion_is_given_up(self, pending: Seq<Completion>, i: int)
        requires
            0 <= i < pending.len(),
        ensures
            self.spec_discard_all(pending) == self.spec_discard_all(pending.take(i)) + self.spec_discard(pending[i])
                + self.spec_discard_all(pending.skip(i + 1)),
        decreases pending.len(),
    {
        let rest = pending.drop_first();
        let none = Seq::<Discarded>::empty();
        if i == 0 {
            assert(pending.take(0) =~= Seq::<Completion>::empty());
            assert(pending.skip(1) =~= rest);
            assert(none + self.spec_discard(pending[0]) =~= self.spec_discard(pending[0]));
        } else {
            self.law_every_queued_completion_is_given_up(rest, i - 1);
            assert(pending.take(i).drop_first() =~= rest.take(i - 1));
            assert(pending.take(i)[0] == pending[0]);
            assert(pending.skip(i + 1) =~= rest.skip(i));
            assert(rest[i - 1] == pending[i]);
            assert(self.spec_discard_all(pending) =~= self.spec_discard_all(pending.take(i)) + self.spec_discard(
                pending[i],
            ) + self.spec_discard_all(pending.skip(i + 1)));
        }
    }
}

impl<P> OneshotState<P> {
    /// A task that polls is remembered: with its own waker, unless the one that it
    /// left before wakes it already. The request to cancel stays as it was.
    pub proof fn law_polling_task_listens(self, current: Waker, same: bool)
        ensures
            self is Submitted || (self matches OneshotState::Canceling { observer: CancelObserver::Pending, .. })
                ==> self.spec_observe(current, same).listener() == Listener::<P>::Task(current),
            self.listener() matches Listener::Task(waker) ==> self.spec_observe(current, same).listener() == Listener::<
                P,
            >::Task(
                if same {
                    waker
                } else {
                    current
                },
            ),
            self.spec_observe(current, same).wants_cancel() == self.wants_cancel(),
            self.listener() is Payload || self.listener() is Done ==> self.spec_observe(current, same) == self,
    {
    }

    /// Whoever is to hear of a completion is the one that was left to wait: the
    /// task of a waiting operation, the payload of one whose future is gone, and
    /// nobody of one that is new or over.
    pub proof fn law_who_hears_of_the_completion(self, completion: Completion)
        ensures
            self is Submitted ==> self.spec_completed(completion) == (Completed::<P> {
                remove: false,
                wake: None,
                cleanup: None,
            }),
            self matches OneshotState::Waiting(waker) ==> self.spec_completed(completion) == (Completed::<P> {
                remove: false,
                wake: Some(waker),
                cleanup: None,
            }),
            self matches OneshotState::Canceling { observer: CancelObserver::Waiting(waker), .. }
                ==> self.spec_completed(completion).wake == Some(waker),
            self matches OneshotState::Detached(payload) ==> self.spec_completed(completion) == (Completed::<P> {
                remove: true,
                wake: None,
                cleanup: Some(DeferredAction::Cleanup { payload, completion }),
            }),
            self matches OneshotState::Canceling { observer: CancelObserver::Detached(payload), .. }
                ==> self.spec_completed(completion) == (Completed::<P> {
                remove: true,
                wake: None,
                cleanup: Some(DeferredAction::Cleanup { payload, completion }),
            }),
            !(self is Completed) && !(self is Detached) && !(self matches OneshotState::Canceling {
                observer: CancelObserver::Detached(_),
                ..
            }) ==> self.spec_complete(completion) == OneshotState::<P>::Completed(completion),
    {
    }

    /// A request to cancel an operation that is not over has to be pushed, and is
    /// owed until it was pushed. One that is over has nothing to cancel and keeps
    /// its completion.
    pub proof fn law_cancel_is_owed_until_pushed(self)
        ensures
            self is Submitted || self is Waiting || self is Detached ==> {
                &&& self.wants_cancel()
                &&& StateView::Oneshot(self.spec_request_cancel()).spec_needs_cancel_push()
            },
            StateView::Oneshot(self.spec_request_cancel()).spec_needs_cancel_push()
                == self.spec_request_cancel().wants_cancel(),
            !StateView::Oneshot(self.spec_request_cancel().spec_cancel_in_flight()).spec_needs_cancel_push(),
            self is Completed ==> !self.wants_cancel() && self.spec_request_cancel() == self,
            !(self is Completed) ==> self.spec_request_cancel() is Canceling,
    {
    }

    /// An operation whose future is dropped is left to its payload, which hears of
    /// the completion in the future's place. The request to cancel stays as it was.
    pub proof fn law_dropped_future_leaves_its_payload(self, payload: P, completion: Completion)
        requires
            self.listener() is Nobody || self.listener() is Task,
        ensures
            self.spec_detach(payload).listener() == Listener::Payload(IgnoredOp::Typed(payload)),
            self.spec_detach(payload).spec_completed(completion) == (Completed {
                remove: true,
                wake: None,
                cleanup: Some(DeferredAction::Cleanup { payload: IgnoredOp::Typed(payload), completion }),
            }),
            self is Canceling ==> self.spec_detach(payload).wants_cancel() == self.wants_cancel(),
    {
    }
}

impl<P> MultishotView<P> {
    /// The task that awaits a stream is woken by whatever the kernel reports of
    /// it, an item, the last item or one too many, and then no longer registered.
    pub proof fn law_every_completion_wakes_the_stream(self, completion: Completion, more: bool)
        requires
            self.phase is Active || self.phase is Stopping,
        ensures
            self.spec_pushed(completion, more).wake == self.waker,
            self.spec_push(completion, more).waker is None,
            !self.spec_pushed(completion, more).remove,
    {
    }

    /// A stream that has room takes what the kernel completed: it is queued last,
    /// nothing is given back or cancelled, and the stream ends if no more follow.
    pub proof fn law_item_is_queued_where_there_is_room(
        self,
        completion: Completion,
        more: bool,
        limit: Option<usize>,
    )
        requires
            self.phase == Phase::<P>::Active(limit),
            limit matches Some(limit) ==> self.pending.len() < limit,
        ensures
            self.spec_push(completion, more).pending == self.pending.push(completion),
            self.spec_push(completion, more).cleanup == self.cleanup,
            more ==> self.spec_push(completion, more).phase == Phase::<P>::Active(limit),
            !more ==> self.spec_push(completion, more).phase == Phase::<P>::Finished,
            self.spec_pushed(completion, more).discarded.len() == 0,
            !self.spec_pushed(completion, more).cancel,
    {
    }

    /// A stream whose queue is full stops: what came is given back, an error that
    /// says so is queued last, and the kernel is asked to stop if it would go on.
    pub proof fn law_full_stream_stops(self, completion: Completion, more: bool, limit: usize)
        requires
            self.phase == Phase::<P>::Active(Some(limit)),
            self.pending.len() >= limit,
        ensures
            self.spec_push(completion, more).pending.len() == self.pending.len() + 1,
            self.spec_push(completion, more).pending.drop_last() == self.pending,
            self.spec_push(completion, more).pending.last().result matches Err(error) && error.spec_kind()
                == ErrorKind::ResourceBusy,
            more ==> self.spec_push(completion, more).phase is Stopping,
            !more ==> self.spec_push(completion, more).phase is Finished,
            self.spec_pushed(completion, more).cancel == more,
            self.spec_pushed(completion, more).discarded == self.cleanup.spec_discard(completion),
    {
        assert(self.pending.push(limit_reached()).drop_last() =~= self.pending);
    }

    /// What comes of a stream after it stopped is given back, and the last of it
    /// ends the stream. What is queued stays.
    pub proof fn law_stopping_stream_takes_nothing_in(self, completion: Completion, more: bool)
        requires
            self.phase is Stopping,
        ensures
            self.spec_push(completion, more).pending == self.pending,
            self.spec_pushed(completion, more).discarded == self.cleanup.spec_discard(completion),
            more ==> self.spec_push(completion, more).phase is Stopping,
            !more ==> self.spec_push(completion, more).phase is Finished,
    {
    }

    /// A stream that is dropped keeps its payload and owes nothing to anybody. What
    /// comes of it later is given back, until the last of it frees the slot.
    pub proof fn law_dropped_stream_gives_everything_back(
        self,
        payload: P,
        completion: Completion,
        more: bool,
    )
        ensures
            ({
                let dropped = self.spec_cancelled(Some(payload));
                &&& dropped.phase == Phase::Cancelled(Some(payload))
                &&& dropped.pending.len() == 0
                &&& dropped.waker is None
                &&& dropped.cleanup == self.cleanup
                &&& dropped.spec_push(completion, more).phase == Phase::Cancelled(Some(payload))
                &&& dropped.spec_push(completion, more).pending.len() == 0
                &&& dropped.spec_pushed(completion, more).remove == !more
                &&& dropped.spec_pushed(completion, more).wake is None
                &&& dropped.spec_pushed(completion, more).discarded == self.cleanup.spec_discard(completion)
            }),
    {
        assert(self.cleanup.spec_discard(completion) + Seq::<Discarded>::empty() =~= self.cleanup.spec_discard(
            completion,
        ));
    }

    /// A stream that is asked for its next item hands out the item that has waited
    /// longest and keeps the others; where it has none, it ends if no more come, and
    /// remembers the task otherwise.
    pub proof fn law_stream_hands_out_its_first_item(
        self,
        before: Map<OpKey, StateView<P>>,
        key: OpKey,
        current: Waker,
        after: Map<OpKey, StateView<P>>,
        polled: Poll<Option<Completion>>,
    )
        requires
            before.contains_key(key),
            before[key] == StateView::Multishot(self),
            multi_polled_as(before, key, current, after, polled),
        ensures
            self.pending.len() > 0 && !(self.phase is Cancelled) ==> {
                &&& polled == Poll::Ready(Some(self.pending[0]))
                &&& after.contains_key(key)
                &&& after[key] matches StateView::Multishot(next) && next.pending == self.pending.skip(1)
                    && next.phase == self.phase && next.waker == self.waker && next.cleanup == self.cleanup
                    && self.happened(StreamEvent::Taken(self.pending[0]), next)
            },
            self.pending.len() == 0 && (self.phase is Active || self.phase is Stopping) ==> {
                &&& polled is Pending
                &&& after.contains_key(key)
                &&& after[key] matches StateView::Multishot(next) && next.waker == Some(current) && next.pending.len()
                    == 0 && next.phase == self.phase && next.cleanup == self.cleanup && self.happened(
                    StreamEvent::Awaited(current),
                    next,
                )
            },
            self.pending.len() == 0 && self.phase is Finished ==> polled == Poll::Ready(None::<Completion>)
                && !after.contains_key(key),
            self.phase is Cancelled ==> polled == Poll::Ready(None::<Completion>) && after == before,
            forall|other: OpKey|
                other != key ==> (#[trigger] after.contains_key(other) <==> before.contains_key(other)) && after[other]
                    == before[other],
    {
        if self.pending.len() > 0 {
            assert(self.pending.drop_first() =~= self.pending.skip(1));
        }
    }
}

impl<P> StateView<P> {
    /// The end of a ring gives back what the streams have queued, each queue whole.
    pub proof fn law_shutdown_gives_back_what_is_queued(self)
        ensures
            self matches StateView::Multishot(stream) ==> self.spec_shutdown_discards()
                == stream.cleanup.spec_discard_all(stream.pending),
            self is Oneshot ==> self.spec_shutdown_discards().len() == 0,
    {
    }

    /// The end of a ring keeps what the kernel may still use: an operation that is
    /// not over goes on to wait for its completion, with the payload that was left
    /// behind, and a completion that has arrived stays.
    pub proof fn law_shutdown_keeps_what_the_kernel_uses(self)
        ensures
            self matches StateView::Oneshot(oneshot) ==> match oneshot {
                OneshotState::Completed(_) => self.spec_shutdown() == self && !self.spec_shutdown().awaits_completion(),
                _ => self.spec_shutdown().awaits_completion(),
            },
            self matches StateView::Oneshot(oneshot) && oneshot.listener() is Payload ==> self.spec_shutdown()
                == self,
            self matches StateView::Multishot(stream) && !(stream.phase is Finished)
                ==> self.spec_shutdown().awaits_completion(),
            self matches StateView::Multishot(stream) ==> (stream.phase is Cancelled ==> (
            self.spec_shutdown() matches StateView::Multishot(after) && after.phase == stream.phase)),
            self matches StateView::Multishot(stream) ==> (stream.phase is Finished ==> (
            self.spec_shutdown() matches StateView::Oneshot(OneshotState::Completed(completion)) && completion.result
                == Ok::<u32, IoError>(0) && completion.flags == 0 && completion.blocking_value is None)),
    {
    }
}

impl<P> DispatchView<P> {
    /// Work that was put off stays put off.
    proof fn lemma_step_keeps_work(self, cqe: Cqe, shutting_down: bool)
        ensures
            self.deferred.len() <= self.spec_step(cqe, shutting_down).deferred.len(),
            forall|i: int|
                0 <= i < self.deferred.len() ==> #[trigger] self.spec_step(cqe, shutting_down).deferred[i]
                    == self.deferred[i],
            self.cancel.len() <= self.spec_step(cqe, shutting_down).cancel.len(),
            forall|i: int|
                0 <= i < self.cancel.len() ==> #[trigger] self.spec_step(cqe, shutting_down).cancel[i]
                    == self.cancel[i],
    {
    }

    /// An entry is about an operation if and only if it bears its key.
    proof fn lemma_about(cqe: Cqe, key: OpKey)
        requires
            key.spec_generation() != 0,
        ensures
            is_about(cqe, key) <==> cqe.user_data == key.spec_raw(),
    {
        CompletionKey::law_keys_name_their_operations(key, cqe.user_data);
    }

    proof fn lemma_none_about(batch: Seq<Cqe>, key: OpKey)
        requires
            key.spec_generation() != 0,
            forall|i: int| 0 <= i < batch.len() ==> (#[trigger] batch[i]).user_data != key.spec_raw(),
        ensures
            forall|i: int| 0 <= i < batch.len() ==> !is_about(#[trigger] batch[i], key),
    {
        assert forall|i: int| 0 <= i < batch.len() implies !is_about(#[trigger] batch[i], key) by {
            Self::lemma_about(batch[i], key);
        }
    }

    /// An operation that no entry bears the key of is left alone.
    pub proof fn law_other_operations_are_left_alone(self, batch: Seq<Cqe>, shutting_down: bool, key: OpKey)
        requires
            key.spec_generation() != 0,
            self.ops.contains_key(key),
            forall|i: int| 0 <= i < batch.len() ==> (#[trigger] batch[i]).user_data != key.spec_raw(),
        ensures
            self.spec_steps(batch, shutting_down).ops.contains_key(key),
            self.spec_steps(batch, shutting_down).ops[key] == self.ops[key],
    {
        Self::lemma_none_about(batch, key);
        self.lemma_others_are_left_alone(batch, shutting_down, key);
    }

    /// The task that awaits a stream is woken by any entry that bears the stream's
    /// key, wherever in a batch it is and whatever else is in the batch.
    pub proof fn law_awaited_stream_is_woken(
        self,
        batch: Seq<Cqe>,
        shutting_down: bool,
        key: OpKey,
        stream: MultishotView<P>,
        waker: Waker,
        i: int,
    )
        requires
            key.spec_generation() != 0,
            self.ops.contains_key(key),
            self.ops[key] == StateView::Multishot(stream),
            stream.phase is Active || stream.phase is Stopping,
            stream.waker == Some(waker),
            0 <= i < batch.len(),
            batch[i].user_data == key.spec_raw(),
        ensures
            self.spec_steps(batch, shutting_down).deferred.contains(DeferredAction::Wake(waker)),
        decreases batch.len(),
    {
        let earlier = batch.drop_last();
        let last = batch.len() - 1;
        let before = self.spec_steps(earlier, shutting_down);
        let after = self.spec_steps(batch, shutting_down);
        let wake = DeferredAction::<P>::Wake(waker);
        assert(after == before.spec_step(batch[last], shutting_down));
        before.lemma_step_keeps_work(batch[last], shutting_down);
        if exists|j: int| 0 <= j < earlier.len() && (#[trigger] earlier[j]).user_data == key.spec_raw() {
            let j = choose|j: int| 0 <= j < earlier.len() && (#[trigger] earlier[j]).user_data == key.spec_raw();
            self.law_awaited_stream_is_woken(earlier, shutting_down, key, stream, waker, j);
            let k = choose|k: int| 0 <= k < before.deferred.len() && before.deferred[k] == wake;
            assert(after.deferred[k] == wake);
        } else {
            if i < last {
                assert(earlier[i] == batch[i]);
            }
            self.law_other_operations_are_left_alone(earlier, shutting_down, key);
            Self::lemma_about(batch[last], key);
            assert(after.deferred[before.deferred.len() as int] == wake);
        }
    }

    /// A task that found a stream without an item is woken by the next thing that
    /// the kernel reports of it.
    pub proof fn law_task_that_awaits_a_stream_is_woken(
        self,
        key: OpKey,
        stream: MultishotView<P>,
        current: Waker,
        awaited: DispatchView<P>,
        polled: Poll<Option<Completion>>,
        batch: Seq<Cqe>,
        shutting_down: bool,
        i: int,
    )
        requires
            key.spec_generation() != 0,
            self.ops.contains_key(key),
            self.ops[key] == StateView::Multishot(stream),
            multi_polled_as(self.ops, key, current, awaited.ops, polled),
            polled is Pending,
            0 <= i < batch.len(),
            batch[i].user_data == key.spec_raw(),
        ensures
            awaited.spec_steps(batch, shutting_down).deferred.contains(DeferredAction::Wake(current)),
    {
        stream.law_stream_hands_out_its_first_item(self.ops, key, current, awaited.ops, polled);
        awaited.law_awaited_stream_is_woken(
            batch,
            shutting_down,
            key,
            awaited.ops[key]->Multishot_0,
            current,
            i,
        );
    }

    /// A task that polled an operation and was told to wait is woken by the next
    /// entry that bears the operation's key, and the future has its completion then.
    pub proof fn law_task_that_awaits_an_operation_is_woken(
        self,
        key: OpKey,
        current: Waker,
        awaited: DispatchView<P>,
        batch: Seq<Cqe>,
        shutting_down: bool,
        first: int,
    )
        requires
            key.spec_generation() != 0,
            self.ops.contains_key(key),
            self.ops[key] matches StateView::Oneshot(oneshot) && oneshot.listener() is Nobody,
            polled_as(self.ops, key, current, false, awaited.ops, Poll::Pending),
            0 <= first < batch.len(),
            batch[first].user_data == key.spec_raw(),
            forall|i: int| 0 <= i < first ==> (#[trigger] batch[i]).user_data != key.spec_raw(),
        ensures
            awaited.spec_steps(batch, shutting_down).deferred.contains(DeferredAction::Wake(current)),
            awaited.spec_steps(batch, shutting_down).ops.contains_key(key),
            awaited.spec_steps(batch, shutting_down).ops[key] matches StateView::Oneshot(
                OneshotState::Completed(completion),
            ) && reported_by(batch[first], completion),
    {
        let oneshot = self.ops[key]->Oneshot_0;
        oneshot.law_polling_task_listens(current, false);
        Self::lemma_about(batch[first], key);
        assert forall|i: int| 0 <= i < first implies !is_about(#[trigger] batch[i], key) by {
            Self::lemma_about(batch[i], key);
        }
        awaited.lemma_first_completion_stays(batch, shutting_down, key, first);
    }

    /// A task that polls an operation again is woken in place of the one that
    /// polled before, unless that was the same.
    pub proof fn law_task_that_polled_last_is_woken(
        self,
        key: OpKey,
        waker: Waker,
        current: Waker,
        same: bool,
        awaited: DispatchView<P>,
        batch: Seq<Cqe>,
        shutting_down: bool,
        first: int,
    )
        requires
            key.spec_generation() != 0,
            self.ops.contains_key(key),
            self.ops[key] matches StateView::Oneshot(oneshot) && oneshot.listener() == Listener::<P>::Task(waker),
            polled_as(self.ops, key, current, same, awaited.ops, Poll::Pending),
            0 <= first < batch.len(),
            batch[first].user_data == key.spec_raw(),
            forall|i: int| 0 <= i < first ==> (#[trigger] batch[i]).user_data != key.spec_raw(),
        ensures
            same ==> awaited.spec_steps(batch, shutting_down).deferred.contains(DeferredAction::Wake(waker)),
            !same ==> awaited.spec_steps(batch, shutting_down).deferred.contains(DeferredAction::Wake(current)),
    {
        let oneshot = self.ops[key]->Oneshot_0;
        oneshot.law_polling_task_listens(current, same);
        Self::lemma_about(batch[first], key);
        assert forall|i: int| 0 <= i < first implies !is_about(#[trigger] batch[i], key) by {
            Self::lemma_about(batch[i], key);
        }
        awaited.lemma_first_completion_stays(batch, shutting_down, key, first);
    }

    /// A payload that was left behind gets the first completion of its operation,
    /// whatever else is in the batch, and the slot is free then.
    pub proof fn law_payload_left_behind_gets_its_completion(
        self,
        batch: Seq<Cqe>,
        shutting_down: bool,
        key: OpKey,
        payload: IgnoredOp<P>,
        first: int,
    )
        requires
            key.spec_generation() != 0,
            self.ops.contains_key(key),
            self.ops[key] matches StateView::Oneshot(oneshot) && oneshot.listener() == Listener::Payload(payload),
            0 <= first < batch.len(),
            batch[first].user_data == key.spec_raw(),
            forall|i: int| 0 <= i < first ==> (#[trigger] batch[i]).user_data != key.spec_raw(),
        ensures
            !self.spec_steps(batch, shutting_down).ops.contains_key(key),
            exists|completion: Completion|
                #![trigger reported_by(batch[first], completion)]
                reported_by(batch[first], completion) && self.spec_steps(batch, shutting_down).deferred.contains(
                    DeferredAction::Cleanup { payload, completion },
                ),
        decreases batch.len(),
    {
        let earlier = batch.drop_last();
        let last = batch.len() - 1;
        let before = self.spec_steps(earlier, shutting_down);
        let after = self.spec_steps(batch, shutting_down);
        assert(after == before.spec_step(batch[last], shutting_down));
        before.lemma_step_keeps_work(batch[last], shutting_down);
        if first == last {
            assert forall|i: int| 0 <= i < earlier.len() implies (#[trigger] earlier[i]).user_data != key.spec_raw() by {
                assert(earlier[i] == batch[i]);
            }
            self.law_other_operations_are_left_alone(earlier, shutting_down, key);
            Self::lemma_about(batch[last], key);
            let completion = batch[last].spec_completion();
            assert(reported_by(batch[first], completion));
            assert(after.deferred[before.deferred.len() as int] == DeferredAction::<P>::Cleanup {
                payload,
                completion,
            });
        } else {
            assert(earlier[first] == batch[first]);
            assert forall|i: int| 0 <= i < first implies (#[trigger] earlier[i]).user_data != key.spec_raw() by {
                assert(earlier[i] == batch[i]);
            }
            self.law_payload_left_behind_gets_its_completion(earlier, shutting_down, key, payload, first);
            let completion = choose|completion: Completion|
                #![trigger reported_by(batch[first], completion)]
                reported_by(batch[first], completion) && before.deferred.contains(
                    DeferredAction::Cleanup { payload, completion },
                );
            let cleanup = DeferredAction::<P>::Cleanup { payload, completion };
            let k = choose|k: int| 0 <= k < before.deferred.len() && before.deferred[k] == cleanup;
            assert(after.deferred[k] == cleanup);
        }
    }

    /// A stream that keeps up has every item that the kernel reports of it, in
    /// order, behind those it had, each with the number and the flags of its entry.
    pub proof fn law_stream_gets_every_item(
        self,
        batch: Seq<Cqe>,
        shutting_down: bool,
        key: OpKey,
        stream: MultishotView<P>,
        limit: Option<usize>,
    )
        requires
            key.spec_generation() != 0,
            self.ops.contains_key(key),
            self.ops[key] == StateView::Multishot(stream),
            stream.phase == Phase::<P>::Active(limit),
            limit matches Some(limit) ==> stream.pending.len() + batch.len() <= limit,
            forall|i: int|
                0 <= i < batch.len() && (#[trigger] batch[i]).user_data == key.spec_raw() ==> batch[i].flags & 2 != 0,
        ensures
            self.spec_steps(batch, shutting_down).ops.contains_key(key),
            self.spec_steps(batch, shutting_down).ops[key] matches StateView::Multishot(after) && {
                let items = batch.filter(|cqe: Cqe| cqe.user_data == key.spec_raw());
                &&& after.phase == stream.phase
                &&& after.cleanup == stream.cleanup
                &&& after.pending.len() == stream.pending.len() + items.len()
                &&& items.len() <= batch.len()
                &&& forall|j: int| 0 <= j < stream.pending.len() ==> #[trigger] after.pending[j] == stream.pending[j]
                &&& forall|j: int|
                    0 <= j < items.len() ==> reported_by(
                        #[trigger] items[j],
                        after.pending[stream.pending.len() + j],
                    )
            },
        decreases batch.len(),
    {
        reveal(Seq::filter);
        let about = |cqe: Cqe| cqe.user_data == key.spec_raw();
        if batch.len() > 0 {
            let earlier = batch.drop_last();
            let last = batch.len() - 1;
            assert forall|i: int| 0 <= i < earlier.len() && (#[trigger] earlier[i]).user_data
                == key.spec_raw() implies earlier[i].flags & 2 != 0 by {
                assert(earlier[i] == batch[i]);
            }
            self.law_stream_gets_every_item(earlier, shutting_down, key, stream, limit);
            let before = self.spec_steps(earlier, shutting_down);
            let after = self.spec_steps(batch, shutting_down);
            assert(after == before.spec_step(batch[last], shutting_down));
            let held = before.ops[key]->Multishot_0;
            let items = earlier.filter(about);
            Self::lemma_about(batch[last], key);
            if batch[last].user_data == key.spec_raw() {
                held.law_item_is_queued_where_there_is_room(batch[last].spec_completion(), true, limit);
                assert(batch.filter(about) == items.push(batch[last]));
                let all = after.ops[key]->Multishot_0.pending;
                assert forall|j: int| 0 <= j < batch.filter(about).len() implies reported_by(
                    #[trigger] batch.filter(about)[j],
                    all[stream.pending.len() + j],
                ) by {
                    if j < items.len() {
                        assert(items[j] == batch.filter(about)[j]);
                        assert(all[stream.pending.len() + j] == held.pending[stream.pending.len() + j]);
                    }
                }
            } else {
                assert(batch.filter(about) == items);
                assert(after.ops[key] == before.ops[key]);
            }
        }
    }

    /// A stream that overflows is among those whose request is to be cancelled,
    /// whatever else is in the batch.
    pub proof fn law_overflowing_stream_is_cancelled(
        self,
        batch: Seq<Cqe>,
        shutting_down: bool,
        key: OpKey,
        stream: MultishotView<P>,
        limit: usize,
        i: int,
    )
        requires
            key.spec_generation() != 0,
            self.ops.contains_key(key),
            self.ops[key] == StateView::Multishot(stream),
            stream.phase == Phase::<P>::Active(Some(limit)),
            stream.pending.len() >= limit,
            0 <= i < batch.len(),
            batch[i].user_data == key.spec_raw(),
            batch[i].flags & 2 != 0,
            forall|j: int| 0 <= j < i ==> (#[trigger] batch[j]).user_data != key.spec_raw(),
        ensures
            self.spec_steps(batch, shutting_down).cancel.contains(key),
        decreases batch.len(),
    {
        let earlier = batch.drop_last();
        let last = batch.len() - 1;
        let before = self.spec_steps(earlier, shutting_down);
        let after = self.spec_steps(batch, shutting_down);
        assert(after == before.spec_step(batch[last], shutting_down));
        before.lemma_step_keeps_work(batch[last], shutting_down);
        if i == last {
            assert forall|j: int| 0 <= j < earlier.len() implies (#[trigger] earlier[j]).user_data != key.spec_raw() by {
                assert(earlier[j] == batch[j]);
            }
            self.law_other_operations_are_left_alone(earlier, shutting_down, key);
            Self::lemma_about(batch[last], key);
            assert(after.cancel[before.cancel.len() as int] == key);
        } else {
            assert(earlier[i] == batch[i]);
            assert forall|j: int| 0 <= j < i implies (#[trigger] earlier[j]).user_data != key.spec_raw() by {
                assert(earlier[j] == batch[j]);
            }
            self.law_overflowing_stream_is_cancelled(earlier, shutting_down, key, stream, limit, i);
            let k = choose|k: int| 0 <= k < before.cancel.len() && before.cancel[k] == key;
            assert(after.cancel[k] == key);
        }
    }

    /// A wakeup from another thread has used up the read that waits for it, which
    /// is to be armed again unless the ring ends; without a wakeup it stays armed.
    pub proof fn law_wakeup_read_is_armed_again(self, batch: Seq<Cqe>, shutting_down: bool)
        ensures
            ({
                let after = self.spec_steps(batch, shutting_down);
                let woken = exists|i: int|
                    0 <= i < batch.len() && (#[trigger] batch[i]).user_data == CompletionKey::Wake.spec_raw();
                &&& woken ==> !after.wakeup_read_armed && after.rearm_wakeup == !shutting_down
                &&& !woken ==> after.wakeup_read_armed == self.wakeup_read_armed && after.rearm_wakeup
                    == self.rearm_wakeup
            }),
        decreases batch.len(),
    {
        if batch.len() > 0 {
            let earlier = batch.drop_last();
            let last = batch.len() - 1;
            let token = CompletionKey::Wake.spec_raw();
            self.law_wakeup_read_is_armed_again(earlier, shutting_down);
            CompletionKey::law_decode_inverts_raw(CompletionKey::Wake);
            if CompletionKey::spec_decode(batch[last].user_data) == Some(CompletionKey::Wake) {
                CompletionKey::law_decode_is_injective(batch[last].user_data, token);
            }
            if exists|i: int| 0 <= i < earlier.len() && (#[trigger] earlier[i]).user_data == token {
                let i = choose|i: int| 0 <= i < earlier.len() && (#[trigger] earlier[i]).user_data == token;
                assert(batch[i].user_data == token);
            } else if exists|i: int| 0 <= i < batch.len() && (#[trigger] batch[i]).user_data == token {
                let i = choose|i: int| 0 <= i < batch.len() && (#[trigger] batch[i]).user_data == token;
                if i < last {
                    assert(earlier[i].user_data == token);
                }
            }
        }
    }

    /// The answer to a request to cancel decides nothing: only the operation's own
    /// entry does.
    pub proof fn law_answers_to_cancel_requests_decide_nothing(self, cqe: Cqe, shutting_down: bool)
        requires
            cqe.user_data == CompletionKey::Cancel.spec_raw() || cqe.user_data
                == CompletionKey::WakeCancel.spec_raw(),
        ensures
            self.spec_step(cqe, shutting_down) == self,
    {
        CompletionKey::law_decode_inverts_raw(CompletionKey::Cancel);
        CompletionKey::law_decode_inverts_raw(CompletionKey::WakeCancel);
    }
}

/// Whether a request to cancel this operation was pushed in the course of the end
/// of a ring.
pub open spec fn cancel_was_pushed(events: Seq<EndEvent>, key: OpKey) -> bool {
    exists|i: int|
        0 <= i < events.len() && (#[trigger] events[i] matches EndEvent::Stepped { action, .. } && action
            == ShutdownAction::PushCancel(key))
}

/// How far the end of a ring has come with the requests to cancel.
proof fn lemma_cancels_of_run<P>(
    states: Seq<(IoUringBackend<P>, ShutdownStage)>,
    events: Seq<EndEvent>,
    key: OpKey,
    keys: Vec<OpKey>,
    at: int,
)
    requires
        states.len() == events.len() + 1,
        forall|i: int| 0 <= i < events.len() ==> end_event(states[i], #[trigger] events[i], states[i + 1]),
        states[0].1 == (ShutdownStage::Cancel { keys, next: 0 }),
        0 <= at < keys@.len(),
        keys@[at] == key,
    ensures
        !(states.last().1 is Flush),
        match states.last().1 {
            ShutdownStage::Cancel { keys: same, next } => same == keys && next <= keys@.len() && (next > at
                ==> cancel_was_pushed(events, key)),
            _ => cancel_was_pushed(events, key),
        },
    decreases events.len(),
{
    if events.len() > 0 {
        let last = events.len() - 1;
        let earlier = events.drop_last();
        let before = states.drop_last();
        assert forall|i: int| 0 <= i < earlier.len() implies end_event(before[i], #[trigger] earlier[i], before[i + 1]) by {
            assert(end_event(states[i], events[i], states[i + 1]));
        }
        lemma_cancels_of_run(before, earlier, key, keys, at);
        assert(before.last() == states[last]);
        assert(end_event(states[last], events[last], states[last + 1]));
        if cancel_was_pushed(earlier, key) {
            let i = choose|i: int|
                0 <= i < earlier.len() && (#[trigger] earlier[i] matches EndEvent::Stepped { action, .. } && action
                    == ShutdownAction::PushCancel(key));
            assert(events[i] == earlier[i]);
            assert(cancel_was_pushed(events, key));
        }
        if let ShutdownStage::Cancel { keys: same, next } = states[last].1 {
            if next == at && events[last] is Stepped {
                assert(events[last] matches EndEvent::Stepped { action, .. } && action == ShutdownAction::PushCancel(
                    key,
                ));
                assert(cancel_was_pushed(events, key));
            }
        }
    }
}

/// When a ring ends, the kernel is asked to cancel every operation that is not
/// over, before the ring goes on to wait for it.
pub proof fn law_every_operation_is_cancelled_at_the_end<P>(
    states: Seq<(IoUringBackend<P>, ShutdownStage)>,
    events: Seq<EndEvent>,
    key: OpKey,
)
    requires
        states.len() == events.len() + 1,
        events.len() > 0,
        forall|i: int| 0 <= i < events.len() ==> end_event(states[i], #[trigger] events[i], states[i + 1]),
        states[0].1 is Flush,
        events[0] matches EndEvent::Stepped { flushed: true, .. },
        states[0].0.spec_ops().contains_key(key),
        match states[0].0.spec_ops()[key] {
            StateView::Oneshot(oneshot) => !(oneshot is Completed),
            StateView::Multishot(stream) => !(stream.phase is Finished),
        },
        !(states.last().1 is Flush),
        !(states.last().1 is Cancel),
    ensures
        cancel_was_pushed(events, key),
{
    assert(end_event(states[0], events[0], states[1]));
    let later_states = states.skip(1);
    let later = events.skip(1);
    assert forall|i: int| 0 <= i < later.len() implies end_event(
        later_states[i],
        #[trigger] later[i],
        later_states[i + 1],
    ) by {
        assert(end_event(states[i + 1], events[i + 1], states[i + 2]));
    }
    let state = states[0].0.spec_ops()[key];
    state.law_shutdown_keeps_what_the_kernel_uses();
    assert(states[1].0.spec_ops().contains_key(key));
    assert(states[1].0.spec_ops()[key] == state.spec_shutdown());
    let keys = states[1].1->Cancel_keys;
    assert(keys@.contains(key));
    let at = choose|at: int| 0 <= at < keys@.len() && keys@[at] == key;
    assert(later_states.last() == states.last());
    lemma_cancels_of_run(later_states, later, key, keys, at);
    let i = choose|i: int|
        0 <= i < later.len() && (#[trigger] later[i] matches EndEvent::Stepped { action, .. } && action
            == ShutdownAction::PushCancel(key));
    assert(events[i + 1] == later[i]);
}

/// The driver ends as soon as the kernel uses nothing any more and its read of the
/// wakeup descriptor is over: nothing is left then, and the buffer pool is released if
/// there is one. Until then it waits, and keeps every operation that the kernel uses.
pub proof fn law_driver_ends_when_the_kernel_is_done<P>(
    before: IoUringBackend<P>,
    stage: ShutdownStage,
    flushed: bool,
    after: IoUringBackend<P>,
    step: (ShutdownStage, ShutdownAction),
    key: OpKey,
)
    requires
        shutdown_stepped(&before, stage, flushed, &after, step),
        stage is Drain || stage is AwaitWakeup,
    ensures
        stage is AwaitWakeup && before.spec_wakeup_read_armed() ==> step.1 is WaitAndDispatch && step.0 is AwaitWakeup
            && after.spec_ops() == before.spec_ops(),
        (stage is Drain || !before.spec_wakeup_read_armed()) && (forall|other: OpKey| #[trigger]
            before.spec_ops().contains_key(other) ==> !before.spec_ops()[other].awaits_completion()) ==> {
            &&& step.0 is Finished
            &&& step.1 matches ShutdownAction::ReleasePool(release)
            &&& release <==> before.spec_buffer_pool() is Ready
            &&& after.spec_ops() == Map::<OpKey, StateView<P>>::empty()
        },
        before.spec_ops().contains_key(key) && before.spec_ops()[key].awaits_completion() ==> {
            &&& step.1 is WaitAndDispatch
            &&& after.spec_ops().contains_key(key)
            &&& after.spec_ops()[key] == before.spec_ops()[key]
        },
{
}

/// What is submitted is submitted again where the kernel was busy or interrupted;
/// every other failure is told.
pub proof fn law_only_busy_submissions_are_repeated(result: Result<(), IoError>, step: SubmitStep)
    requires
        call_ensures(submit_step, (result,), step),
    ensures
        step is Done <==> result is Ok,
        step is DispatchAndRetry <==> result == Err::<(), IoError>(IoError::Os(16)),
        step is Retry <==> result == Err::<(), IoError>(IoError::Os(4)),
        result matches Err(error) ==> (error != IoError::Os(16) && error != IoError::Os(4) ==> step
            == SubmitStep::Fail(error)),
{
}

/// A wait that ran out of time found nothing, which is no failure; one that was
/// interrupted goes on; every other failure is told, and every number that was found.
pub proof fn law_running_out_of_time_is_no_failure(result: Result<usize, IoError>, step: WaitStep)
    requires
        call_ensures(wait_step, (result,), step),
    ensures
        result matches Ok(found) ==> step == WaitStep::Done(found),
        result == Err::<usize, IoError>(IoError::Os(62)) ==> step == WaitStep::Done(0),
        step is Retry <==> result == Err::<usize, IoError>(IoError::Os(4)),
        result matches Err(error) ==> (error != IoError::Os(62) && error != IoError::Os(4) ==> step == WaitStep::Fail(
            error,
        )),
{
}

/// A buffer pool is made once, as it was configured.
pub proof fn law_buffer_pool_is_made_as_configured<P>(
    config: DriverConfig,
    backend: IoUringBackend<P>,
    request: PoolRequest,
)
    requires
        call_ensures(IoUringBackend::<P>::new, (&config,), Ok::<IoUringBackend<P>, IoError>(backend)),
        call_ensures(IoUringBackend::<P>::buffer_pool, (&backend,), request),
    ensures
        request == (PoolRequest::Create { num_bufs: config.buffer_pool_size, buffer_len: config.buffer_pool_buffer_len }),
{
}

impl<P> MultishotView<P> {
    /// A stream is forgotten when it was dropped and its last completion has come, and
    /// never before.
    pub proof fn law_stream_is_kept_until_its_end(self, completion: Completion, more: bool)
        ensures
            self.spec_pushed(completion, more).remove <==> self.phase is Cancelled && !more,
    {
    }
}

/// At the end everything is given back that any stream has queued, whichever stream it
/// is.
pub proof fn law_every_queued_resource_is_given_back<P>(
    ops: Map<OpKey, StateView<P>>,
    keys: Seq<OpKey>,
    key: OpKey,
    i: int,
)
    requires
        keys.contains(key),
        0 <= i < ops[key].spec_shutdown_discards().len(),
    ensures
        shutdown_discards(ops, keys).contains(ops[key].spec_shutdown_discards()[i]),
    decreases keys.len(),
{
    let resource = ops[key].spec_shutdown_discards()[i];
    let earlier = keys.drop_last();
    let rest = shutdown_discards(ops, earlier);
    let all = shutdown_discards(ops, keys);
    if keys.last() == key {
        assert(all[rest.len() + i] == resource);
    } else {
        let at = choose|at: int| 0 <= at < keys.len() && keys[at] == key;
        assert(earlier[at] == key);
        law_every_queued_resource_is_given_back(ops, earlier, key, i);
        let k = choose|k: int| 0 <= k < rest.len() && rest[k] == resource;
        assert(all[k] == resource);
    }
}

/// Once every operation was cancelled, the read of the wakeup descriptor is, if there is
/// one: its cancellation is pushed, and submitted, and then awaited. Without such a read
/// there is nothing to push. The operations stay as they are.
pub proof fn law_wakeup_read_is_cancelled_at_the_end<P>(
    before: IoUringBackend<P>,
    stage: ShutdownStage,
    flushed: bool,
    after: IoUringBackend<P>,
    step: (ShutdownStage, ShutdownAction),
)
    requires
        shutdown_stepped(&before, stage, flushed, &after, step),
    ensures
        stage matches ShutdownStage::Cancel { keys, next } ==> (next >= keys@.len() ==> (step.1 is PushWakeCancel
            <==> before.spec_wakeup_read_armed())),
        stage matches ShutdownStage::Cancel { keys, next } ==> (next < keys@.len() ==> step.1
            == ShutdownAction::PushCancel(keys@[next as int]) && after.spec_ops() == before.spec_ops()),
        step.1 is PushWakeCancel ==> step.0 is SubmitWakeCancel && after.spec_ops() == before.spec_ops(),
        stage is SubmitWakeCancel ==> step.0 is AwaitWakeup && step.1 is Submit && after.spec_ops()
            == before.spec_ops(),
        stage is Flush && !flushed ==> step.0 is Flush && step.1 is Submit && after.spec_ops() == before.spec_ops(),
        stage is Flush && flushed ==> step.0 is Cancel && step.1 is Discard,
        stage is Finished ==> step.1 is Done,
{
}

} // verus!
