//! Completions, deferred work, and the typed operation handles.
pub mod connection;
pub mod file;
pub mod managed;
pub mod message;
pub mod request;
pub mod transfer;
pub mod vectored;

use crate::driver::op_table::OpKey;
use crate::error::{ErrorKind, IoError};
use crate::task::Poll;
use std::collections::VecDeque;
use std::task::Waker;
use vstd::prelude::*;

verus! {

/// Terminal result shared by the backends.
///
/// `result` is the portable outcome. `flags` keeps backend metadata, such as
/// the flags of a completion queue entry. `blocking_value` is the value of a
/// blocking job that no scalar can hold.
pub struct Completion<B = ()> {
    pub result: Result<u32, IoError>,
    pub flags: u32,
    pub blocking_value: Option<B>,
}

impl<B> Completion<B> {
    /// A terminal completion without metadata.
    pub fn new(result: Result<u32, IoError>) -> (completion: Self)
        ensures
            completion == (Completion { result, flags: 0, blocking_value: None::<B> }),
    {
        Completion { result, flags: 0, blocking_value: None }
    }

    /// A terminal completion that carries backend metadata.
    pub fn with_flags(result: Result<u32, IoError>, flags: u32) -> (completion: Self)
        ensures
            completion == (Completion { result, flags, blocking_value: None::<B> }),
    {
        Completion { result, flags, blocking_value: None }
    }

    /// The completion of a blocking job with a typed value.
    pub fn from_blocking_result(result: Result<B, IoError>) -> (completion: Self)
        ensures
            completion == (match result {
                Ok(value) => Completion { result: Ok(0), flags: 0, blocking_value: Some(value) },
                Err(error) => Completion { result: Err(error), flags: 0, blocking_value: None },
            }),
    {
        match result {
            Ok(value) => Completion { result: Ok(0), flags: 0, blocking_value: Some(value) },
            Err(error) => Completion { result: Err(error), flags: 0, blocking_value: None },
        }
    }

    /// The typed value of a successful blocking job.
    ///
    /// Only the completion of a blocking job carries one.
    pub fn into_blocking_value(self) -> (value: Result<B, IoError>)
        requires
            self.result is Ok ==> self.blocking_value is Some,
        ensures
            value == (match self.result {
                Ok(_) => Ok(self.blocking_value->0),
                Err(error) => Err(error),
            }),
    {
        match self.result {
            Ok(_) => Ok(self.blocking_value.unwrap()),
            Err(error) => Err(error),
        }
    }

    /// The byte count that this completion reports for a buffer of `capacity`
    /// bytes.
    pub open spec fn spec_bytes_transferred(self, capacity: usize) -> Result<usize, IoError> {
        match self.result {
            Ok(n) => if n <= capacity {
                Ok(n as usize)
            } else {
                Err(IoError::BufferOverrun { capacity })
            },
            Err(error) => Err(error),
        }
    }

    /// Validate a byte count against the capacity of the submitted buffer.
    ///
    /// A count larger than the capacity is an error: taking it at face value
    /// would expose bytes that were never written.
    pub fn bytes_transferred(self, capacity: usize) -> (count: Result<usize, IoError>)
        ensures
            count == self.spec_bytes_transferred(capacity),
    {
        match self.result {
            Ok(n) => {
                let n: usize = n as usize;
                if n > capacity {
                    Err(IoError::BufferOverrun { capacity })
                } else {
                    Ok(n)
                }
            },
            Err(error) => Err(error),
        }
    }

    /// What a blocking job returns comes back unchanged: a value as that value,
    /// an error as that error.
    pub proof fn law_blocking_result_round_trip(result: Result<B, IoError>, completion: Completion<B>, value: Result<B, IoError>)
        requires
            call_ensures(Completion::<B>::from_blocking_result, (result,), completion),
            call_ensures(Completion::<B>::into_blocking_value, (completion,), value),
        ensures
            call_requires(Completion::<B>::into_blocking_value, (completion,)),
            value == result,
    {
    }
}

/// The payload of an operation whose future is gone, kept until the platform
/// has let go of the operation.
pub enum IgnoredOp<P> {
    /// The operation's own payload. It turns the late completion into a typed
    /// result, which is then dropped.
    Typed(P),
    /// Nothing was left behind to clean up.
    Detached,
}

/// Who hears of an operation's terminal completion.
pub enum Listener<P> {
    /// The completion is kept until somebody asks for it.
    Nobody,
    /// The task behind this waker.
    Task(Waker),
    /// The payload of an operation whose future is gone.
    Payload(IgnoredOp<P>),
    /// The completion arrived before.
    Done,
}

impl<P> Listener<P> {
    /// The waker of the task that listens, if one does.
    pub open spec fn spec_task(self) -> Option<Waker> {
        match self {
            Listener::Task(waker) => Some(waker),
            _ => None,
        }
    }
}

/// Who watches an operation whose cancellation was requested.
pub enum CancelObserver<P> {
    /// The future has not registered a waker yet.
    Pending,
    Waiting(Waker),
    Detached(IgnoredOp<P>),
}

/// Work put off until the backend is no longer borrowed.
///
/// Waking a task or dropping a payload may run arbitrary code, which may
/// re-enter the driver.
pub enum DeferredAction<P, B = ()> {
    /// Wake the task that waits for a completion.
    Wake(Waker),
    /// Hand a late completion to the payload of a detached operation.
    Cleanup { payload: IgnoredOp<P>, completion: Completion<B> },
}

/// What a terminal completion asks of the driver.
pub struct Completed<P, B = ()> {
    /// The slot is no longer needed.
    pub remove: bool,
    pub wake: Option<Waker>,
    pub cleanup: Option<DeferredAction<P, B>>,
}

/// The deferred work of one completion: the wake first, the cleanup second.
pub open spec fn deferred_by<P, B>(outcome: Completed<P, B>) -> Seq<DeferredAction<P, B>> {
    let wakes = match outcome.wake {
        Some(waker) => seq![DeferredAction::<P, B>::Wake(waker)],
        None => Seq::empty(),
    };
    match outcome.cleanup {
        Some(cleanup) => wakes.push(cleanup),
        None => wakes,
    }
}

/// Queue the deferred work of one completion.
pub(crate) fn defer<P, B>(
    deferred: &mut Vec<DeferredAction<P, B>>,
    wake: Option<Waker>,
    cleanup: Option<DeferredAction<P, B>>,
)
    ensures
        final(deferred)@ == old(deferred)@ + deferred_by(Completed { remove: false, wake, cleanup }),
{
    if let Some(waker) = wake {
        deferred.push(DeferredAction::Wake(waker));
    }
    if let Some(cleanup) = cleanup {
        deferred.push(cleanup);
    }
}

/// Delivers exactly one terminal completion for a dispatched blocking job.
///
/// A pool may discard a queued job during shutdown, and a job may unwind. The
/// guard is then abandoned and reports the interruption itself.
pub struct BlockingCompletionGuard {
    notifier: Option<OpKey>,
}

impl BlockingCompletionGuard {
    /// The operation that still waits for its completion.
    pub closed spec fn pending(&self) -> Option<OpKey> {
        self.notifier
    }

    /// A completion for the job that `pending` names is sent: what is pending
    /// then, and what is queued then.
    pub open spec fn sent<B>(
        pending: Option<OpKey>,
        done: Seq<(OpKey, Completion<B>)>,
        completion: Completion<B>,
    ) -> (Option<OpKey>, Seq<(OpKey, Completion<B>)>) {
        match pending {
            Some(key) => (None, done.push((key, completion))),
            None => (None, done),
        }
    }

    /// The completion of a job that did not return.
    pub open spec fn cancelled<B>() -> Completion<B> {
        Completion {
            result: Err(
                IoError::Custom {
                    kind: ErrorKind::Interrupted,
                    message: "blocking operation cancelled before completion",
                },
            ),
            flags: 0,
            blocking_value: None,
        }
    }

    /// A job has one completion: once one was sent, a second send changes
    /// nothing.
    pub proof fn law_one_completion_per_job<B>(
        pending: Option<OpKey>,
        done: Seq<(OpKey, Completion<B>)>,
        first: Completion<B>,
        second: Completion<B>,
    )
        ensures
            ({
                let once = Self::sent(pending, done, first);
                Self::sent(once.0, once.1, second) == once
            }),
    {
    }

    pub fn new(key: OpKey) -> (guard: Self)
        ensures
            guard.pending() == Some(key),
    {
        BlockingCompletionGuard { notifier: Some(key) }
    }

    /// Deliver the completion of a job that returned. Answers whether the
    /// driver is to be woken.
    pub fn complete<B>(&mut self, done: &mut VecDeque<(OpKey, Completion<B>)>, completion: Completion<B>) -> (wake: bool)
        ensures
            wake == (old(self).pending() is Some),
            (final(self).pending(), final(done)@) == Self::sent(old(self).pending(), old(done)@, completion),
    {
        match self.notifier.take() {
            Some(key) => {
                done.push_back((key, completion));
                true
            },
            None => false,
        }
    }

    /// Give up on the job. Unless its completion was delivered before, an
    /// `Interrupted` error is delivered in its place. Answers whether the driver
    /// is to be woken.
    pub fn abandon<B>(&mut self, done: &mut VecDeque<(OpKey, Completion<B>)>) -> (wake: bool)
        ensures
            wake == (old(self).pending() is Some),
            (final(self).pending(), final(done)@) == Self::sent(
                old(self).pending(),
                old(done)@,
                Self::cancelled::<B>(),
            ),
    {
        let interrupted = IoError::new(
            ErrorKind::Interrupted,
            "blocking operation cancelled before completion",
        );
        self.complete(done, Completion::new(Err(interrupted)))
    }
}

/// What follows one run of a blocking job.
pub enum JobStep<B> {
    /// The system call was interrupted: run it again.
    Retry,
    /// The job is over.
    Done(Completion<B>),
}

/// Decides when a blocking job is over. Interrupted system calls are run again
/// so that their callers never see an interruption.
pub struct BlockingJob {}

impl BlockingJob {
    /// Whether a run with this result has to be repeated.
    pub open spec fn interrupted<B>(completion: Completion<B>) -> bool {
        completion.result matches Err(error) && error.spec_kind() == ErrorKind::Interrupted
    }

    /// The completion of a job that ran to its end: what it returned, or an
    /// error in place of it where the job panicked.
    pub fn outcome<B>(returned: Option<Completion<B>>) -> (completion: Completion<B>)
        ensures
            completion == (match returned {
                Some(completion) => completion,
                None => Completion {
                    result: Err(
                        IoError::Custom { kind: ErrorKind::Other, message: "blocking operation panicked" },
                    ),
                    flags: 0,
                    blocking_value: None,
                },
            }),
    {
        match returned {
            Some(completion) => completion,
            None => Completion::new(Err(IoError::other("blocking operation panicked"))),
        }
    }

    /// Judge one run of the job.
    pub fn run<B>(completion: Completion<B>) -> (step: JobStep<B>)
        ensures
            BlockingJob::interrupted(completion) ==> step is Retry,
            !BlockingJob::interrupted(completion) ==> step == JobStep::Done(completion),
    {
        let again = match &completion.result {
            Err(error) => error.kind() == ErrorKind::Interrupted,
            Ok(_) => false,
        };
        if again {
            JobStep::Retry
        } else {
            JobStep::Done(completion)
        }
    }
}

/// A one-shot operation: its key and, until a backend takes it, its payload.
///
/// The payload is boxed because a platform may hold pointers into it.
pub struct Op<T> {
    key: OpKey,
    data: Option<Box<T>>,
}

impl<T> Op<T> {
    pub closed spec fn spec_key(&self) -> OpKey {
        self.key
    }

    pub closed spec fn spec_data(&self) -> Option<T> {
        match self.data {
            Some(data) => Some(*data),
            None => None,
        }
    }

    pub fn new(key: OpKey, data: Box<T>) -> (op: Self)
        ensures
            op.spec_key() == key,
            op.spec_data() == Some(*data),
    {
        Op { key, data: Some(data) }
    }

    pub fn key(&self) -> (key: OpKey)
        ensures
            key == self.spec_key(),
    {
        self.key
    }

    /// Take the payload out of the operation.
    pub fn take_data(&mut self) -> (data: Option<Box<T>>)
        ensures
            data is Some <==> old(self).spec_data() is Some,
            data matches Some(data) ==> *data == old(self).spec_data()->0,
            final(self).spec_data() is None,
            final(self).spec_key() == old(self).spec_key(),
    {
        self.data.take()
    }

    pub fn data_ref(&self) -> (data: Option<&T>)
        ensures
            data is Some <==> self.spec_data() is Some,
            data matches Some(data) ==> *data == self.spec_data()->0,
    {
        match &self.data {
            Some(data) => Some(&**data),
            None => None,
        }
    }

    pub fn data_mut(&mut self) -> (data: Option<&mut T>)
        ensures
            data is Some <==> old(self).spec_data() is Some,
            data matches Some(data) ==> {
                &&& *data == old(self).spec_data()->0
                &&& final(self).spec_data() == Some(*final(data))
            },
            data is None ==> final(self).spec_data() is None,
            final(self).spec_key() == old(self).spec_key(),
    {
        match &mut self.data {
            Some(data) => Some(&mut **data),
            None => None,
        }
    }
}

enum MultiOpState<T> {
    Active(Box<T>),
    Terminated,
}

/// A multishot operation that yields a stream of completions.
pub struct MultiOp<T> {
    key: OpKey,
    state: MultiOpState<T>,
}

/// How the next item of a stream is come by.
#[derive(Clone, Copy, Debug, PartialEq, Eq, Structural)]
pub enum NextStep {
    /// The stream has ended.
    Ended,
    /// Ask the backend.
    PollBackend,
}

/// What the backend's answer means for the stream.
pub enum NextItem<B> {
    Pending,
    /// The stream has ended.
    Ended,
    /// Turn this completion into an item.
    Convert(Completion<B>),
}

impl<T> MultiOp<T> {
    pub closed spec fn spec_key(&self) -> OpKey {
        self.key
    }

    /// The payload, until the stream has ended.
    pub closed spec fn spec_data(&self) -> Option<T> {
        match self.state {
            MultiOpState::Active(data) => Some(*data),
            MultiOpState::Terminated => None,
        }
    }

    pub fn new(key: OpKey, data: Box<T>) -> (op: Self)
        ensures
            op.spec_key() == key,
            op.spec_data() == Some(*data),
    {
        MultiOp { key, state: MultiOpState::Active(data) }
    }

    pub fn key(&self) -> (key: OpKey)
        ensures
            key == self.spec_key(),
    {
        self.key
    }

    /// End the stream and take its payload.
    pub fn take_data(&mut self) -> (data: Option<Box<T>>)
        ensures
            data is Some <==> old(self).spec_data() is Some,
            data matches Some(data) ==> *data == old(self).spec_data()->0,
            final(self).spec_data() is None,
            final(self).spec_key() == old(self).spec_key(),
    {
        let mut state = MultiOpState::Terminated;
        std::mem::swap(&mut self.state, &mut state);
        match state {
            MultiOpState::Active(data) => Some(data),
            MultiOpState::Terminated => None,
        }
    }

    pub fn data_mut(&mut self) -> (data: Option<&mut T>)
        ensures
            data is Some <==> old(self).spec_data() is Some,
            data matches Some(data) ==> {
                &&& *data == old(self).spec_data()->0
                &&& final(self).spec_data() == Some(*final(data))
            },
            data is None ==> final(self).spec_data() is None,
            final(self).spec_key() == old(self).spec_key(),
    {
        match &mut self.state {
            MultiOpState::Active(data) => Some(&mut **data),
            MultiOpState::Terminated => None,
        }
    }

    pub fn is_terminated(&self) -> (terminated: bool)
        ensures
            terminated == (self.spec_data() is None),
    {
        match &self.state {
            MultiOpState::Active(_) => false,
            MultiOpState::Terminated => true,
        }
    }

    /// End the stream and drop its payload.
    pub fn finish(&mut self)
        ensures
            final(self).spec_data() is None,
            final(self).spec_key() == old(self).spec_key(),
    {
        self.state = MultiOpState::Terminated;
    }

    /// Begin one poll of the stream. A stream whose driver is gone ends here.
    pub fn poll_start(&mut self, driver_alive: bool) -> (step: NextStep)
        ensures
            step == (if old(self).spec_data() is Some && driver_alive {
                NextStep::PollBackend
            } else {
                NextStep::Ended
            }),
            step is PollBackend ==> final(self).spec_data() == old(self).spec_data(),
            step is Ended ==> final(self).spec_data() is None,
            final(self).spec_key() == old(self).spec_key(),
    {
        if self.is_terminated() {
            return NextStep::Ended;
        }
        if !driver_alive {
            self.finish();
            return NextStep::Ended;
        }
        NextStep::PollBackend
    }

    /// Take the backend's answer to a poll of the stream.
    pub fn poll_backend<B>(&mut self, polled: Poll<Option<Completion<B>>>) -> (next: NextItem<B>)
        ensures
            next == (match polled {
                Poll::Pending => NextItem::Pending,
                Poll::Ready(None) => NextItem::Ended,
                Poll::Ready(Some(completion)) => NextItem::Convert(completion),
            }),
            next is Ended ==> final(self).spec_data() is None,
            !(next is Ended) ==> final(self).spec_data() == old(self).spec_data(),
            final(self).spec_key() == old(self).spec_key(),
    {
        match polled {
            Poll::Pending => NextItem::Pending,
            Poll::Ready(None) => {
                self.finish();
                NextItem::Ended
            },
            Poll::Ready(Some(completion)) => NextItem::Convert(completion),
        }
    }

    /// Take the item that a completion was turned into. Where there is none,
    /// the stream ends, and its payload comes back for the backend to retire.
    pub fn poll_item<I>(&mut self, item: &Option<I>) -> (retire: Option<Box<T>>)
        ensures
            retire is Some <==> item is None && old(self).spec_data() is Some,
            retire matches Some(data) ==> *data == old(self).spec_data()->0,
            item is None ==> final(self).spec_data() is None,
            item is Some ==> final(self).spec_data() == old(self).spec_data(),
            final(self).spec_key() == old(self).spec_key(),
    {
        match item {
            Some(_) => None,
            None => self.take_data(),
        }
    }
}

impl<B> Completion<B> {
    /// A count is accepted if and only if the buffer holds that many bytes, and is
    /// then the count that was reported; a failure stays the failure it was.
    pub proof fn law_count_is_accepted_if_it_fits(self, capacity: usize, count: Result<usize, IoError>)
        requires
            call_ensures(Completion::<B>::bytes_transferred, (self, capacity), count),
        ensures
            self.result matches Ok(n) ==> (count is Ok <==> n <= capacity),
            self.result matches Ok(n) ==> (count matches Ok(accepted) ==> accepted == n),
            self.result matches Ok(n) ==> (count matches Err(error) ==> error.spec_kind() == ErrorKind::InvalidData),
            self.result matches Err(error) ==> count == Err::<usize, IoError>(error),
    {
    }
}

/// Both the task to wake and the payload to clean up are put off, the task first,
/// and nothing else is.
pub proof fn law_wake_and_cleanup_are_put_off<P, B>(outcome: Completed<P, B>)
    ensures
        outcome.wake matches Some(waker) ==> deferred_by(outcome).len() > 0 && deferred_by(outcome)[0]
            == DeferredAction::<P, B>::Wake(waker),
        outcome.cleanup matches Some(cleanup) ==> deferred_by(outcome).len() > 0 && deferred_by(outcome).last()
            == cleanup,
        deferred_by(outcome).len() == (if outcome.wake is Some {
            1int
        } else {
            0
        }) + (if outcome.cleanup is Some {
            1int
        } else {
            0
        }),
{
}

impl BlockingCompletionGuard {
    /// The completion of a job reaches the driver under the job's key, behind what
    /// was there, and the guard is done. One that is given up reports that it was
    /// interrupted.
    pub proof fn law_completion_reaches_the_driver<B>(
        key: OpKey,
        done: Seq<(OpKey, Completion<B>)>,
        completion: Completion<B>,
    )
        ensures
            Self::sent(Some(key), done, completion).0 is None,
            Self::sent(Some(key), done, completion).1 == done.push((key, completion)),
            Self::sent(None, done, completion).1 == done,
            Self::cancelled::<B>().result matches Err(error) && error.spec_kind() == ErrorKind::Interrupted,
            Self::cancelled::<B>().flags == 0,
            Self::cancelled::<B>().blocking_value is None,
    {
    }
}

impl BlockingJob {
    /// A job runs again if and only if its system call was interrupted. Whatever
    /// else it came to is its completion, unchanged.
    pub proof fn law_only_interruptions_are_repeated<B>(completion: Completion<B>, step: JobStep<B>)
        requires
            call_ensures(BlockingJob::run::<B>, (completion,), step),
        ensures
            completion.result is Ok ==> step == JobStep::Done(completion),
            completion.result matches Err(error) ==> (step is Retry <==> error.spec_kind() == ErrorKind::Interrupted),
            step matches JobStep::Done(same) ==> same == completion,
    {
    }
}

} // verus!
