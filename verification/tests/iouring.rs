use karmaio::driver::backends::iouring::{
    submit_step, wait_step, BufferPoolState, CancelSqe, Cqe, Discarded, DrainStep, DriverConfig, IoUringBackend,
    MultishotCleanup, MultishotState, OneshotState, PoolRequest, ShutdownAction, ShutdownStage, State, SubmitStep,
    WaitStep,
};
use karmaio::driver::op_table::{CompletionKey, OpTable};
use karmaio::driver::ops::{CancelObserver, Completion, DeferredAction, IgnoredOp};
use karmaio::error::{ErrorKind, IoError};
use karmaio::task::Poll;
use std::collections::VecDeque;
use std::sync::atomic::{AtomicBool, Ordering};
use std::sync::Arc;
use std::task::{Wake, Waker};

struct CleanupMarker(Arc<AtomicBool>);

impl CleanupMarker {
    fn complete(self, _completion: Completion) {
        self.0.store(true, Ordering::SeqCst);
    }
}

fn run(action: DeferredAction<CleanupMarker>) {
    match action {
        DeferredAction::Wake(waker) => waker.wake(),
        DeferredAction::Cleanup { payload: IgnoredOp::Typed(marker), completion } => marker.complete(completion),
        DeferredAction::Cleanup { payload: IgnoredOp::Detached, .. } => {}
    }
}

struct WakeMarker(Arc<AtomicBool>);

impl Wake for WakeMarker {
    fn wake(self: Arc<Self>) {
        self.0.store(true, Ordering::SeqCst);
    }
}

struct PayloadDropMarker(Arc<AtomicBool>);

impl Drop for PayloadDropMarker {
    fn drop(&mut self) {
        self.0.store(true, Ordering::SeqCst);
    }
}

fn config(capacity: usize) -> DriverConfig {
    DriverConfig {
        capacity,
        buffer_pool_size: 4,
        buffer_pool_buffer_len: 2048,
        multishot_accept_capacity: 16,
    }
}

fn backend(capacity: usize) -> IoUringBackend<u32> {
    match IoUringBackend::new(&config(capacity)) {
        Ok(backend) => backend,
        Err(error) => panic!("create backend: {:?}", error),
    }
}

#[test]
fn iouring_completion_before_first_poll_is_retained() {
    let mut state: State<CleanupMarker> = State::Oneshot(OneshotState::Submitted);
    let outcome = state.complete(Completion::new(Ok(7)));
    assert!(!outcome.remove);
    assert!(outcome.wake.is_none());
    assert!(outcome.cleanup.is_none());
    assert!(matches!(state, State::Oneshot(OneshotState::Completed(..))));
}

#[test]
fn iouring_detached_completion_runs_typed_cleanup() {
    let cleaned = Arc::new(AtomicBool::new(false));
    let mut state = State::Oneshot(OneshotState::Detached(IgnoredOp::Typed(CleanupMarker(cleaned.clone()))));

    let outcome = state.complete(Completion::new(Ok(0)));
    assert!(outcome.remove);
    assert!(outcome.wake.is_none());
    run(outcome.cleanup.expect("detached cleanup should be deferred"));
    assert!(cleaned.load(Ordering::SeqCst));
}

#[test]
fn iouring_completion_wakes_the_current_waiter() {
    let woken = Arc::new(AtomicBool::new(false));
    let waker = Waker::from(Arc::new(WakeMarker(woken.clone())));
    let mut state: State<CleanupMarker> = State::Oneshot(OneshotState::Waiting(waker));

    let outcome = state.complete(Completion::new(Ok(0)));
    assert!(!outcome.remove);
    assert!(outcome.cleanup.is_none());
    outcome.wake.expect("waiting state should return its waker").wake();
    assert!(woken.load(Ordering::SeqCst));
}

#[test]
fn canceling_waiting_wakes_on_target_cqe() {
    let woken = Arc::new(AtomicBool::new(false));
    let waker = Waker::from(Arc::new(WakeMarker(woken.clone())));
    let mut state: State<CleanupMarker> = State::Oneshot(OneshotState::Canceling {
        observer: CancelObserver::Waiting(waker),
        sqe: CancelSqe::InFlight,
    });

    let outcome = state.complete(Completion::new(Err(IoError::from_raw_os_error(libc::ECANCELED))));
    assert!(!outcome.remove);
    assert!(outcome.cleanup.is_none());
    outcome.wake.expect("canceling waiter should wake").wake();
    assert!(woken.load(Ordering::SeqCst));
    assert!(matches!(state, State::Oneshot(OneshotState::Completed(..))));
}

#[test]
fn canceling_detached_retains_payload_until_target_cqe() {
    let cleaned = Arc::new(AtomicBool::new(false));
    let mut state = State::Oneshot(OneshotState::Canceling {
        observer: CancelObserver::Detached(IgnoredOp::Typed(CleanupMarker(cleaned.clone()))),
        sqe: CancelSqe::InFlight,
    });

    let outcome = state.complete(Completion::new(Ok(0)));
    assert!(outcome.remove);
    assert!(outcome.wake.is_none());
    assert!(!cleaned.load(Ordering::SeqCst));
    run(outcome.cleanup.expect("detached cancel cleanup should be deferred"));
    assert!(cleaned.load(Ordering::SeqCst));
}

#[test]
fn request_cancel_is_idempotent_once_in_flight() {
    let mut state: OneshotState<CleanupMarker> = OneshotState::Submitted;
    assert!(state.request_cancel());
    state.mark_cancel_in_flight();
    assert!(!state.request_cancel());
    assert!(matches!(
        state,
        OneshotState::Canceling { observer: CancelObserver::Pending, sqe: CancelSqe::InFlight }
    ));
}

#[test]
fn stale_generation_cannot_observe_replaced_slot() {
    let mut table: OpTable<State<CleanupMarker>> = OpTable::new(1).unwrap();
    let first = table.insert(State::Oneshot(OneshotState::Submitted)).unwrap();
    assert!(table.remove(first).is_some());
    let second = table.insert(State::Oneshot(OneshotState::Submitted)).unwrap();
    assert_ne!(first, second);
    assert!(table.get_mut(first).is_none());
}

#[test]
fn multishot_more_keeps_active_and_queues() {
    let mut state: State<CleanupMarker> = State::Multishot(MultishotState::Active {
        waker: None,
        pending: VecDeque::new(),
        cleanup: MultishotCleanup::Nothing,
        pending_limit: None,
    });
    let outcome = state.push_multishot(Completion::new(Ok(3)), true);
    assert!(!outcome.remove);
    assert!(outcome.wake.is_none());
    assert!(outcome.discarded.is_empty());
    assert!(!outcome.cancel);
    match &state {
        State::Multishot(MultishotState::Active { pending, .. }) => {
            assert_eq!(pending.len(), 1);
            assert_eq!(pending[0].result.as_ref().unwrap(), &3);
        }
        _ => panic!("expected Multishot Active"),
    }
}

#[test]
fn multishot_final_transitions_to_finished() {
    let mut state: State<CleanupMarker> = State::Multishot(MultishotState::Active {
        waker: None,
        pending: VecDeque::new(),
        cleanup: MultishotCleanup::Nothing,
        pending_limit: None,
    });
    let _ = state.push_multishot(Completion::new(Ok(1)), true);
    let outcome = state.push_multishot(Completion::new(Ok(2)), false);
    assert!(!outcome.remove);
    match &state {
        State::Multishot(MultishotState::Finished { pending, .. }) => {
            assert_eq!(pending.len(), 2);
        }
        _ => panic!("expected Multishot Finished"),
    }
}

#[test]
fn cancelled_multishot_retains_payload_until_terminal_cqe() {
    let dropped = Arc::new(AtomicBool::new(false));
    let mut state = State::Multishot(MultishotState::Cancelled {
        pending: VecDeque::new(),
        cleanup: MultishotCleanup::Nothing,
        payload: Some(PayloadDropMarker(dropped.clone())),
    });

    let outcome = state.push_multishot(Completion::new(Ok(0)), false);
    assert!(outcome.remove);
    assert!(outcome.wake.is_none());
    assert!(outcome.discarded.is_empty());
    assert!(!outcome.cancel);
    assert!(!dropped.load(Ordering::SeqCst));

    drop(state);
    assert!(dropped.load(Ordering::SeqCst));
}

#[test]
fn multishot_pending_limit_discards_overflow_and_requests_cancel() {
    let mut state: State<CleanupMarker> = State::Multishot(MultishotState::Active {
        waker: None,
        pending: VecDeque::new(),
        cleanup: MultishotCleanup::AcceptedFd,
        pending_limit: Some(1),
    });

    let outcome = state.push_multishot(Completion::new(Ok(10)), true);
    assert!(!outcome.cancel);
    let outcome = state.push_multishot(Completion::new(Ok(11)), true);
    assert!(!outcome.remove);
    assert!(outcome.cancel);
    assert_eq!(outcome.discarded, vec![Discarded::CloseFd(11)]);

    match &state {
        State::Multishot(MultishotState::Stopping { pending, .. }) => {
            assert_eq!(pending.len(), 2);
            assert_eq!(
                pending[1].result.as_ref().expect_err("capacity error").kind(),
                ErrorKind::ResourceBusy
            );
        }
        _ => panic!("expected Multishot Stopping"),
    }

    let outcome = state.push_multishot(Completion::new(Ok(12)), false);
    assert!(!outcome.cancel);
    assert_eq!(outcome.discarded, vec![Discarded::CloseFd(12)]);
    assert!(matches!(
        state,
        State::Multishot(MultishotState::Finished { ref pending, .. }) if pending.len() == 2
    ));
}

#[test]
fn first_completion_wins() {
    let mut state: State<CleanupMarker> = State::Oneshot(OneshotState::Submitted);
    let _ = state.complete(Completion::new(Ok(7)));
    let outcome = state.complete(Completion::new(Ok(8)));
    assert!(!outcome.remove);
    assert!(outcome.wake.is_none());
    match state {
        State::Oneshot(OneshotState::Completed(completion)) => assert_eq!(completion.result.unwrap(), 7),
        _ => panic!("expected a completion"),
    }
}

#[test]
fn discarded_buffers_go_back_to_their_group() {
    let mut discarded = Vec::new();
    // Bit 0 says that a buffer was used; its number is in the upper half.
    let flags: u32 = (9 << 16) | 1;
    MultishotCleanup::ProvidedBuffer(3).discard(Completion::with_flags(Ok(5), flags), &mut discarded);
    MultishotCleanup::ProvidedBuffer(3).discard(Completion::with_flags(Ok(5), 0), &mut discarded);
    MultishotCleanup::AcceptedFd.discard(Completion::new(Err(IoError::from_raw_os_error(libc::EMFILE))), &mut discarded);
    MultishotCleanup::Nothing.discard(Completion::new(Ok(5)), &mut discarded);
    assert_eq!(discarded, vec![Discarded::RecycleBuffer { group: 3, buffer_id: 9 }]);
}

#[test]
fn operation_runs_through_submission_poll_and_dispatch() {
    let mut backend = backend(2);
    let op = match backend.submit_op(41u32) {
        Ok(op) => op,
        Err((error, _)) => panic!("submit: {:?}", error),
    };
    let woken = Arc::new(AtomicBool::new(false));
    let waker = Waker::from(Arc::new(WakeMarker(woken.clone())));
    assert!(matches!(backend.poll_op(&op, &waker), Poll::Pending));

    let dispatched = backend.dispatch_completions(&vec![Cqe { user_data: op.key().as_u64(), result: 12, flags: 0 }]);
    assert_eq!(dispatched.deferred.len(), 1);
    for action in dispatched.deferred {
        if let DeferredAction::Wake(waker) = action {
            waker.wake();
        }
    }
    assert!(woken.load(Ordering::SeqCst));
    match backend.poll_op(&op, &waker) {
        Poll::Ready(completion) => assert_eq!(completion.result.unwrap(), 12),
        Poll::Pending => panic!("completed operation is pending"),
    }
}

#[test]
fn failed_completion_carries_the_error_code() {
    let cqe = Cqe { user_data: 0, result: -libc::ENOENT, flags: 0 };
    let error = cqe.completion().result.unwrap_err();
    assert_eq!(error.raw_os_error(), Some(libc::ENOENT));
    assert_eq!(error.kind(), ErrorKind::NotFound);
}

#[test]
fn dropped_operation_keeps_its_payload_until_the_completion() {
    let mut backend = backend(2);
    let mut op = match backend.submit_op(77u32) {
        Ok(op) => op,
        Err((error, _)) => panic!("submit: {:?}", error),
    };
    let key = op.key();
    assert!(backend.remove_op(&mut op).is_none());
    assert!(op.data_ref().is_none());

    let dispatched = backend.dispatch_completions(&vec![Cqe { user_data: key.as_u64(), result: 3, flags: 0 }]);
    let mut cleaned = Vec::new();
    for action in dispatched.deferred {
        if let DeferredAction::Cleanup { payload: IgnoredOp::Typed(payload), completion } = action {
            cleaned.push((payload, completion.result.unwrap()));
        }
    }
    assert_eq!(cleaned, vec![(77, 3)]);

    // Only the first completion counts.
    let again = backend.dispatch_completions(&vec![Cqe { user_data: key.as_u64(), result: 3, flags: 0 }]);
    assert!(again.deferred.is_empty());
}

#[test]
fn cancel_is_pushed_once() {
    let mut backend = backend(2);
    let op = match backend.submit_op(5u32) {
        Ok(op) => op,
        Err((error, _)) => panic!("submit: {:?}", error),
    };
    assert!(backend.cancel_op(op.key()));
    // The queue was full: the request is still owed.
    assert_eq!(backend.cancel_retries(), vec![op.key()]);
    backend.cancel_pushed(op.key());
    assert!(backend.cancel_retries().is_empty());
    assert!(!backend.cancel_op(op.key()));
}

#[test]
fn wakeup_completion_rearms_the_wakeup_read() {
    let mut backend = backend(2);
    assert!(!backend.wakeup_read_armed());
    backend.arm_wakeup_read();
    assert!(backend.wakeup_read_armed());
    let dispatched =
        backend.dispatch_completions(&vec![Cqe { user_data: CompletionKey::wake_raw(), result: 8, flags: 0 }]);
    assert!(dispatched.rearm_wakeup);
    assert!(dispatched.deferred.is_empty());
}

#[test]
fn multishot_items_come_in_order_and_the_stream_ends() {
    let mut backend = backend(2);
    let op = match backend.submit_multi_op(6u32, MultishotCleanup::AcceptedFd, Some(4)) {
        Ok(op) => op,
        Err(error) => panic!("submit: {:?}", error),
    };
    let raw = op.key().as_u64();
    // Bit 1 says that more follow.
    let dispatched = backend.dispatch_completions(&vec![
        Cqe { user_data: raw, result: 20, flags: 2 },
        Cqe { user_data: raw, result: 21, flags: 2 },
        Cqe { user_data: raw, result: 22, flags: 0 },
    ]);
    assert!(dispatched.cancel.is_empty());
    let mut seen = Vec::new();
    loop {
        match backend.poll_multi_op(op.key(), Waker::noop()) {
            Poll::Ready(Some(completion)) => seen.push(completion.result.unwrap()),
            Poll::Ready(None) => break,
            Poll::Pending => panic!("finished stream is pending"),
        }
    }
    assert_eq!(seen, vec![20, 21, 22]);
}

#[test]
fn dropped_stream_closes_what_nobody_took() {
    let mut backend = backend(2);
    let mut op = match backend.submit_multi_op(6u32, MultishotCleanup::AcceptedFd, None) {
        Ok(op) => op,
        Err(error) => panic!("submit: {:?}", error),
    };
    let raw = op.key().as_u64();
    let _ = backend.dispatch_completions(&vec![Cqe { user_data: raw, result: 30, flags: 2 }]);
    let payload = *op.take_data().unwrap();
    let removed = backend.remove_multi_op(op.key(), payload);
    assert_eq!(removed.discarded, vec![Discarded::CloseFd(30)]);
    assert!(removed.push_cancel);

    let late = backend.dispatch_completions(&vec![Cqe { user_data: raw, result: 31, flags: 2 }]);
    assert_eq!(late.discarded, vec![Discarded::CloseFd(31)]);
    let last =
        backend.dispatch_completions(&vec![Cqe { user_data: raw, result: -libc::ECANCELED, flags: 0 }]);
    assert!(last.discarded.is_empty());
    assert_eq!(backend.shutdown_drain(), DrainStep::Done);
}

#[test]
fn buffer_pool_is_made_once() {
    let mut backend = backend(2);
    assert_eq!(backend.buffer_pool(), PoolRequest::Create { num_bufs: 4, buffer_len: 2048 });
    backend.buffer_pool_created();
    assert_eq!(backend.buffer_pool(), PoolRequest::Ready);
    assert!(backend.release_buffer_pool());
    assert!(!backend.release_buffer_pool());
    assert_eq!(backend.multishot_accept_capacity(), 16);
    assert_ne!(BufferPoolState::Ready, BufferPoolState::Uninit { num_bufs: 4, buffer_len: 2048 });
}

#[test]
fn shutdown_cancels_and_drains() {
    let mut backend = backend(4);
    backend.arm_wakeup_read();
    let op = match backend.submit_op(1u32) {
        Ok(op) => op,
        Err((error, _)) => panic!("submit: {:?}", error),
    };
    let key = op.key();
    assert!(backend.shutdown());
    assert!(!backend.shutdown());
    match backend.submit_op(2u32) {
        Ok(_) => panic!("a driver that shuts down takes no operation"),
        Err((error, payload)) => {
            assert_eq!(error.kind(), ErrorKind::BrokenPipe);
            assert_eq!(payload, 2);
        }
    }

    let mut stage = ShutdownStage::Flush;
    let mut pushed = Vec::new();
    let mut wake_cancels = 0;
    let mut steps = 0;
    loop {
        steps += 1;
        assert!(steps < 40, "shutdown does not end");
        let (next, action) = backend.shutdown_next(stage, true);
        stage = next;
        match action {
            ShutdownAction::Submit => {}
            ShutdownAction::Discard(discarded) => assert!(discarded.is_empty()),
            ShutdownAction::PushCancel(key) => {
                pushed.push(key);
                backend.cancel_pushed(key);
            }
            ShutdownAction::PushWakeCancel => wake_cancels += 1,
            ShutdownAction::WaitAndDispatch => {
                let mut batch = vec![Cqe { user_data: key.as_u64(), result: -libc::ECANCELED, flags: 0 }];
                if backend.wakeup_read_armed() {
                    batch.push(Cqe {
                        user_data: CompletionKey::wake_raw(),
                        result: -libc::ECANCELED,
                        flags: 0,
                    });
                }
                let _ = backend.dispatch_completions(&batch);
            }
            ShutdownAction::ReleasePool(release) => assert!(!release),
            ShutdownAction::Done => break,
        }
    }
    assert_eq!(pushed, vec![key]);
    assert_eq!(wake_cancels, 1);
    assert_eq!(backend.shutdown_drain(), DrainStep::Done);
}

#[test]
fn submitting_and_waiting_retry_where_that_helps() {
    assert!(matches!(submit_step(Ok(())), SubmitStep::Done));
    assert!(matches!(
        submit_step(Err(IoError::from_raw_os_error(libc::EBUSY))),
        SubmitStep::DispatchAndRetry
    ));
    assert!(matches!(submit_step(Err(IoError::from_raw_os_error(libc::EINTR))), SubmitStep::Retry));
    match submit_step(Err(IoError::from_raw_os_error(libc::EBADF))) {
        SubmitStep::Fail(error) => assert_eq!(error.raw_os_error(), Some(libc::EBADF)),
        _ => panic!("expected a failure"),
    }

    assert!(matches!(wait_step(Ok(3)), WaitStep::Done(3)));
    assert!(matches!(wait_step(Err(IoError::from_raw_os_error(libc::ETIME))), WaitStep::Done(0)));
    assert!(matches!(wait_step(Err(IoError::from_raw_os_error(libc::EINTR))), WaitStep::Retry));
    assert!(matches!(wait_step(Err(IoError::from_raw_os_error(libc::EBADF))), WaitStep::Fail(_)));
}

#[test]
fn completion_wakes_the_task_that_polled_last() {
    let mut backend = backend(2);
    let op = match backend.submit_op(41u32) {
        Ok(op) => op,
        Err((error, _)) => panic!("submit: {:?}", error),
    };
    let first = Arc::new(AtomicBool::new(false));
    let last = Arc::new(AtomicBool::new(false));
    let first_waker = Waker::from(Arc::new(WakeMarker(first.clone())));
    let last_waker = Waker::from(Arc::new(WakeMarker(last.clone())));
    assert!(matches!(backend.poll_op(&op, &first_waker), Poll::Pending));
    assert!(matches!(backend.poll_op(&op, &last_waker), Poll::Pending));
    let cqe = Cqe { user_data: op.key().as_u64(), result: 1, flags: 0 };
    for action in backend.dispatch_completions(&vec![cqe]).deferred {
        if let DeferredAction::Wake(waker) = action {
            waker.wake();
        }
    }
    assert!(!first.load(Ordering::SeqCst));
    assert!(last.load(Ordering::SeqCst));
}

#[test]
fn stale_keys_reach_no_later_operation() {
    let mut backend = backend(1);
    let mut submit = |payload: u32| match backend.submit_op(payload) {
        Ok(op) => op,
        Err((error, _)) => panic!("submit: {:?}", error),
    };
    let first = submit(1);
    let stale = first.key();
    backend.abort_submission(stale);
    let second = match backend.submit_op(2) {
        Ok(op) => op,
        Err((error, _)) => panic!("submit: {:?}", error),
    };
    assert_ne!(second.key(), stale);
    assert!(!backend.cancel_op(stale));
    let late = backend.dispatch_completions(&vec![Cqe { user_data: stale.as_u64(), result: 9, flags: 0 }]);
    assert!(late.deferred.is_empty());
    assert!(matches!(backend.poll_op(&second, Waker::noop()), Poll::Pending));
}

#[test]
fn limited_streams_end_with_the_capacity_error() {
    let mut backend = backend(2);
    let op = match backend.submit_multi_op(6u32, MultishotCleanup::AcceptedFd, Some(2)) {
        Ok(op) => op,
        Err(error) => panic!("submit: {:?}", error),
    };
    let raw = op.key().as_u64();
    let more = |result: i32| Cqe { user_data: raw, result, flags: 2 };
    let _ = backend.dispatch_completions(&vec![more(20)]);
    let mut seen = Vec::new();
    if let Poll::Ready(Some(completion)) = backend.poll_multi_op(op.key(), Waker::noop()) {
        seen.push(completion.result.unwrap());
    }
    // The taken item makes room for another one; the fourth is one too many.
    let overflow = backend.dispatch_completions(&vec![more(21), more(22), more(23), more(24)]);
    assert_eq!(overflow.discarded, vec![Discarded::CloseFd(23), Discarded::CloseFd(24)]);
    assert_eq!(overflow.cancel, vec![op.key()]);
    let _ = backend.dispatch_completions(&vec![Cqe { user_data: raw, result: -libc::ECANCELED, flags: 0 }]);
    let mut failed = Vec::new();
    loop {
        match backend.poll_multi_op(op.key(), Waker::noop()) {
            Poll::Ready(Some(completion)) => match completion.result {
                Ok(fd) => {
                    assert!(failed.is_empty(), "an item after the error");
                    seen.push(fd);
                }
                Err(error) => failed.push(error.kind()),
            },
            Poll::Ready(None) => break,
            Poll::Pending => panic!("finished stream is pending"),
        }
    }
    assert_eq!(seen, vec![20, 21, 22]);
    assert_eq!(failed, vec![ErrorKind::ResourceBusy]);
}

#[test]
fn shutdown_cleans_up_before_the_pool_is_released() {
    let mut backend = backend(4);
    let mut op = match backend.submit_op(77u32) {
        Ok(op) => op,
        Err((error, _)) => panic!("submit: {:?}", error),
    };
    let key = op.key();
    assert!(backend.remove_op(&mut op).is_none());
    assert!(backend.shutdown());
    let mut stage = ShutdownStage::Flush;
    let mut cleaned = Vec::new();
    let mut released = false;
    loop {
        let (next, action) = backend.shutdown_next(stage, true);
        stage = next;
        match action {
            ShutdownAction::PushCancel(pushed) => backend.cancel_pushed(pushed),
            ShutdownAction::WaitAndDispatch => {
                assert!(!released);
                let late = Cqe { user_data: key.as_u64(), result: -libc::ECANCELED, flags: 0 };
                for action in backend.dispatch_completions(&vec![late]).deferred {
                    if let DeferredAction::Cleanup { payload: IgnoredOp::Typed(payload), .. } = action {
                        cleaned.push(payload);
                    }
                }
            }
            ShutdownAction::ReleasePool(_) => {
                assert_eq!(cleaned, vec![77]);
                released = true;
            }
            ShutdownAction::Done => break,
            _ => {}
        }
    }
    assert!(released);
    assert_eq!(cleaned, vec![77]);
}
