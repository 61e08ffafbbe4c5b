//! Task wakers and the outcome of polling.
use std::task::Waker;
use vstd::prelude::*;

verus! {

/// [`std::task::Waker`], carried through the lifecycles without being looked into.
#[verifier::external_type_specification]
#[verifier::external_body]
pub struct ExWaker(std::task::Waker);

/// Outcome of one poll.
#[derive(Debug)]
pub enum Poll<T> {
    Ready(T),
    Pending,
}

/// [`Waker::will_wake`]: whether both wakers are known to wake the same task.
///
/// Nothing is claimed of the answer. The standard library compares the wakers
/// by address and may answer `false` for two wakers of one task.
#[verifier::external_body]
fn will_wake(registered: &Waker, current: &Waker) -> (same: bool) {
    registered.will_wake(current)
}

/// [`Waker::clone`](Clone::clone): another handle to the task of `waker`.
///
/// Nothing is claimed of the handle. What wakes the task is known only to the
/// executor that made the waker.
#[verifier::external_body]
fn clone_waker(waker: &Waker) -> (handle: Waker) {
    waker.clone()
}

/// Whether this may be the answer to the question if the registered waker
/// already wakes the task of `current`.
pub closed spec fn judged(registered: Waker, current: Waker, same: bool) -> bool {
    call_ensures(will_wake, (&registered, &current), same)
}

/// Whether a handle was cloned from this waker.
pub closed spec fn cloned_from(waker: Waker, handle: Waker) -> bool {
    call_ensures(clone_waker, (&waker,), handle)
}

/// What a task that polls with `waker` brings: a handle of its own, and the
/// answer to whether the registered waker, if there is one, wakes it already.
pub open spec fn brought(registered: Option<Waker>, waker: Waker, handle: Waker, same: bool) -> bool {
    &&& cloned_from(waker, handle)
    &&& registered matches Some(registered) ==> judged(registered, waker, same)
}

/// Ask if the registered waker already wakes the task of `current`.
pub(crate) fn wakes_already(registered: &Waker, current: &Waker) -> (same: bool)
    ensures
        judged(*registered, *current, same),
{
    will_wake(registered, current)
}

/// What a task that polls with `waker` brings.
pub(crate) fn bring(registered: Option<&Waker>, waker: &Waker) -> (task: (Waker, bool))
    ensures
        brought(
            match registered {
                Some(registered) => Some(*registered),
                None => None,
            },
            *waker,
            task.0,
            task.1,
        ),
{
    let same = match registered {
        Some(registered) => will_wake(registered, waker),
        None => false,
    };
    (clone_waker(waker), same)
}

/// The waker to keep when a task polls again: the registered one if it already
/// wakes that task, the polling task's own otherwise.
pub open spec fn refreshed(registered: Waker, current: Waker, same: bool) -> Waker {
    if same {
        registered
    } else {
        current
    }
}

/// Whoever polled last is woken: through the waker that it brought, unless the one
/// that is registered wakes the same task.
pub proof fn law_last_poll_is_woken(registered: Waker, current: Waker)
    ensures
        refreshed(registered, current, false) == current,
        refreshed(registered, current, true) == registered,
{
}

} // verus!
