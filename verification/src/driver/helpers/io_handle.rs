//! Shared ownership of an OS resource for completion-based I/O.
//!
//! Operations in flight share the resource with its owner, so that it cannot be
//! closed under them. Whoever wants to close it waits for the last of them.
use crate::error::{ErrorKind, IoError};
use crate::task::{bring, Poll};
use std::task::Waker;
use vstd::prelude::*;

verus! {

/// A resource as the platform names it.
#[derive(Clone, Copy, Debug, PartialEq, Eq, Structural)]
pub enum OsRawHandle {
    Fd(i32),
    Handle(usize),
    Socket(usize),
}

/// A Windows file handle or socket.
#[derive(Clone, Copy, Debug, PartialEq, Eq, Structural)]
pub enum WindowsRawHandle {
    Handle(usize),
    Socket(usize),
}

impl WindowsRawHandle {
    pub open spec fn spec_as_handle(self) -> usize {
        match self {
            WindowsRawHandle::Handle(handle) => handle,
            WindowsRawHandle::Socket(socket) => socket,
        }
    }

    /// The handle to associate with a completion port.
    pub fn as_handle(self) -> (handle: usize)
        ensures
            handle == self.spec_as_handle(),
    {
        match self {
            WindowsRawHandle::Handle(handle) => handle,
            WindowsRawHandle::Socket(socket) => socket,
        }
    }
}

/// The driver that a handle is associated with, if any.
#[derive(Clone, Copy, Debug, PartialEq, Eq, Structural)]
pub enum AssociationState {
    Unassociated,
    Associated(usize),
}

/// The error of a handle that belongs to another driver.
pub open spec fn belongs_elsewhere() -> IoError {
    IoError::Custom {
        kind: ErrorKind::AlreadyExists,
        message: "I/O handle is already associated with another karmaio driver",
    }
}

impl AssociationState {
    /// Associate a handle with a driver, once.
    ///
    /// A handle that has a driver keeps it: asking for the same one again is
    /// fine, and asking for another one is refused. Where registering fails,
    /// the handle stays free to try again.
    pub fn associate<F: FnOnce(usize) -> Result<(), IoError>>(
        &mut self,
        raw: WindowsRawHandle,
        registrar: usize,
        register: F,
    ) -> (result: Result<(), IoError>)
        requires
            *old(self) == AssociationState::Unassociated ==> call_requires(register, (raw.spec_as_handle(),)),
        ensures
            match *old(self) {
                AssociationState::Associated(current) => {
                    &&& *final(self) == *old(self)
                    &&& result is Ok <==> current == registrar
                    &&& result matches Err(error) ==> error == belongs_elsewhere()
                },
                AssociationState::Unassociated => {
                    &&& call_ensures(register, (raw.spec_as_handle(),), result)
                    &&& *final(self) == (if result is Ok {
                        AssociationState::Associated(registrar)
                    } else {
                        AssociationState::Unassociated
                    })
                },
            },
    {
        if let AssociationState::Associated(current) = *self {
            if current == registrar {
                return Ok(());
            }
            return Err(
                IoError::new(
                    ErrorKind::AlreadyExists,
                    "I/O handle is already associated with another karmaio driver",
                ),
            );
        }
        let result = register(raw.as_handle());
        if result.is_ok() {
            *self = AssociationState::Associated(registrar);
        }
        result
    }
}

/// A handle and the driver that it is associated with.
pub struct HandleRegistration {
    association: AssociationState,
    raw: WindowsRawHandle,
}

impl HandleRegistration {
    pub closed spec fn spec_association(&self) -> AssociationState {
        self.association
    }

    pub closed spec fn spec_raw(&self) -> WindowsRawHandle {
        self.raw
    }

    /// A handle without a driver.
    pub fn new(raw: WindowsRawHandle) -> (registration: Self)
        ensures
            registration.spec_association() == AssociationState::Unassociated,
            registration.spec_raw() == raw,
    {
        HandleRegistration { association: AssociationState::Unassociated, raw }
    }

    /// Associate the handle with a driver, once.
    pub fn associate<F: FnOnce(usize) -> Result<(), IoError>>(&mut self, registrar: usize, register: F) -> (result: Result<
        (),
        IoError,
    >)
        requires
            old(self).spec_association() is Unassociated ==> call_requires(
                register,
                (old(self).spec_raw().spec_as_handle(),),
            ),
        ensures
            final(self).spec_raw() == old(self).spec_raw(),
            match old(self).spec_association() {
                AssociationState::Associated(current) => {
                    &&& final(self).spec_association() == old(self).spec_association()
                    &&& result is Ok <==> current == registrar
                    &&& result matches Err(error) ==> error == belongs_elsewhere()
                },
                AssociationState::Unassociated => {
                    &&& call_ensures(register, (old(self).spec_raw().spec_as_handle(),), result)
                    &&& final(self).spec_association() == (if result is Ok {
                        AssociationState::Associated(registrar)
                    } else {
                        AssociationState::Unassociated
                    })
                },
            },
    {
        self.association.associate(self.raw, registrar, register)
    }
}

enum HandleState {
    Init,
    /// Somebody waits to be the only owner.
    Waiting(Waker),
    /// The resource was taken.
    Closed,
}

/// A resource, its owners, and whoever waits to be the only one of them.
pub struct SharedIoHandle<T> {
    resource: Option<T>,
    owners: usize,
    state: HandleState,
    association: AssociationState,
}

impl<T> SharedIoHandle<T> {
    pub closed spec fn spec_resource(&self) -> Option<T> {
        self.resource
    }

    /// How many handles share the resource.
    pub closed spec fn spec_owners(&self) -> usize {
        self.owners
    }

    /// Who waits to be the only owner.
    pub closed spec fn spec_waiting(&self) -> Option<Waker> {
        match self.state {
            HandleState::Waiting(waker) => Some(waker),
            _ => None,
        }
    }

    pub closed spec fn spec_association(&self) -> AssociationState {
        self.association
    }

    /// A resource is taken by its only owner, and then there is none to wait
    /// for.
    pub closed spec fn wf(&self) -> bool {
        &&& self.state is Closed <==> self.resource is None
        &&& self.state is Closed ==> self.owners <= 1
    }

    /// Share a resource. There is one owner at first.
    pub fn new(resource: T) -> (handle: Self)
        ensures
            handle.wf(),
            handle.spec_resource() == Some(resource),
            handle.spec_owners() == 1,
            handle.spec_waiting() is None,
            handle.spec_association() == AssociationState::Unassociated,
    {
        SharedIoHandle {
            resource: Some(resource),
            owners: 1,
            state: HandleState::Init,
            association: AssociationState::Unassociated,
        }
    }

    /// The resource, for use in place. It must not have been taken.
    pub fn resource(&self) -> (resource: &T)
        requires
            self.wf(),
            self.spec_resource() is Some,
        ensures
            *resource == self.spec_resource()->0,
    {
        self.resource.as_ref().unwrap()
    }

    /// Add an owner.
    pub fn share(&mut self)
        requires
            old(self).wf(),
            old(self).spec_resource() is Some,
            old(self).spec_owners() < usize::MAX,
        ensures
            final(self).wf(),
            final(self).spec_owners() == old(self).spec_owners() + 1,
            final(self).spec_resource() == old(self).spec_resource(),
            final(self).spec_waiting() == old(self).spec_waiting(),
            final(self).spec_association() == old(self).spec_association(),
    {
        self.owners = self.owners + 1;
    }

    /// Take away an owner. Answers with the waker of whoever waits to be the
    /// only one: it has to look again.
    pub fn release(&mut self) -> (wake: Option<Waker>)
        requires
            old(self).wf(),
            old(self).spec_owners() > 0,
        ensures
            final(self).wf(),
            final(self).spec_owners() == old(self).spec_owners() - 1,
            wake == old(self).spec_waiting(),
            final(self).spec_waiting() is None,
            final(self).spec_resource() == old(self).spec_resource(),
            final(self).spec_association() == old(self).spec_association(),
            released_as(old(self), final(self), wake),
    {
        self.owners = self.owners - 1;
        let mut state = HandleState::Init;
        std::mem::swap(&mut self.state, &mut state);
        match state {
            HandleState::Waiting(waker) => Some(waker),
            HandleState::Init => None,
            HandleState::Closed => {
                self.state = HandleState::Closed;
                None
            },
        }
    }

    /// Take the resource, unless it was taken before.
    pub fn take_owned(&mut self) -> (resource: Option<T>)
        requires
            old(self).wf(),
            old(self).spec_owners() <= 1,
        ensures
            final(self).wf(),
            resource == old(self).spec_resource(),
            final(self).spec_resource() is None,
            final(self).spec_owners() == old(self).spec_owners(),
            final(self).spec_waiting() is None,
            final(self).spec_association() == old(self).spec_association(),
    {
        if let HandleState::Closed = &self.state {
            return None;
        }
        self.state = HandleState::Closed;
        self.resource.take()
    }

    /// Give up the handle for its resource. This works only for the only owner,
    /// and does not close the resource.
    pub fn try_unwrap(self) -> (unwrapped: Result<T, Self>)
        requires
            self.wf(),
            self.spec_owners() == 1 ==> self.spec_resource() is Some,
        ensures
            unwrapped is Ok <==> self.spec_owners() == 1,
            unwrapped matches Ok(resource) ==> self.spec_resource() == Some(resource),
            unwrapped matches Err(handle) ==> handle == self,
    {
        if self.owners == 1 {
            Ok(self.resource.unwrap())
        } else {
            Err(self)
        }
    }

    /// One look at whether there is only one owner left, on behalf of a task
    /// with this waker. `same` says whether the waker that waits, if one does,
    /// is known to wake the same task.
    pub fn poll_unique_as(&mut self, current: Waker, same: bool) -> (polled: Poll<()>)
        requires
            old(self).wf(),
        ensures
            final(self).wf(),
            unique_polled_as(old(self), current, same, final(self), polled),
    {
        if self.owners == 1 {
            return Poll::Ready(());
        }
        match &mut self.state {
            HandleState::Init => {
                self.state = HandleState::Waiting(current);
                Poll::Pending
            },
            HandleState::Waiting(waker) => {
                if !same {
                    *waker = current;
                }
                Poll::Pending
            },
            HandleState::Closed => Poll::Ready(()),
        }
    }

    /// One look at whether there is only one owner left.
    pub fn poll_unique(&mut self, waker: &Waker) -> (polled: Poll<()>)
        requires
            old(self).wf(),
        ensures
            final(self).wf(),
            exists|current: Waker, same: bool| #[trigger]
                unique_polled_as(old(self), current, same, final(self), polled) && crate::task::brought(
                    old(self).spec_waiting(),
                    *waker,
                    current,
                    same,
                ),
    {
        let registered = match &self.state {
            HandleState::Waiting(registered) => Some(registered),
            _ => None,
        };
        let (current, same) = bring(registered, waker);
        self.poll_unique_as(current, same)
    }

    /// One attempt to take the resource, on behalf of a task with this waker:
    /// it is there for its only owner. Anybody else waits.
    pub fn poll_take_as(&mut self, current: Waker, same: bool) -> (polled: Poll<Option<T>>)
        requires
            old(self).wf(),
            old(self).spec_owners() > 0,
        ensures
            final(self).wf(),
            take_polled_as(old(self), current, same, final(self), polled),
    {
        if self.owners == 1 {
            return Poll::Ready(self.take_owned());
        }
        let _ = self.poll_unique_as(current, same);
        Poll::Pending
    }

    /// One attempt to take the resource: it is there for its only owner. Anybody
    /// else waits.
    pub fn poll_take(&mut self, waker: &Waker) -> (polled: Poll<Option<T>>)
        requires
            old(self).wf(),
            old(self).spec_owners() > 0,
        ensures
            final(self).wf(),
            exists|current: Waker, same: bool| #[trigger]
                take_polled_as(old(self), current, same, final(self), polled) && crate::task::brought(
                    old(self).spec_waiting(),
                    *waker,
                    current,
                    same,
                ),
    {
        let registered = match &self.state {
            HandleState::Waiting(registered) => Some(registered),
            _ => None,
        };
        let (current, same) = bring(registered, waker);
        self.poll_take_as(current, same)
    }

    /// Associate the resource with a driver, once.
    pub fn associate<F: FnOnce(usize) -> Result<(), IoError>>(
        &mut self,
        raw: WindowsRawHandle,
        registrar: usize,
        register: F,
    ) -> (result: Result<(), IoError>)
        requires
            old(self).wf(),
            old(self).spec_association() is Unassociated ==> call_requires(register, (raw.spec_as_handle(),)),
        ensures
            final(self).wf(),
            final(self).spec_resource() == old(self).spec_resource(),
            final(self).spec_owners() == old(self).spec_owners(),
            final(self).spec_waiting() == old(self).spec_waiting(),
            match old(self).spec_association() {
                AssociationState::Associated(current) => {
                    &&& final(self).spec_association() == old(self).spec_association()
                    &&& result is Ok <==> current == registrar
                    &&& result matches Err(error) ==> error == belongs_elsewhere()
                },
                AssociationState::Unassociated => {
                    &&& call_ensures(register, (raw.spec_as_handle(),), result)
                    &&& final(self).spec_association() == (if result is Ok {
                        AssociationState::Associated(registrar)
                    } else {
                        AssociationState::Unassociated
                    })
                },
            },
    {
        self.association.associate(raw, registrar, register)
    }
}

/// The outcome of taking an owner away: whoever waits to be the only one is told.
pub open spec fn released_as<T>(before: &SharedIoHandle<T>, after: &SharedIoHandle<T>, wake: Option<Waker>) -> bool {
    &&& after.spec_owners() == before.spec_owners() - 1
    &&& after.spec_resource() == before.spec_resource()
    &&& after.spec_association() == before.spec_association()
    &&& after.spec_waiting() is None
    &&& wake == before.spec_waiting()
}

/// The outcome of one look at whether there is only one owner left.
pub open spec fn unique_polled_as<T>(
    before: &SharedIoHandle<T>,
    current: Waker,
    same: bool,
    after: &SharedIoHandle<T>,
    polled: Poll<()>,
) -> bool {
    &&& after.spec_owners() == before.spec_owners()
    &&& after.spec_resource() == before.spec_resource()
    &&& after.spec_association() == before.spec_association()
    &&& polled is Ready <==> before.spec_owners() == 1 || before.spec_resource() is None
    &&& after.spec_waiting() == (if polled is Ready {
        before.spec_waiting()
    } else {
        Some(
            match before.spec_waiting() {
                Some(registered) => crate::task::refreshed(registered, current, same),
                None => current,
            },
        )
    })
}

/// The outcome of one attempt to take the resource.
pub open spec fn take_polled_as<T>(
    before: &SharedIoHandle<T>,
    current: Waker,
    same: bool,
    after: &SharedIoHandle<T>,
    polled: Poll<Option<T>>,
) -> bool {
    &&& after.spec_owners() == before.spec_owners()
    &&& after.spec_association() == before.spec_association()
    &&& if before.spec_owners() == 1 {
        &&& polled == Poll::Ready(before.spec_resource())
        &&& after.spec_resource() is None
        &&& after.spec_waiting() is None
    } else {
        &&& polled is Pending
        &&& after.spec_resource() == before.spec_resource()
        &&& after.spec_waiting() == Some(
            match before.spec_waiting() {
                Some(registered) => crate::task::refreshed(registered, current, same),
                None => current,
            },
        )
    }
}

/// What closing a resource comes to.
#[derive(Debug)]
pub enum CloseStep<T> {
    /// Submit the resource for closing.
    Submit(T),
    /// It was closed before.
    AlreadyClosed,
}

/// Close what was taken, if anything was.
pub fn close_step<T>(taken: Option<T>) -> (step: CloseStep<T>)
    ensures
        step == (match taken {
            Some(resource) => CloseStep::Submit(resource),
            None => CloseStep::AlreadyClosed,
        }),
{
    match taken {
        Some(resource) => CloseStep::Submit(resource),
        None => CloseStep::AlreadyClosed,
    }
}

/// How the closing of a resource goes on.
#[derive(Debug)]
pub enum Closing<O> {
    /// The driver closes the resource.
    Await(O),
    /// The driver would not: close the resource at once, and report the error.
    CloseNow { raw: OsRawHandle, error: IoError },
}

/// Take what submitting a resource for closing came to. Either way it is closed
/// once.
pub fn close_submitted<O>(raw: OsRawHandle, submitted: Result<O, IoError>) -> (closing: Closing<O>)
    ensures
        closing == (match submitted {
            Ok(op) => Closing::Await(op),
            Err(error) => Closing::CloseNow { raw, error },
        }),
{
    match submitted {
        Ok(op) => Closing::Await(op),
        Err(error) => Closing::CloseNow { raw, error },
    }
}

/// A resource is not taken while somebody else shares it: whoever wants to take it
/// waits, and is told, through the waker that it left last, as soon as another owner
/// is gone. Once it is the only one, it gets the resource, and nobody gets it again.
pub proof fn law_resource_is_taken_by_the_last_owner<T>(
    shared: SharedIoHandle<T>,
    current: Waker,
    same: bool,
    awaited: SharedIoHandle<T>,
    polled: Poll<Option<T>>,
    alone: SharedIoHandle<T>,
    wake: Option<Waker>,
    later: Waker,
    still: bool,
    taken: SharedIoHandle<T>,
    resource: Poll<Option<T>>,
    end: SharedIoHandle<T>,
    again: Poll<Option<T>>,
)
    requires
        shared.spec_owners() >= 2,
        take_polled_as(&shared, current, same, &awaited, polled),
        released_as(&awaited, &alone, wake),
        take_polled_as(&alone, later, still, &taken, resource),
        take_polled_as(&taken, later, still, &end, again),
    ensures
        polled is Pending,
        awaited.spec_resource() == shared.spec_resource(),
        awaited.spec_owners() == shared.spec_owners(),
        !same || shared.spec_waiting() is None ==> wake == Some(current),
        same && shared.spec_waiting() is Some ==> wake == shared.spec_waiting(),
        alone.spec_owners() == shared.spec_owners() - 1,
        shared.spec_owners() == 2 ==> resource == Poll::Ready(shared.spec_resource()) && again == Poll::Ready(None::<T>),
        shared.spec_owners() > 2 ==> resource is Pending && taken.spec_resource() == shared.spec_resource(),
{
}

/// To be the only owner is to have no other, or to find the resource gone. Whoever
/// waits for it is told as soon as another owner is gone.
pub proof fn law_only_owner_is_told<T>(
    shared: SharedIoHandle<T>,
    current: Waker,
    same: bool,
    awaited: SharedIoHandle<T>,
    polled: Poll<()>,
    alone: SharedIoHandle<T>,
    wake: Option<Waker>,
)
    requires
        unique_polled_as(&shared, current, same, &awaited, polled),
        released_as(&awaited, &alone, wake),
    ensures
        polled is Ready <==> shared.spec_owners() == 1 || shared.spec_resource() is None,
        awaited.spec_resource() == shared.spec_resource(),
        awaited.spec_owners() == shared.spec_owners(),
        polled is Pending && (!same || shared.spec_waiting() is None) ==> wake == Some(current),
        polled is Pending && same && shared.spec_waiting() is Some ==> wake == shared.spec_waiting(),
{
}

/// A handle goes to the completion port by its own number, be it a file's or a
/// socket's.
pub proof fn law_handles_keep_their_numbers(number: usize, file: usize, socket: usize)
    requires
        call_ensures(WindowsRawHandle::as_handle, (WindowsRawHandle::Handle(number),), file),
        call_ensures(WindowsRawHandle::as_handle, (WindowsRawHandle::Socket(number),), socket),
    ensures
        file == number,
        socket == number,
{
}

/// A resource is closed once, by the driver or, where that would not, at once; nothing
/// is closed that was closed before.
pub proof fn law_resource_is_closed_once<T, O>(
    taken: Option<T>,
    step: CloseStep<T>,
    raw: OsRawHandle,
    submitted: Result<O, IoError>,
    closing: Closing<O>,
)
    requires
        call_ensures(close_step::<T>, (taken,), step),
        call_ensures(close_submitted::<O>, (raw, submitted), closing),
    ensures
        taken matches Some(resource) ==> step == CloseStep::Submit(resource),
        taken is None ==> step is AlreadyClosed,
        submitted matches Ok(op) ==> closing == Closing::Await(op),
        submitted matches Err(error) ==> closing == (Closing::<O>::CloseNow { raw, error }),
{
}

} // verus!
