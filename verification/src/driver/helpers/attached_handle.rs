//! Handles that belong to the driver of the running runtime.
use crate::driver::helpers::io_handle::{AssociationState, SharedIoHandle, WindowsRawHandle};
use crate::error::{ErrorKind, IoError};
use vstd::prelude::*;

verus! {

/// The driver of the running runtime. `alive` says whether it is still there.
pub fn current_driver<H>(current: Option<H>, alive: bool) -> (driver: Result<H, IoError>)
    ensures
        driver is Ok <==> current is Some && alive,
        driver matches Ok(driver) ==> current == Some(driver),
        driver matches Err(error) ==> error == (if current is None {
            IoError::Custom {
                kind: ErrorKind::NotConnected,
                message: "handle attachment requires a running karmaio runtime",
            }
        } else {
            IoError::Custom {
                kind: ErrorKind::BrokenPipe,
                message: "karmaio runtime is no longer available for handle attachment",
            }
        }),
{
    match current {
        None => Err(
            IoError::new(
                ErrorKind::NotConnected,
                "handle attachment requires a running karmaio runtime",
            ),
        ),
        Some(driver) => if alive {
            Ok(driver)
        } else {
            Err(
                IoError::new(
                    ErrorKind::BrokenPipe,
                    "karmaio runtime is no longer available for handle attachment",
                ),
            )
        },
    }
}

/// A shared resource that is ready for the driver of the running runtime.
///
/// A completion port has to know a handle before it is used, and a handle
/// belongs to one port for good. The other drivers need no registration.
pub struct AttachedHandle<T> {
    source: SharedIoHandle<T>,
}

impl<T> AttachedHandle<T> {
    pub closed spec fn spec_source(&self) -> SharedIoHandle<T> {
        self.source
    }

    /// A handle that is taken to be ready.
    pub fn new_unchecked(source: T) -> (handle: Self)
        ensures
            handle.spec_source().wf(),
            handle.spec_source().spec_resource() == Some(source),
            handle.spec_source().spec_owners() == 1,
            handle.spec_source().spec_waiting() is None,
            handle.spec_source().spec_association() == AssociationState::Unassociated,
    {
        AttachedHandle { source: SharedIoHandle::new(source) }
    }

    /// A handle for a driver that needs no registration.
    pub fn new(source: T) -> (handle: Result<Self, IoError>)
        ensures
            handle matches Ok(handle) && handle.spec_source().wf()
                && handle.spec_source().spec_resource() == Some(source)
                && handle.spec_source().spec_owners() == 1
                && handle.spec_source().spec_waiting() is None
                && handle.spec_source().spec_association() == AssociationState::Unassociated,
    {
        Ok(AttachedHandle::new_unchecked(source))
    }

    /// A handle that is registered with a completion port. `driver` is the
    /// registrar of the running runtime, or why there is none.
    pub fn new_registered<F: FnOnce(usize) -> Result<(), IoError>>(
        source: T,
        raw: WindowsRawHandle,
        driver: Result<usize, IoError>,
        register: F,
    ) -> (handle: Result<Self, IoError>)
        requires
            driver is Ok ==> call_requires(register, (raw.spec_as_handle(),)),
        ensures
            driver matches Err(error) ==> handle == Err::<Self, IoError>(error),
            driver matches Ok(registrar) ==> exists|registered: Result<(), IoError>| #[trigger]
                call_ensures(register, (raw.spec_as_handle(),), registered) && match registered {
                    Ok(_) => {
                        &&& handle matches Ok(handle)
                        &&& handle.spec_source().wf()
                        &&& handle.spec_source().spec_resource() == Some(source)
                        &&& handle.spec_source().spec_owners() == 1
                        &&& handle.spec_source().spec_waiting() is None
                        &&& handle.spec_source().spec_association() == AssociationState::Associated(registrar)
                    },
                    Err(error) => handle == Err::<Self, IoError>(error),
                },
    {
        let mut source = SharedIoHandle::new(source);
        let registrar = match driver {
            Ok(registrar) => registrar,
            Err(error) => {
                return Err(error);
            },
        };
        match source.associate(raw, registrar, register) {
            Ok(()) => Ok(AttachedHandle { source }),
            Err(error) => Err(error),
        }
    }

    /// A socket that is registered with a completion port.
    pub fn new_socket<F: FnOnce(usize) -> Result<(), IoError>>(
        source: T,
        socket: usize,
        driver: Result<usize, IoError>,
        register: F,
    ) -> (handle: Result<Self, IoError>)
        requires
            driver is Ok ==> call_requires(register, (socket,)),
        ensures
            driver matches Err(error) ==> handle == Err::<Self, IoError>(error),
            driver matches Ok(registrar) ==> exists|registered: Result<(), IoError>| #[trigger]
                call_ensures(register, (socket,), registered) && match registered {
                    Ok(_) => {
                        &&& handle matches Ok(handle)
                        &&& handle.spec_source().wf()
                        &&& handle.spec_source().spec_resource() == Some(source)
                        &&& handle.spec_source().spec_owners() == 1
                        &&& handle.spec_source().spec_waiting() is None
                        &&& handle.spec_source().spec_association() == AssociationState::Associated(registrar)
                    },
                    Err(error) => handle == Err::<Self, IoError>(error),
                },
    {
        AttachedHandle::new_registered(source, WindowsRawHandle::Socket(socket), driver, register)
    }

    /// Give up the attachment for what is shared.
    pub fn into_inner(self) -> (source: SharedIoHandle<T>)
        ensures
            source == self.spec_source(),
    {
        self.source
    }

    /// Give up the handle for its resource, as its only owner.
    pub fn try_unwrap(self) -> (unwrapped: Result<T, Self>)
        requires
            self.spec_source().wf(),
            self.spec_source().spec_owners() == 1 ==> self.spec_source().spec_resource() is Some,
        ensures
            unwrapped is Ok <==> self.spec_source().spec_owners() == 1,
            unwrapped matches Ok(resource) ==> self.spec_source().spec_resource() == Some(resource),
            unwrapped matches Err(handle) ==> handle == self,
    {
        match self.source.try_unwrap() {
            Ok(resource) => Ok(resource),
            Err(source) => Err(AttachedHandle { source }),
        }
    }
}

} // verus!
