//! Operations that make connections.
use crate::driver::backends::iouring::MultishotCleanup;
use crate::driver::backends::kqueue::Direction;
use crate::driver::ops::request::{IocpCall, KqueueCall, UringRequest};
use crate::driver::ops::Completion;
use crate::error::{ErrorKind, IoError};
use vstd::prelude::*;

verus! {

/// A new descriptor is not handed to child processes.
pub const SOCK_CLOEXEC: i32 = 0x80000;

/// A new descriptor does not block.
pub const SOCK_NONBLOCK: i32 = 0x800;

/// The outcome of an operation that has nothing to tell but success.
pub open spec fn spec_unit<C>(completion: Completion<C>) -> Result<(), IoError> {
    match completion.result {
        Ok(_) => Ok(()),
        Err(error) => Err(error),
    }
}

/// Take the completion of an operation that has nothing to tell but success.
pub fn finish_unit<C>(completion: Completion<C>) -> (result: Result<(), IoError>)
    ensures
        result == spec_unit(completion),
{
    match completion.result {
        Ok(_) => Ok(()),
        Err(error) => Err(error),
    }
}

/// The outcome of taking over a new socket: first it is claimed, so that it is
/// closed if anything fails later, then it is configured.
pub open spec fn adopted<K, S, F: FnOnce(K) -> Result<S, IoError>, G: FnOnce(&S) -> Result<(), IoError>>(
    new: K,
    claim: F,
    configure: G,
    result: Result<S, IoError>,
) -> bool {
    exists|claimed: Result<S, IoError>| #[trigger]
        call_ensures(claim, (new,), claimed) && match claimed {
            Err(error) => result == Err::<S, IoError>(error),
            Ok(socket) => exists|configured: Result<(), IoError>| #[trigger]
                call_ensures(configure, (&socket,), configured) && match configured {
                    Err(error) => result == Err::<S, IoError>(error),
                    Ok(_) => result == Ok::<S, IoError>(socket),
                },
        }
}

/// Take over a new socket.
fn adopt<K, S, F: FnOnce(K) -> Result<S, IoError>, G: FnOnce(&S) -> Result<(), IoError>>(
    new: K,
    claim: F,
    configure: G,
) -> (result: Result<S, IoError>)
    requires
        call_requires(claim, (new,)),
        forall|socket: S|
            call_ensures(claim, (new,), Ok(socket)) ==> #[trigger] call_requires(configure, (&socket,)),
    ensures
        adopted(new, claim, configure, result),
{
    let socket = match claim(new) {
        Ok(socket) => socket,
        Err(error) => {
            return Err(error);
        },
    };
    match configure(&socket) {
        Ok(()) => Ok(socket),
        Err(error) => Err(error),
    }
}

/// Accept a connection.
pub struct Accept<H> {
    pub io_handle: H,
    /// Windows: the socket that is to become the connection.
    pub accepted_socket: Option<usize>,
}

impl<H> Accept<H> {
    /// What to ask of io_uring, given the descriptor of the listener.
    pub fn submit(&self, fd: i32) -> (request: UringRequest)
        ensures
            request == (UringRequest::Accept { fd, flags: SOCK_CLOEXEC | SOCK_NONBLOCK }),
    {
        UringRequest::Accept { fd, flags: SOCK_CLOEXEC | SOCK_NONBLOCK }
    }

    /// How to accept where the kernel tells only of readiness.
    pub fn attempt(&self) -> (call: KqueueCall)
        ensures
            call == KqueueCall::OnReadiness(Direction::Read),
    {
        KqueueCall::OnReadiness(Direction::Read)
    }

    /// How to accept on Windows.
    pub fn submit_overlapped(&self) -> (call: IocpCall)
        ensures
            call == IocpCall::Connection,
    {
        IocpCall::Connection
    }

    /// Windows: the socket that is to become the connection. It is made once
    /// and used again if the submission is repeated.
    pub fn accept_socket<F: FnOnce() -> Result<usize, IoError>>(&mut self, create: F) -> (socket: Result<
        usize,
        IoError,
    >)
        requires
            old(self).accepted_socket is None ==> call_requires(create, ()),
        ensures
            final(self).io_handle == old(self).io_handle,
            match old(self).accepted_socket {
                Some(socket_before) => {
                    &&& socket == Ok::<usize, IoError>(socket_before)
                    &&& final(self).accepted_socket == Some(socket_before)
                },
                None => {
                    &&& call_ensures(create, (), socket)
                    &&& final(self).accepted_socket == (match socket {
                        Ok(socket) => Some(socket),
                        Err(_) => None,
                    })
                },
            },
    {
        match self.accepted_socket {
            Some(socket) => Ok(socket),
            None => {
                let created = create();
                if let Ok(socket) = created {
                    self.accepted_socket = Some(socket);
                }
                created
            },
        }
    }

    /// Take the completion of an accept through io_uring.
    ///
    /// A successful completion is the descriptor of the connection. `address`
    /// is the address of the peer, if the kernel wrote one down.
    pub fn complete<S, A, C, F: FnOnce(i32) -> Result<S, IoError>, G: FnOnce(&S) -> Result<(), IoError>>(
        self,
        completion: Completion<C>,
        claim: F,
        configure: G,
        address: Option<A>,
    ) -> (result: Result<(S, Option<A>), IoError>)
        requires
            completion.result matches Ok(fd) ==> call_requires(claim, (fd as i32,)),
            forall|socket: S|
                completion.result is Ok && call_ensures(claim, (completion.result->Ok_0 as i32,), Ok(socket))
                    ==> #[trigger] call_requires(configure, (&socket,)),
        ensures
            match completion.result {
                Err(error) => result == Err::<(S, Option<A>), IoError>(error),
                Ok(fd) => exists|socket: Result<S, IoError>| #[trigger]
                    adopted(fd as i32, claim, configure, socket) && result == (match socket {
                        Ok(socket) => Ok::<(S, Option<A>), IoError>((socket, address)),
                        Err(error) => Err::<(S, Option<A>), IoError>(error),
                    }),
            },
    {
        match completion.result {
            Err(error) => Err(error),
            Ok(fd) => match adopt(fd as i32, claim, configure) {
                Ok(socket) => Ok((socket, address)),
                Err(error) => Err(error),
            },
        }
    }

    /// Take the completion of an accept that was made when the listener was
    /// ready. `accepted` is what the system call returned, `address` the
    /// address of the peer, if there is one and it can be made out.
    pub fn complete_accepted<
        K,
        S,
        A,
        C,
        F: FnOnce(K) -> Result<S, IoError>,
        G: FnOnce(&S) -> Result<(), IoError>,
    >(
        self,
        completion: Completion<C>,
        accepted: Option<K>,
        claim: F,
        configure: G,
        address: Result<Option<A>, IoError>,
    ) -> (result: Result<(S, Option<A>), IoError>)
        requires
            completion.result is Ok && accepted is Some ==> call_requires(claim, (accepted->0,)),
            forall|socket: S|
                completion.result is Ok && accepted is Some && call_ensures(claim, (accepted->0,), Ok(socket))
                    ==> #[trigger] call_requires(configure, (&socket,)),
        ensures
            match (completion.result, accepted) {
                (Err(error), _) => result == Err::<(S, Option<A>), IoError>(error),
                (Ok(_), None) => result == Err::<(S, Option<A>), IoError>(
                    IoError::Custom {
                        kind: ErrorKind::Other,
                        message: "accepted socket missing after successful accept",
                    },
                ),
                (Ok(_), Some(new)) => exists|socket: Result<S, IoError>| #[trigger]
                    adopted(new, claim, configure, socket) && result == (match (socket, address) {
                        (Ok(socket), Ok(address)) => Ok::<(S, Option<A>), IoError>((socket, address)),
                        (Err(error), _) => Err::<(S, Option<A>), IoError>(error),
                        (Ok(_), Err(error)) => Err::<(S, Option<A>), IoError>(error),
                    }),
            },
    {
        if let Err(error) = completion.result {
            return Err(error);
        }
        let new = match accepted {
            Some(new) => new,
            None => {
                return Err(IoError::other("accepted socket missing after successful accept"));
            },
        };
        let socket = match adopt(new, claim, configure) {
            Ok(socket) => socket,
            Err(error) => {
                return Err(error);
            },
        };
        match address {
            Ok(address) => Ok((socket, address)),
            Err(error) => Err(error),
        }
    }

    /// Take the completion of an accept on Windows. Answers with the result, and
    /// with the socket to close where it was not claimed.
    ///
    /// The socket learns of its listener before it is claimed, and is configured
    /// then. That it cannot be configured is no failure.
    pub fn complete_overlapped<
        S,
        A,
        C,
        U: FnOnce(usize) -> Result<(), IoError>,
        F: FnOnce(usize) -> Result<S, IoError>,
        G: FnOnce(&S) -> Result<(), IoError>,
    >(self, completion: Completion<C>, update: U, claim: F, configure: G, address: Option<A>) -> (outcome: (
        Result<(S, Option<A>), IoError>,
        Option<usize>,
    ))
        requires
            completion.result is Ok ==> self.accepted_socket is Some,
            completion.result is Ok ==> call_requires(update, (self.accepted_socket->0,)),
            forall|updated: Result<(), IoError>|
                completion.result is Ok && updated is Ok && #[trigger] call_ensures(
                    update,
                    (self.accepted_socket->0,),
                    updated,
                ) ==> call_requires(claim, (self.accepted_socket->0,)),
            forall|socket: S|
                completion.result is Ok && call_ensures(claim, (self.accepted_socket->0,), Ok(socket))
                    ==> #[trigger] call_requires(configure, (&socket,)),
        ensures
            match completion.result {
                Err(error) => outcome == (Err::<(S, Option<A>), IoError>(error), self.accepted_socket),
                Ok(_) => exists|updated: Result<(), IoError>| #[trigger]
                    call_ensures(update, (self.accepted_socket->0,), updated) && match updated {
                        Err(error) => outcome == (
                            Err::<(S, Option<A>), IoError>(error),
                            self.accepted_socket,
                        ),
                        Ok(_) => exists|claimed: Result<S, IoError>| #[trigger]
                            call_ensures(claim, (self.accepted_socket->0,), claimed) && match claimed {
                                Ok(socket) => {
                                    &&& outcome == (
                                        Ok::<(S, Option<A>), IoError>((socket, address)),
                                        None::<usize>,
                                    )
                                    &&& exists|configured: Result<(), IoError>| #[trigger]
                                        call_ensures(configure, (&socket,), configured)
                                },
                                Err(error) => outcome == (
                                    Err::<(S, Option<A>), IoError>(error),
                                    None::<usize>,
                                ),
                            },
                    },
            },
    {
        if let Err(error) = completion.result {
            return (Err(error), self.accepted_socket);
        }
        let new = self.accepted_socket.unwrap();
        if let Err(error) = update(new) {
            return (Err(error), self.accepted_socket);
        }
        match claim(new) {
            Ok(socket) => {
                let _ = configure(&socket);
                (Ok((socket, address)), None)
            },
            Err(error) => (Err(error), None),
        }
    }
}

/// Keep accepting connections.
pub struct AcceptMulti<H> {
    pub io_handle: H,
    /// How many connections may wait to be handed out.
    pub pending_completion_limit: usize,
}

impl<H> AcceptMulti<H> {
    /// What to ask of io_uring, given the descriptor of the listener.
    pub fn submit(&self, fd: i32) -> (request: UringRequest)
        ensures
            request == (UringRequest::AcceptMulti { fd, flags: SOCK_CLOEXEC | SOCK_NONBLOCK }),
    {
        UringRequest::AcceptMulti { fd, flags: SOCK_CLOEXEC | SOCK_NONBLOCK }
    }

    /// Turn a completion into an item. Each one makes an item, a failure too.
    pub fn complete_item<S, C, F: FnOnce(i32) -> Result<S, IoError>, G: FnOnce(&S) -> Result<(), IoError>>(
        &self,
        completion: Completion<C>,
        claim: F,
        configure: G,
    ) -> (item: Option<Result<S, IoError>>)
        requires
            completion.result matches Ok(fd) ==> call_requires(claim, (fd as i32,)),
            forall|socket: S|
                completion.result is Ok && call_ensures(claim, (completion.result->Ok_0 as i32,), Ok(socket))
                    ==> #[trigger] call_requires(configure, (&socket,)),
        ensures
            item matches Some(item) && match completion.result {
                Err(error) => item == Err::<S, IoError>(error),
                Ok(fd) => adopted(fd as i32, claim, configure, item),
            },
    {
        match completion.result {
            Err(error) => Some(Err(error)),
            Ok(fd) => Some(adopt(fd as i32, claim, configure)),
        }
    }

    /// The item that stands for a failure to submit.
    pub fn submission_error<S>(error: IoError) -> (item: Result<S, IoError>)
        ensures
            item == Err::<S, IoError>(error),
    {
        Err(error)
    }

    /// A completion that nobody takes is a descriptor to close.
    pub fn completion_cleanup(&self) -> (cleanup: MultishotCleanup)
        ensures
            cleanup == MultishotCleanup::AcceptedFd,
    {
        MultishotCleanup::AcceptedFd
    }

    /// How many connections may wait to be handed out.
    pub fn pending_completion_limit(&self) -> (limit: Option<usize>)
        ensures
            limit == Some(self.pending_completion_limit),
    {
        Some(self.pending_completion_limit)
    }
}

/// The item of a stream of connections for one accepted connection: the
/// connection and the address of its peer, which `peer` asks for.
pub fn incoming_item<S, A, G: FnOnce(&S) -> Result<Option<A>, IoError>>(
    accepted: Option<Result<S, IoError>>,
    peer: G,
) -> (item: Option<Result<(S, Option<A>), IoError>>)
    requires
        accepted matches Some(Ok(socket)) ==> call_requires(peer, (&socket,)),
    ensures
        match accepted {
            None => item is None,
            Some(Err(error)) => item == Some(Err::<(S, Option<A>), IoError>(error)),
            Some(Ok(socket)) => exists|address: Result<Option<A>, IoError>| #[trigger]
                call_ensures(peer, (&socket,), address) && item == Some(
                    match address {
                        Ok(address) => Ok::<(S, Option<A>), IoError>((socket, address)),
                        Err(error) => Err::<(S, Option<A>), IoError>(error),
                    },
                ),
        },
{
    match accepted {
        None => None,
        Some(Err(error)) => Some(Err(error)),
        Some(Ok(socket)) => match peer(&socket) {
            Ok(address) => Some(Ok((socket, address))),
            Err(error) => Some(Err(error)),
        },
    }
}

/// Connect to an address.
pub struct Connect<H> {
    pub io_handle: H,
    /// The length of the address.
    pub address_len: u32,
}

impl<H> Connect<H> {
    /// What to ask of io_uring, given the descriptor of the socket.
    pub fn submit(&self, fd: i32) -> (request: UringRequest)
        ensures
            request == (UringRequest::Connect { fd, address_len: self.address_len }),
    {
        UringRequest::Connect { fd, address_len: self.address_len }
    }

    /// How to connect where the kernel tells only of readiness.
    pub fn attempt(&self) -> (call: KqueueCall)
        ensures
            call == KqueueCall::Connect,
    {
        KqueueCall::Connect
    }

    /// How to connect on Windows.
    pub fn submit_overlapped(&self) -> (call: IocpCall)
        ensures
            call == IocpCall::Connection,
    {
        IocpCall::Connection
    }

    /// Take the completion.
    pub fn complete<C>(self, completion: Completion<C>) -> (result: Result<(), IoError>)
        ensures
            result == spec_unit(completion),
    {
        finish_unit(completion)
    }

    /// Take the completion on Windows, where the socket still has to learn that
    /// it is connected.
    pub fn complete_overlapped<C, U: FnOnce() -> Result<(), IoError>>(self, completion: Completion<C>, update: U) -> (result: Result<
        (),
        IoError,
    >)
        requires
            completion.result is Ok ==> call_requires(update, ()),
        ensures
            match completion.result {
                Err(error) => result == Err::<(), IoError>(error),
                Ok(_) => call_ensures(update, (), result),
            },
    {
        match completion.result {
            Err(error) => Err(error),
            Ok(_) => update(),
        }
    }
}

/// An operation that has nothing to tell succeeds if and only if the platform reports
/// a success, whatever number comes with it, and fails with the platform's error.
pub proof fn law_success_is_told<C>(completion: Completion<C>, result: Result<(), IoError>)
    requires
        call_ensures(finish_unit::<C>, (completion,), result),
    ensures
        result is Ok <==> completion.result is Ok,
        completion.result matches Err(error) ==> result == Err::<(), IoError>(error),
{
}

/// A connection that was accepted is handed out once it is claimed and configured,
/// with the address of its peer. It is not handed out where either fails.
pub proof fn law_accepted_connection_is_handed_out<
    H,
    S,
    A,
    C,
    F: FnOnce(i32) -> Result<S, IoError>,
    G: FnOnce(&S) -> Result<(), IoError>,
>(
    op: Accept<H>,
    completion: Completion<C>,
    fd: u32,
    claim: F,
    configure: G,
    address: Option<A>,
    socket: S,
    configured: Result<(), IoError>,
    result: Result<(S, Option<A>), IoError>,
)
    requires
        completion.result == Ok::<u32, IoError>(fd),
        forall|claimed: Result<S, IoError>| #[trigger]
            call_ensures(claim, (fd as i32,), claimed) ==> claimed == Ok::<S, IoError>(socket),
        forall|done: Result<(), IoError>| #[trigger]
            call_ensures(configure, (&socket,), done) ==> done == configured,
        call_ensures(Accept::<H>::complete::<S, A, C, F, G>, (op, completion, claim, configure, address), result),
    ensures
        configured is Ok ==> result == Ok::<(S, Option<A>), IoError>((socket, address)),
        configured matches Err(error) ==> result == Err::<(S, Option<A>), IoError>(error),
{
    let adopted_as = choose|adopted_as: Result<S, IoError>| #[trigger]
        adopted(fd as i32, claim, configure, adopted_as) && result == (match adopted_as {
            Ok(socket) => Ok::<(S, Option<A>), IoError>((socket, address)),
            Err(error) => Err::<(S, Option<A>), IoError>(error),
        });
    law_socket_is_adopted(fd as i32, claim, configure, socket, configured, adopted_as);
}

/// A new socket is taken over if and only if it is claimed and configured.
pub proof fn law_socket_is_adopted<K, S, F: FnOnce(K) -> Result<S, IoError>, G: FnOnce(&S) -> Result<(), IoError>>(
    new: K,
    claim: F,
    configure: G,
    socket: S,
    configured: Result<(), IoError>,
    result: Result<S, IoError>,
)
    requires
        adopted(new, claim, configure, result),
        forall|claimed: Result<S, IoError>| #[trigger]
            call_ensures(claim, (new,), claimed) ==> claimed == Ok::<S, IoError>(socket),
        forall|done: Result<(), IoError>| #[trigger]
            call_ensures(configure, (&socket,), done) ==> done == configured,
    ensures
        configured is Ok ==> result == Ok::<S, IoError>(socket),
        configured matches Err(error) ==> result == Err::<S, IoError>(error),
{
}

/// Every completion of a stream of connections makes an item: a connection where it
/// is one that can be taken over, and the kernel's error where it is a failure.
pub proof fn law_every_completion_makes_an_item<
    H,
    S,
    C,
    F: FnOnce(i32) -> Result<S, IoError>,
    G: FnOnce(&S) -> Result<(), IoError>,
>(
    op: AcceptMulti<H>,
    completion: Completion<C>,
    claim: F,
    configure: G,
    socket: S,
    item: Option<Result<S, IoError>>,
)
    requires
        call_ensures(AcceptMulti::<H>::complete_item::<S, C, F, G>, (&op, completion, claim, configure), item),
        completion.result matches Ok(fd) ==> forall|claimed: Result<S, IoError>| #[trigger]
            call_ensures(claim, (fd as i32,), claimed) ==> claimed == Ok::<S, IoError>(socket),
        forall|done: Result<(), IoError>| #[trigger]
            call_ensures(configure, (&socket,), done) ==> done == Ok::<(), IoError>(()),
    ensures
        completion.result is Ok ==> item == Some(Ok::<S, IoError>(socket)),
        completion.result matches Err(error) ==> item == Some(Err::<S, IoError>(error)),
{
    if let Ok(fd) = completion.result {
        law_socket_is_adopted(fd as i32, claim, configure, socket, Ok(()), item->0);
    }
}

} // verus!
