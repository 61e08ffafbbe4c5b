//! Operations that move messages, each with the address of its peer.
use crate::buf::{BufResult, IoBuf, IoBufMut};
use crate::driver::backends::kqueue::Direction;
use crate::driver::ops::request::{offered, IocpCall, KqueueCall, UringRequest};
use crate::driver::ops::transfer::finish_drain;
use crate::driver::ops::vectored::initialized_lengths;
use crate::driver::ops::Completion;
use crate::error::{ErrorKind, IoError};
use vstd::prelude::*;

verus! {

/// The address that the kernel wrote down, or an error because it cannot be made
/// out.
pub open spec fn spec_decoded<A>(decoded: Option<A>) -> Result<A, IoError> {
    match decoded {
        Some(decoded) => Ok(decoded),
        None => Err(
            IoError::Custom {
                kind: ErrorKind::InvalidData,
                message: "kernel returned an invalid socket address",
            },
        ),
    }
}

/// The address that the kernel wrote down, if it can be made out.
fn decoded_address<A>(decoded: Option<A>) -> (address: Result<A, IoError>)
    ensures
        address == spec_decoded(decoded),
{
    match decoded {
        Some(decoded) => Ok(decoded),
        None => Err(IoError::new(ErrorKind::InvalidData, "kernel returned an invalid socket address")),
    }
}

/// The address that a system call returned, or an error because it returned
/// none.
pub open spec fn spec_returned<A>(returned: Option<Result<A, IoError>>) -> Result<A, IoError> {
    match returned {
        Some(returned) => returned,
        None => Err(
            IoError::Custom { kind: ErrorKind::InvalidData, message: "kernel returned no socket address" },
        ),
    }
}

/// The address that a system call returned, if it returned one.
fn returned_address<A>(returned: Option<Result<A, IoError>>) -> (address: Result<A, IoError>)
    ensures
        address == spec_returned(returned),
{
    match returned {
        Some(returned) => returned,
        None => Err(IoError::new(ErrorKind::InvalidData, "kernel returned no socket address")),
    }
}

/// Whether this is the address that Windows wrote down, `reported` bytes long,
/// or an error: the length must fit into the room that Windows was given, and
/// the address must be one that can be made out.
pub open spec fn reported_as<A, D: FnOnce(u32) -> Option<A>>(
    reported: i32,
    room: u32,
    decode: D,
    address: Result<A, IoError>,
) -> bool {
    if 0 <= reported <= room {
        exists|decoded: Option<A>| #[trigger]
            call_ensures(decode, (reported as u32,), decoded) && address == spec_decoded(decoded)
    } else {
        address == Err::<A, IoError>(
            IoError::Custom { kind: ErrorKind::InvalidData, message: "invalid socket address length" },
        )
    }
}

/// The address that Windows wrote down, if its length can be right and it can
/// be made out.
fn reported_address<A, D: FnOnce(u32) -> Option<A>>(reported: i32, room: u32, decode: D) -> (address: Result<
    A,
    IoError,
>)
    requires
        0 <= reported <= room ==> call_requires(decode, (reported as u32,)),
    ensures
        reported_as(reported, room, decode, address),
{
    if reported >= 0 && reported as u32 <= room {
        decoded_address(decode(reported as u32))
    } else {
        Err(IoError::new(ErrorKind::InvalidData, "invalid socket address length"))
    }
}

/// The result of receiving a message into one buffer. Without an address the
/// message is lost, and the buffer is left as it was.
pub open spec fn received<B: IoBufMut, A, C>(
    buf: B,
    completion: Completion<C>,
    address: Result<A, IoError>,
    result: BufResult<(usize, A), B>,
) -> bool {
    match completion.spec_bytes_transferred(buf.spec_capacity() as usize) {
        Err(error) => result.0 == Err::<(usize, A), IoError>(error) && result.1 == buf,
        Ok(n) => match address {
            Err(error) => result.0 == Err::<(usize, A), IoError>(error) && result.1 == buf,
            Ok(address) => {
                &&& result.0 == Ok::<(usize, A), IoError>((n, address))
                &&& result.1.spec_init() == n
                &&& result.1.spec_capacity() == buf.spec_capacity()
                &&& result.1.spec_backing() == buf.spec_backing()
            },
        },
    }
}

/// Hand out a message that fits into its buffer, if its address is known.
fn deliver<B: IoBufMut, A>(buf: B, written: usize, address: Result<A, IoError>) -> (result: BufResult<(usize, A), B>)
    requires
        written <= buf.spec_capacity(),
    ensures
        match address {
            Err(error) => result.0 == Err::<(usize, A), IoError>(error) && result.1 == buf,
            Ok(address) => {
                &&& result.0 == Ok::<(usize, A), IoError>((written, address))
                &&& result.1.spec_init() == written
                &&& result.1.spec_capacity() == buf.spec_capacity()
                &&& result.1.spec_backing() == buf.spec_backing()
            },
        },
{
    match address {
        Ok(address) => {
            let mut buf = buf;
            buf.set_len(written);
            BufResult(Ok((written, address)), buf)
        },
        Err(error) => BufResult(Err(error), buf),
    }
}

/// Receive a message and the address that it came from.
pub struct RecvFrom<H, B> {
    pub io_handle: H,
    pub buf: B,
}

impl<H, B: IoBufMut> RecvFrom<H, B> {
    /// What to ask of io_uring, given the descriptor of the handle. The message
    /// has one buffer, all of it.
    pub fn submit(&self, fd: i32) -> (request: (UringRequest, usize))
        ensures
            request.0 == (UringRequest::RecvMsg { fd }),
            request.1 == self.buf.spec_capacity(),
    {
        (UringRequest::RecvMsg { fd }, self.buf.bytes_total())
    }

    /// How to receive where the kernel tells only of readiness.
    pub fn attempt(&self) -> (call: KqueueCall)
        ensures
            call == KqueueCall::OnReadiness(Direction::Read),
    {
        KqueueCall::OnReadiness(Direction::Read)
    }

    /// How to receive on Windows.
    pub fn submit_overlapped(&self) -> (call: IocpCall)
        ensures
            call matches IocpCall::Transfer { len } && len == crate::driver::ops::request::spec_offered(
                self.buf.spec_capacity(),
            ),
    {
        IocpCall::Transfer { len: offered(self.buf.bytes_total()) }
    }

    /// The driver refused the operation. The kernel never saw it, so the buffer
    /// comes back with the error.
    pub fn refused(self, error: IoError) -> (returned: (IoError, B))
        ensures
            returned == (error, self.buf),
    {
        (error, self.buf)
    }

    fn finish_with<A, C>(self, completion: Completion<C>, address: Result<A, IoError>) -> (result: BufResult<
        (usize, A),
        B,
    >)
        ensures
            received(self.buf, completion, address, result),
    {
        let buf = self.buf;
        let capacity: usize = buf.bytes_total();
        let written: usize = match completion.bytes_transferred(capacity) {
            Ok(n) => n,
            Err(error) => {
                return BufResult(Err(error), buf);
            },
        };
        deliver(buf, written, address)
    }

    /// Take the completion of a message received through io_uring. `decoded` is
    /// the address that the kernel wrote down, if it can be made out.
    pub fn finish<A, C>(self, completion: Completion<C>, decoded: Option<A>) -> (result: BufResult<
        (usize, A),
        B,
    >)
        ensures
            received(self.buf, completion, spec_decoded(decoded), result),
    {
        self.finish_with(completion, decoded_address(decoded))
    }

    /// Take the completion of a message received when the socket was ready.
    /// `returned` is the address that the system call returned.
    pub fn finish_returned<A, C>(self, completion: Completion<C>, returned: Option<Result<A, IoError>>) -> (result: BufResult<
        (usize, A),
        B,
    >)
        ensures
            received(self.buf, completion, spec_returned(returned), result),
    {
        self.finish_with(completion, returned_address(returned))
    }

    /// Take the completion of a message received on Windows. `reported` is the
    /// length of the address that Windows wrote into the `room` for it.
    pub fn finish_overlapped<A, C, D: FnOnce(u32) -> Option<A>>(
        self,
        completion: Completion<C>,
        reported: i32,
        room: u32,
        decode: D,
    ) -> (result: BufResult<(usize, A), B>)
        requires
            completion.spec_bytes_transferred(self.buf.spec_capacity() as usize) is Ok && 0 <= reported <= room
                ==> call_requires(decode, (reported as u32,)),
        ensures
            match completion.spec_bytes_transferred(self.buf.spec_capacity() as usize) {
                Err(error) => result.0 == Err::<(usize, A), IoError>(error) && result.1 == self.buf,
                Ok(_) => exists|address: Result<A, IoError>|
                    {
                        &&& #[trigger] reported_as(reported, room, decode, address)
                        &&& received(self.buf, completion, address, result)
                    },
            },
    {
        let capacity: usize = self.buf.bytes_total();
        let written: usize = match completion.bytes_transferred(capacity) {
            Ok(n) => n,
            Err(error) => {
                return BufResult(Err(error), self.buf);
            },
        };
        let address = reported_address(reported, room, decode);
        assert(reported_as(reported, room, decode, address));
        deliver(self.buf, written, address)
    }
}

/// Send a message to an address.
pub struct SendTo<H, B> {
    pub io_handle: H,
    pub buf: B,
}

impl<H, B: IoBuf> SendTo<H, B> {
    /// What to ask of io_uring, given the descriptor of the handle. The message
    /// has one buffer, its initialized bytes.
    pub fn submit(&self, fd: i32) -> (request: (UringRequest, usize))
        ensures
            request.0 == (UringRequest::SendMsg { fd }),
            request.1 == self.buf.spec_init(),
    {
        (UringRequest::SendMsg { fd }, self.buf.bytes_init())
    }

    /// How to send where the kernel tells only of readiness.
    pub fn attempt(&self) -> (call: KqueueCall)
        ensures
            call == KqueueCall::OnReadiness(Direction::Write),
    {
        KqueueCall::OnReadiness(Direction::Write)
    }

    /// How to send on Windows.
    pub fn submit_overlapped(&self) -> (call: IocpCall)
        ensures
            call matches IocpCall::Transfer { len } && len == crate::driver::ops::request::spec_offered(
                self.buf.spec_init(),
            ),
    {
        IocpCall::Transfer { len: offered(self.buf.bytes_init()) }
    }

    /// Take the completion.
    pub fn complete<C>(self, completion: Completion<C>) -> (result: BufResult<usize, B>)
        ensures
            result.0 == crate::driver::ops::transfer::spec_emptied(completion),
            result.1 == self.buf,
    {
        finish_drain(self.buf, completion)
    }
}

/// How much the first `count` buffers hold.
pub open spec fn capacity_before<B: IoBufMut>(bufs: Seq<B>, count: nat) -> nat
    decreases count,
{
    if count == 0 {
        0
    } else {
        capacity_before(bufs, (count - 1) as nat) + bufs[count - 1].spec_capacity()
    }
}

/// How much of the first `n` bytes lies in one of several buffers that are
/// filled one after the other.
pub open spec fn part_of<B: IoBufMut>(bufs: Seq<B>, n: nat, index: int) -> nat {
    let before = capacity_before(bufs, index as nat);
    if n <= before {
        0
    } else if n - before <= bufs[index].spec_capacity() {
        (n - before) as nat
    } else {
        bufs[index].spec_capacity()
    }
}

/// The buffers after the first `n` bytes of all of them were filled. Each is
/// where it was.
pub open spec fn prefix_filled<B: IoBufMut>(before: Seq<B>, n: nat, after: Seq<B>) -> bool {
    &&& after.len() == before.len()
    &&& forall|i: int|
        0 <= i < before.len() ==> {
            &&& (#[trigger] after[i]).spec_capacity() == before[i].spec_capacity()
            &&& after[i].spec_backing() == before[i].spec_backing()
            &&& after[i].spec_init() == part_of(before, n, i)
        }
}

proof fn lemma_capacity_grows<B: IoBufMut>(bufs: Seq<B>, fewer: nat, more: nat)
    requires
        fewer <= more,
    ensures
        capacity_before(bufs, fewer) <= capacity_before(bufs, more),
    decreases more,
{
    if fewer < more {
        lemma_capacity_grows(bufs, fewer, (more - 1) as nat);
    }
}

/// How many bytes of the first `count` buffers are initialized, when the first
/// `n` bytes of all were filled.
pub open spec fn filled_before<B: IoBufMut>(bufs: Seq<B>, n: nat, count: nat) -> nat
    decreases count,
{
    if count == 0 {
        0
    } else {
        filled_before(bufs, n, (count - 1) as nat) + part_of(bufs, n, count - 1)
    }
}

proof fn lemma_filled<B: IoBufMut>(bufs: Seq<B>, n: nat, count: nat)
    ensures
        filled_before(bufs, n, count) == (if n <= capacity_before(bufs, count) {
            n
        } else {
            capacity_before(bufs, count)
        }),
    decreases count,
{
    if count > 0 {
        lemma_filled(bufs, n, (count - 1) as nat);
    }
}

/// A message that fits is in the buffers whole: they hold as many initialized
/// bytes as it has.
pub proof fn law_message_is_kept_whole<B: IoBufMut>(bufs: Seq<B>, n: nat)
    requires
        n <= capacity_before(bufs, bufs.len()),
    ensures
        filled_before(bufs, n, bufs.len()) == n,
{
    lemma_filled(bufs, n, bufs.len());
}

/// How much all buffers hold.
fn total_capacity<B: IoBufMut>(bufs: &Vec<B>) -> (total: usize)
    requires
        capacity_before(bufs@, bufs@.len()) <= usize::MAX,
    ensures
        total == capacity_before(bufs@, bufs@.len()),
{
    let mut total: usize = 0;
    let mut next: usize = 0;
    while next < bufs.len()
        invariant
            next <= bufs@.len(),
            capacity_before(bufs@, bufs@.len()) <= usize::MAX,
            total == capacity_before(bufs@, next as nat),
        decreases bufs@.len() - next,
    {
        proof {
            lemma_capacity_grows(bufs@, (next + 1) as nat, bufs@.len());
        }
        total = total + bufs[next].bytes_total();
        next = next + 1;
    }
    total
}

/// Declare the first `n` bytes of all buffers initialized.
fn set_total_len<B: IoBufMut>(bufs: &mut Vec<B>, n: usize)
    ensures
        prefix_filled(old(bufs)@, n as nat, final(bufs)@),
{
    let ghost before = bufs@;
    let mut rest: usize = n;
    let mut next: usize = 0;
    while next < bufs.len()
        invariant
            next <= bufs@.len() == before.len(),
            rest == (if n <= capacity_before(before, next as nat) {
                0
            } else {
                n - capacity_before(before, next as nat)
            }),
            forall|i: int|
                0 <= i < next ==> {
                    &&& (#[trigger] bufs@[i]).spec_capacity() == before[i].spec_capacity()
                    &&& bufs@[i].spec_backing() == before[i].spec_backing()
                    &&& bufs@[i].spec_init() == part_of(before, n as nat, i)
                },
            forall|i: int| next <= i < before.len() ==> #[trigger] bufs@[i] == before[i],
        decreases bufs@.len() - next,
    {
        let capacity: usize = bufs[next].bytes_total();
        let size: usize = if rest < capacity {
            rest
        } else {
            capacity
        };
        bufs[next].set_len(size);
        rest = rest - size;
        assert(capacity_before(before, (next + 1) as nat) == capacity_before(before, next as nat)
            + before[next as int].spec_capacity());
        next = next + 1;
    }
}

/// Hand out a message that fits into its buffers, if its address is known.
fn deliver_all<B: IoBufMut, A>(bufs: Vec<B>, written: usize, address: Result<A, IoError>) -> (result: BufResult<
    (usize, A),
    Vec<B>,
>)
    ensures
        match address {
            Err(error) => result.0 == Err::<(usize, A), IoError>(error) && result.1 == bufs,
            Ok(address) => {
                &&& result.0 == Ok::<(usize, A), IoError>((written, address))
                &&& prefix_filled(bufs@, written as nat, result.1@)
            },
        },
{
    match address {
        Ok(address) => {
            let mut bufs = bufs;
            set_total_len(&mut bufs, written);
            BufResult(Ok((written, address)), bufs)
        },
        Err(error) => BufResult(Err(error), bufs),
    }
}

/// Lengths as Windows takes them.
fn offered_lengths(lengths: &Vec<usize>) -> (short: Vec<u32>)
    ensures
        short@.len() == lengths@.len(),
        forall|i: int|
            0 <= i < short@.len() ==> #[trigger] short@[i] == crate::driver::ops::request::spec_offered(
                lengths@[i] as nat,
            ),
{
    let mut short: Vec<u32> = Vec::new();
    let mut next: usize = 0;
    while next < lengths.len()
        invariant
            next == short@.len() <= lengths@.len(),
            forall|i: int|
                0 <= i < short@.len() ==> #[trigger] short@[i] == crate::driver::ops::request::spec_offered(
                    lengths@[i] as nat,
                ),
        decreases lengths@.len() - next,
    {
        short.push(offered(lengths[next]));
        next = next + 1;
    }
    short
}

/// Receive a message into several buffers, and the address that it came from.
pub struct RecvMsg<H, B> {
    pub io_handle: H,
    pub bufs: Vec<B>,
}

impl<H, B: IoBufMut> RecvMsg<H, B> {
    /// How much of each buffer is offered: all of it.
    pub fn rebuild_message(&self) -> (lengths: Vec<usize>)
        ensures
            lengths@.len() == self.bufs@.len(),
            forall|i: int|
                0 <= i < lengths@.len() ==> #[trigger] lengths@[i] == self.bufs@[i].spec_capacity(),
    {
        let mut lengths: Vec<usize> = Vec::new();
        let mut next: usize = 0;
        while next < self.bufs.len()
            invariant
                next == lengths@.len() <= self.bufs@.len(),
                forall|i: int|
                    0 <= i < lengths@.len() ==> #[trigger] lengths@[i] == self.bufs@[i].spec_capacity(),
            decreases self.bufs@.len() - next,
        {
            lengths.push(self.bufs[next].bytes_total());
            next = next + 1;
        }
        lengths
    }

    /// What to ask of io_uring, given the descriptor of the handle.
    pub fn submit(&self, fd: i32) -> (request: UringRequest)
        ensures
            request == (UringRequest::RecvMsg { fd }),
    {
        UringRequest::RecvMsg { fd }
    }

    /// How to receive where the kernel tells only of readiness.
    pub fn attempt(&self) -> (call: KqueueCall)
        ensures
            call == KqueueCall::OnReadiness(Direction::Read),
    {
        KqueueCall::OnReadiness(Direction::Read)
    }

    /// How much of each buffer is offered to Windows.
    pub fn rebuild_wsa_bufs(&self) -> (lengths: Vec<u32>)
        ensures
            lengths@.len() == self.bufs@.len(),
            forall|i: int|
                0 <= i < lengths@.len() ==> #[trigger] lengths@[i]
                    == crate::driver::ops::request::spec_offered(self.bufs@[i].spec_capacity()),
    {
        offered_lengths(&self.rebuild_message())
    }

    /// How to receive on Windows.
    pub fn submit_overlapped(&self) -> (call: IocpCall)
        ensures
            call matches IocpCall::Vectored { count } && count == crate::driver::ops::request::spec_offered(
                self.bufs@.len(),
            ),
    {
        IocpCall::Vectored { count: offered(self.bufs.len()) }
    }

    /// The driver refused the operation. The kernel never saw it, so the
    /// buffers come back with the error.
    pub fn refused(self, error: IoError) -> (returned: (IoError, Vec<B>))
        ensures
            returned == (error, self.bufs),
    {
        (error, self.bufs)
    }

    /// The result of receiving a message into several buffers. Without an
    /// address the message is lost, and the buffers are left as they were.
    pub open spec fn received_all<A, C>(
        self,
        completion: Completion<C>,
        address: Result<A, IoError>,
        result: BufResult<(usize, A), Vec<B>>,
    ) -> bool {
        match completion.spec_bytes_transferred(capacity_before(self.bufs@, self.bufs@.len()) as usize) {
            Err(error) => result.0 == Err::<(usize, A), IoError>(error) && result.1 == self.bufs,
            Ok(n) => match address {
                Err(error) => result.0 == Err::<(usize, A), IoError>(error) && result.1 == self.bufs,
                Ok(address) => {
                    &&& result.0 == Ok::<(usize, A), IoError>((n, address))
                    &&& prefix_filled(self.bufs@, n as nat, result.1@)
                },
            },
        }
    }

    /// Take the completion. `decoded` is the address that the kernel wrote down,
    /// if it can be made out.
    pub fn finish<A, C>(self, completion: Completion<C>, decoded: Option<A>) -> (result: BufResult<
        (usize, A),
        Vec<B>,
    >)
        requires
            capacity_before(self.bufs@, self.bufs@.len()) <= usize::MAX,
        ensures
            self.received_all(completion, spec_decoded(decoded), result),
    {
        self.finish_with(completion, decoded_address(decoded))
    }

    /// Take the completion on Windows. `reported` is the length of the address
    /// that Windows wrote into the `room` for it.
    pub fn finish_overlapped<A, C, D: FnOnce(u32) -> Option<A>>(
        self,
        completion: Completion<C>,
        reported: i32,
        room: u32,
        decode: D,
    ) -> (result: BufResult<(usize, A), Vec<B>>)
        requires
            capacity_before(self.bufs@, self.bufs@.len()) <= usize::MAX,
            completion.spec_bytes_transferred(capacity_before(self.bufs@, self.bufs@.len()) as usize) is Ok && 0
                <= reported <= room ==> call_requires(decode, (reported as u32,)),
        ensures
            match completion.spec_bytes_transferred(capacity_before(self.bufs@, self.bufs@.len()) as usize) {
                Err(error) => result.0 == Err::<(usize, A), IoError>(error) && result.1 == self.bufs,
                Ok(_) => exists|address: Result<A, IoError>|
                    {
                        &&& #[trigger] reported_as(reported, room, decode, address)
                        &&& self.received_all(completion, address, result)
                    },
            },
    {
        let capacity: usize = total_capacity(&self.bufs);
        let written: usize = match completion.bytes_transferred(capacity) {
            Ok(n) => n,
            Err(error) => {
                return BufResult(Err(error), self.bufs);
            },
        };
        let address = reported_address(reported, room, decode);
        assert(reported_as(reported, room, decode, address));
        deliver_all(self.bufs, written, address)
    }

    fn finish_with<A, C>(self, completion: Completion<C>, address: Result<A, IoError>) -> (result: BufResult<
        (usize, A),
        Vec<B>,
    >)
        requires
            capacity_before(self.bufs@, self.bufs@.len()) <= usize::MAX,
        ensures
            self.received_all(completion, address, result),
    {
        let bufs = self.bufs;
        let capacity: usize = total_capacity(&bufs);
        let written: usize = match completion.bytes_transferred(capacity) {
            Ok(n) => n,
            Err(error) => {
                return BufResult(Err(error), bufs);
            },
        };
        deliver_all(bufs, written, address)
    }
}

/// The head of a message, without the addresses of the memory that it names.
#[derive(Debug)]
pub struct MessageHeader {
    /// How much of each buffer is sent.
    pub lengths: Vec<usize>,
    /// The length of the address; nothing: no address.
    pub name_len: Option<u32>,
    /// The length of the control data; nothing: no control data.
    pub control_len: Option<usize>,
}

/// Send a message from several buffers, with control data and to an address if
/// they are given.
pub struct SendMsg<H, B, D> {
    pub io_handle: H,
    pub bufs: Vec<B>,
    pub control: Option<D>,
    /// The length of the address.
    pub address_len: Option<u32>,
}

impl<H, B: IoBuf, D: IoBuf> SendMsg<H, B, D> {
    /// The head of the message.
    pub fn rebuild_message(&self) -> (header: MessageHeader)
        ensures
            header.lengths@.len() == self.bufs@.len(),
            forall|i: int|
                0 <= i < self.bufs@.len() ==> #[trigger] header.lengths@[i] == self.bufs@[i].spec_init(),
            header.name_len == self.address_len,
            match self.control {
                Some(control) => header.control_len matches Some(len) && len == control.spec_init(),
                None => header.control_len is None,
            },
    {
        let control_len = match &self.control {
            Some(control) => Some(control.bytes_init()),
            None => None,
        };
        MessageHeader { lengths: initialized_lengths(&self.bufs), name_len: self.address_len, control_len }
    }

    /// What to ask of io_uring, given the descriptor of the handle.
    pub fn submit(&self, fd: i32) -> (request: UringRequest)
        ensures
            request == (UringRequest::SendMsg { fd }),
    {
        UringRequest::SendMsg { fd }
    }

    /// How to send where the kernel tells only of readiness.
    pub fn attempt(&self) -> (call: KqueueCall)
        ensures
            call == KqueueCall::OnReadiness(Direction::Write),
    {
        KqueueCall::OnReadiness(Direction::Write)
    }

    /// How much of each buffer is offered to Windows.
    pub fn rebuild_wsa_bufs(&self) -> (lengths: Vec<u32>)
        ensures
            lengths@.len() == self.bufs@.len(),
            forall|i: int|
                0 <= i < lengths@.len() ==> #[trigger] lengths@[i]
                    == crate::driver::ops::request::spec_offered(self.bufs@[i].spec_init()),
    {
        offered_lengths(&initialized_lengths(&self.bufs))
    }

    /// How to send on Windows. Windows sends no control data.
    pub fn submit_overlapped(&self) -> (call: IocpCall)
        ensures
            call matches IocpCall::Vectored { count } && count == crate::driver::ops::request::spec_offered(
                self.bufs@.len(),
            ),
    {
        IocpCall::Vectored { count: offered(self.bufs.len()) }
    }

    /// Take the completion. The control data comes back only with a success.
    pub fn finish<C>(self, completion: Completion<C>) -> (result: BufResult<(usize, Option<D>), Vec<B>>)
        ensures
            result.0 == (match completion.result {
                Ok(n) => Ok((n as usize, self.control)),
                Err(error) => Err(error),
            }),
            result.1 == self.bufs,
    {
        match completion.result {
            Ok(n) => BufResult(Ok((n as usize, self.control)), self.bufs),
            Err(error) => BufResult(Err(error), self.bufs),
        }
    }
}

/// A message that fits into its buffer is handed out with the address of its peer:
/// its length is what the platform reports, and so is the number of initialized
/// bytes. Without an address, or where the platform failed or cannot be right, the
/// error comes back, and the buffer as it was.
pub proof fn law_message_comes_with_its_peer<H, B: IoBufMut, A, C>(
    op: RecvFrom<H, B>,
    completion: Completion<C>,
    decoded: Option<A>,
    returned: Option<Result<A, IoError>>,
    made_out: BufResult<(usize, A), B>,
    answered: BufResult<(usize, A), B>,
)
    requires
        op.buf.spec_capacity() <= usize::MAX,
        call_ensures(RecvFrom::<H, B>::finish::<A, C>, (op, completion, decoded), made_out),
        call_ensures(RecvFrom::<H, B>::finish_returned::<A, C>, (op, completion, returned), answered),
    ensures
        completion.result matches Ok(n) ==> (n <= op.buf.spec_capacity() ==> {
            &&& decoded matches Some(peer) ==> {
                &&& made_out.0 == Ok::<(usize, A), IoError>((n as usize, peer))
                &&& made_out.1.spec_init() == n
                &&& made_out.1.spec_backing() == op.buf.spec_backing()
            }
            &&& decoded is None ==> made_out.1 == op.buf && (made_out.0 matches Err(error) && error.spec_kind()
                == ErrorKind::InvalidData)
            &&& returned matches Some(Ok(peer)) ==> {
                &&& answered.0 == Ok::<(usize, A), IoError>((n as usize, peer))
                &&& answered.1.spec_init() == n
                &&& answered.1.spec_backing() == op.buf.spec_backing()
            }
            &&& returned matches Some(Err(error)) ==> answered.0 == Err::<(usize, A), IoError>(error) && answered.1
                == op.buf
            &&& returned is None ==> answered.1 == op.buf && (answered.0 matches Err(error) && error.spec_kind()
                == ErrorKind::InvalidData)
        }),
        completion.result matches Ok(n) ==> (n > op.buf.spec_capacity() ==> made_out.0 is Err && made_out.1 == op.buf
            && answered.0 is Err && answered.1 == op.buf),
        completion.result matches Err(error) ==> made_out.0 == Err::<(usize, A), IoError>(error) && made_out.1
            == op.buf && answered.0 == Err::<(usize, A), IoError>(error) && answered.1 == op.buf,
{
}

/// The address that Windows wrote down counts only if its length fits into the room
/// for it and it can be made out.
pub proof fn law_reported_address_must_fit<A, D: FnOnce(u32) -> Option<A>>(
    reported: i32,
    room: u32,
    decode: D,
    peer: A,
    address: Result<A, IoError>,
)
    requires
        reported_as(reported, room, decode, address),
        0 <= reported <= room ==> forall|decoded: Option<A>| #[trigger]
            call_ensures(decode, (reported as u32,), decoded) ==> decoded == Some(peer),
    ensures
        0 <= reported <= room ==> address == Ok::<A, IoError>(peer),
        reported < 0 || reported > room ==> (address matches Err(error) && error.spec_kind() == ErrorKind::InvalidData),
{
}

/// How many bytes of the first `count` buffers are initialized.
pub open spec fn initialized_before<B: IoBuf>(bufs: Seq<B>, count: nat) -> nat
    decreases count,
{
    if count == 0 {
        0
    } else {
        initialized_before(bufs, (count - 1) as nat) + bufs[count - 1].spec_init()
    }
}

proof fn lemma_initialized<B: IoBufMut>(before: Seq<B>, n: nat, after: Seq<B>, count: nat)
    requires
        prefix_filled(before, n, after),
        count <= before.len(),
    ensures
        initialized_before(after, count) == filled_before(before, n, count),
    decreases count,
{
    if count > 0 {
        lemma_initialized(before, n, after, (count - 1) as nat);
        assert(after[count - 1].spec_init() == part_of(before, n, count - 1));
    }
}

/// A message in several buffers is there whole and in order: they hold together as
/// many initialized bytes as it has, none holds more than it can, none is begun
/// before those in front of it are full, and each is where it was.
pub proof fn law_scattered_message_is_whole_and_in_order<B: IoBufMut>(
    before: Seq<B>,
    n: nat,
    after: Seq<B>,
    first: int,
    second: int,
)
    requires
        prefix_filled(before, n, after),
        n <= capacity_before(before, before.len()),
        0 <= first < second < before.len(),
    ensures
        after.len() == before.len(),
        initialized_before(after, after.len()) == n,
        after[first].spec_init() <= before[first].spec_capacity(),
        after[second].spec_init() > 0 ==> after[first].spec_init() == before[first].spec_capacity(),
        after[first].spec_backing() == before[first].spec_backing(),
        after[first].spec_capacity() == before[first].spec_capacity(),
{
    lemma_filled(before, n, before.len());
    lemma_initialized(before, n, after, before.len());
    lemma_capacity_grows(before, (first + 1) as nat, second as nat);
    assert(after[first].spec_init() == part_of(before, n, first));
    assert(after[second].spec_init() == part_of(before, n, second));
}

/// Buffers hold together what each of them holds.
pub proof fn law_capacities_add_up<B: IoBufMut>(bufs: Seq<B>, count: nat)
    ensures
        capacity_before(bufs, 0) == 0,
        capacity_before(bufs, count + 1) == capacity_before(bufs, count) + bufs[count as int].spec_capacity(),
{
}

/// A message into several buffers is handed out with the address of its peer and
/// its length if it fits into them. Otherwise the error comes back, and the buffers
/// as they were.
pub proof fn law_scattered_message_comes_with_its_peer<H, B: IoBufMut, A, C>(
    op: RecvMsg<H, B>,
    completion: Completion<C>,
    decoded: Option<A>,
    result: BufResult<(usize, A), Vec<B>>,
)
    requires
        capacity_before(op.bufs@, op.bufs@.len()) <= usize::MAX,
        op.received_all(completion, spec_decoded(decoded), result),
    ensures
        completion.result matches Ok(n) ==> (n <= capacity_before(op.bufs@, op.bufs@.len()) ==> {
            &&& decoded matches Some(peer) ==> result.0 == Ok::<(usize, A), IoError>((n as usize, peer))
                && initialized_before(result.1@, result.1@.len()) == n
            &&& decoded is None ==> result.1 == op.bufs && (result.0 matches Err(error) && error.spec_kind()
                == ErrorKind::InvalidData)
        }),
        completion.result matches Ok(n) ==> (n > capacity_before(op.bufs@, op.bufs@.len()) ==> result.0 is Err
            && result.1 == op.bufs),
        completion.result matches Err(error) ==> result.0 == Err::<(usize, A), IoError>(error) && result.1 == op.bufs,
{
    if let Ok(n) = completion.result {
        if n <= capacity_before(op.bufs@, op.bufs@.len()) && decoded is Some {
            lemma_filled(op.bufs@, n as nat, op.bufs@.len());
            lemma_initialized(op.bufs@, n as nat, result.1@, op.bufs@.len());
        }
    }
}

/// A message that was sent tells how much the platform took, or the platform's
/// error, and its buffers come back as they were; control data comes back with a
/// success.
pub proof fn law_sent_message_tells_what_was_taken<H, B: IoBuf, D: IoBuf, C>(
    to: SendTo<H, B>,
    msg: SendMsg<H, B, D>,
    completion: Completion<C>,
    sent: BufResult<usize, B>,
    gathered: BufResult<(usize, Option<D>), Vec<B>>,
)
    requires
        call_ensures(SendTo::<H, B>::complete::<C>, (to, completion), sent),
        call_ensures(SendMsg::<H, B, D>::finish::<C>, (msg, completion), gathered),
    ensures
        completion.result matches Ok(n) ==> sent.0 == Ok::<usize, IoError>(n as usize) && gathered.0 == Ok::<
            (usize, Option<D>),
            IoError,
        >((n as usize, msg.control)),
        completion.result matches Err(error) ==> sent.0 == Err::<usize, IoError>(error) && gathered.0 == Err::<
            (usize, Option<D>),
            IoError,
        >(error),
        sent.1 == to.buf,
        gathered.1 == msg.bufs,
{
}

} // verus!
