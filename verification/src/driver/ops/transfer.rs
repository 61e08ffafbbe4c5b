//! Operations that move bytes between a buffer and a file, a pipe or a
//! connected socket.
use crate::buf::{BufResult, IoBuf, IoBufMut};
use crate::driver::backends::kqueue::Direction;
use crate::driver::ops::request::{offered, split_offset, IocpCall, KqueueCall, UringRequest};
use crate::driver::ops::Completion;
use crate::error::IoError;
use vstd::prelude::*;

verus! {

/// The result of filling one buffer: as many of its first bytes are initialized
/// as were moved.
pub open spec fn filled<B: IoBufMut, C>(buf: B, completion: Completion<C>, result: BufResult<usize, B>) -> bool {
    &&& result.0 == completion.spec_bytes_transferred(buf.spec_capacity() as usize)
    &&& result.1.spec_capacity() == buf.spec_capacity()
    &&& result.1.spec_backing() == buf.spec_backing()
    &&& match result.0 {
        Ok(n) => result.1.spec_init() == n,
        Err(_) => result.1 == buf,
    }
}

/// Take the completion of an operation that fills one buffer.
///
/// A platform that claims to have moved more than the buffer holds is not
/// believed.
pub fn finish_fill<B: IoBufMut, C>(buf: B, completion: Completion<C>) -> (result: BufResult<usize, B>)
    ensures
        filled(buf, completion, result),
{
    let mut buf = buf;
    let capacity: usize = buf.bytes_total();
    match completion.bytes_transferred(capacity) {
        Ok(n) => {
            buf.set_len(n);
            BufResult(Ok(n), buf)
        },
        Err(error) => BufResult(Err(error), buf),
    }
}

/// The memory that was submitted comes back. A failed or overlong fill leaves
/// the buffer as it was; and no byte is taken for initialized that the platform
/// did not claim to have moved.
pub proof fn law_fill_is_never_overstated<B: IoBufMut, C>(
    buf: B,
    completion: Completion<C>,
    result: BufResult<usize, B>,
)
    requires
        filled(buf, completion, result),
        buf.spec_capacity() <= usize::MAX,
    ensures
        result.1.spec_backing() == buf.spec_backing(),
        result.0 is Err ==> result.1 == buf,
        result.0 is Ok ==> completion.result is Ok && result.1.spec_init() == completion.result->Ok_0
            && result.1.spec_init() <= buf.spec_capacity(),
        completion.result is Ok && completion.result->Ok_0 > buf.spec_capacity() ==> result.0 is Err,
{
}

/// The outcome of an operation that empties buffers.
pub open spec fn spec_emptied<C>(completion: Completion<C>) -> Result<usize, IoError> {
    match completion.result {
        Ok(n) => Ok(n as usize),
        Err(error) => Err(error),
    }
}

/// Take the completion of an operation that empties buffers. They come back as
/// they were.
pub fn finish_drain<B, C>(buf: B, completion: Completion<C>) -> (result: BufResult<usize, B>)
    ensures
        result.0 == spec_emptied(completion),
        result.1 == buf,
{
    match completion.result {
        Ok(n) => BufResult(Ok(n as usize), buf),
        Err(error) => BufResult(Err(error), buf),
    }
}

/// Read from a pipe, a socket or a device, which know no offsets.
///
/// The operation holds the handle so that it is not closed meanwhile.
pub struct Read<H, B> {
    pub io_handle: H,
    pub buf: B,
}

impl<H, B: IoBufMut> Read<H, B> {
    /// What to ask of io_uring, given the descriptor of the handle.
    pub fn submit(&self, fd: i32) -> (request: UringRequest)
        ensures
            request matches UringRequest::Read { fd: from, len, offset: None } && from == fd && len
                == crate::driver::ops::request::spec_offered(self.buf.spec_capacity()),
    {
        UringRequest::Read { fd, len: offered(self.buf.bytes_total()), offset: None }
    }

    /// How to read where the kernel tells only of readiness.
    pub fn attempt(&self) -> (call: KqueueCall)
        ensures
            call == KqueueCall::OnReadiness(Direction::Read),
    {
        KqueueCall::OnReadiness(Direction::Read)
    }

    /// How to read on Windows.
    pub fn submit_overlapped(&self) -> (call: IocpCall)
        ensures
            call matches IocpCall::Transfer { len } && len == crate::driver::ops::request::spec_offered(
                self.buf.spec_capacity(),
            ),
    {
        IocpCall::Transfer { len: offered(self.buf.bytes_total()) }
    }

    /// Take the completion.
    pub fn complete<C>(self, completion: Completion<C>) -> (result: BufResult<usize, B>)
        ensures
            filled(self.buf, completion, result),
    {
        finish_fill(self.buf, completion)
    }
}

/// Read from a file at an offset.
pub struct ReadAt<H, B> {
    pub io_handle: H,
    pub buf: B,
    pub offset: u64,
}

impl<H, B: IoBufMut> ReadAt<H, B> {
    /// What to ask of io_uring, given the descriptor of the handle.
    pub fn submit(&self, fd: i32) -> (request: UringRequest)
        ensures
            request matches UringRequest::Read { fd: from, len, offset } && from == fd && offset == Some(
                self.offset,
            ) && len == crate::driver::ops::request::spec_offered(self.buf.spec_capacity()),
    {
        UringRequest::Read { fd, len: offered(self.buf.bytes_total()), offset: Some(self.offset) }
    }

    /// How to read where the kernel tells only of readiness.
    pub fn attempt(&self) -> (call: KqueueCall)
        ensures
            call == KqueueCall::Blocking,
    {
        KqueueCall::Blocking
    }

    /// How to read on Windows.
    pub fn submit_overlapped(&self) -> (call: IocpCall)
        ensures
            call matches IocpCall::TransferAt { len, low, high } && {
                &&& len == crate::driver::ops::request::spec_offered(self.buf.spec_capacity())
                &&& low == (self.offset & 0xFFFF_FFFF) as u32
                &&& high == (self.offset >> 32) as u32
            },
    {
        split_offset(offered(self.buf.bytes_total()), self.offset)
    }

    /// Take the completion.
    pub fn complete<C>(self, completion: Completion<C>) -> (result: BufResult<usize, B>)
        ensures
            filled(self.buf, completion, result),
    {
        finish_fill(self.buf, completion)
    }
}

/// Receive from a connected socket.
pub struct Recv<H, B> {
    pub io_handle: H,
    pub buf: B,
}

impl<H, B: IoBufMut> Recv<H, B> {
    /// What to ask of io_uring, given the descriptor of the handle.
    pub fn submit(&self, fd: i32) -> (request: UringRequest)
        ensures
            request matches UringRequest::Recv { fd: from, len } && from == fd && len
                == crate::driver::ops::request::spec_offered(self.buf.spec_capacity()),
    {
        UringRequest::Recv { fd, len: offered(self.buf.bytes_total()) }
    }

    /// How to receive where the kernel tells only of readiness.
    pub fn attempt(&self) -> (call: KqueueCall)
        ensures
            call == KqueueCall::OnReadiness(Direction::Read),
    {
        KqueueCall::OnReadiness(Direction::Read)
    }

    /// How to receive on Windows.
    pub fn submit_overlapped(&self) -> (call: IocpCall)
        ensures
            call matches IocpCall::Transfer { len } && len == crate::driver::ops::request::spec_offered(
                self.buf.spec_capacity(),
            ),
    {
        IocpCall::Transfer { len: offered(self.buf.bytes_total()) }
    }

    /// Take the completion.
    pub fn complete<C>(self, completion: Completion<C>) -> (result: BufResult<usize, B>)
        ensures
            filled(self.buf, completion, result),
    {
        finish_fill(self.buf, completion)
    }
}

/// Write to a pipe, a socket or a device, which know no offsets.
pub struct Write<H, B> {
    pub io_handle: H,
    pub buf: B,
}

impl<H, B: IoBuf> Write<H, B> {
    /// What to ask of io_uring, given the descriptor of the handle.
    pub fn submit(&self, fd: i32) -> (request: UringRequest)
        ensures
            request matches UringRequest::Write { fd: to, len, offset: None } && to == fd && len
                == crate::driver::ops::request::spec_offered(self.buf.spec_init()),
    {
        UringRequest::Write { fd, len: offered(self.buf.bytes_init()), offset: None }
    }

    /// How to write where the kernel tells only of readiness.
    pub fn attempt(&self) -> (call: KqueueCall)
        ensures
            call == KqueueCall::OnReadiness(Direction::Write),
    {
        KqueueCall::OnReadiness(Direction::Write)
    }

    /// How to write on Windows.
    pub fn submit_overlapped(&self) -> (call: IocpCall)
        ensures
            call matches IocpCall::Transfer { len } && len == crate::driver::ops::request::spec_offered(
                self.buf.spec_init(),
            ),
    {
        IocpCall::Transfer { len: offered(self.buf.bytes_init()) }
    }

    /// Take the completion.
    pub fn complete<C>(self, completion: Completion<C>) -> (result: BufResult<usize, B>)
        ensures
            result.0 == spec_emptied(completion),
            result.1 == self.buf,
    {
        finish_drain(self.buf, completion)
    }
}

/// Write to a file at an offset.
pub struct WriteAt<H, B> {
    pub io_handle: H,
    pub buf: B,
    pub offset: u64,
}

impl<H, B: IoBuf> WriteAt<H, B> {
    /// What to ask of io_uring, given the descriptor of the handle.
    pub fn submit(&self, fd: i32) -> (request: UringRequest)
        ensures
            request matches UringRequest::Write { fd: to, len, offset } && to == fd && offset == Some(
                self.offset,
            ) && len == crate::driver::ops::request::spec_offered(self.buf.spec_init()),
    {
        UringRequest::Write { fd, len: offered(self.buf.bytes_init()), offset: Some(self.offset) }
    }

    /// How to write where the kernel tells only of readiness.
    pub fn attempt(&self) -> (call: KqueueCall)
        ensures
            call == KqueueCall::Blocking,
    {
        KqueueCall::Blocking
    }

    /// How to write on Windows.
    pub fn submit_overlapped(&self) -> (call: IocpCall)
        ensures
            call matches IocpCall::TransferAt { len, low, high } && {
                &&& len == crate::driver::ops::request::spec_offered(self.buf.spec_init())
                &&& low == (self.offset & 0xFFFF_FFFF) as u32
                &&& high == (self.offset >> 32) as u32
            },
    {
        split_offset(offered(self.buf.bytes_init()), self.offset)
    }

    /// Take the completion.
    pub fn complete<C>(self, completion: Completion<C>) -> (result: BufResult<usize, B>)
        ensures
            result.0 == spec_emptied(completion),
            result.1 == self.buf,
    {
        finish_drain(self.buf, completion)
    }
}

/// Send to a connected socket.
pub struct Send<H, B> {
    pub io_handle: H,
    pub buf: B,
}

impl<H, B: IoBuf> Send<H, B> {
    /// What to ask of io_uring, given the descriptor of the handle.
    pub fn submit(&self, fd: i32) -> (request: UringRequest)
        ensures
            request matches UringRequest::Send { fd: to, len } && to == fd && len
                == crate::driver::ops::request::spec_offered(self.buf.spec_init()),
    {
        UringRequest::Send { fd, len: offered(self.buf.bytes_init()) }
    }

    /// How to send where the kernel tells only of readiness.
    pub fn attempt(&self) -> (call: KqueueCall)
        ensures
            call == KqueueCall::OnReadiness(Direction::Write),
    {
        KqueueCall::OnReadiness(Direction::Write)
    }

    /// How to send on Windows.
    pub fn submit_overlapped(&self) -> (call: IocpCall)
        ensures
            call matches IocpCall::Transfer { len } && len == crate::driver::ops::request::spec_offered(
                self.buf.spec_init(),
            ),
    {
        IocpCall::Transfer { len: offered(self.buf.bytes_init()) }
    }

    /// The driver refused the operation. The kernel never saw it, so the buffer
    /// comes back with the error.
    pub fn refused(self, error: IoError) -> (returned: (IoError, B))
        ensures
            returned == (error, self.buf),
    {
        (error, self.buf)
    }

    /// Take the completion.
    pub fn complete<C>(self, completion: Completion<C>) -> (result: BufResult<usize, B>)
        ensures
            result.0 == spec_emptied(completion),
            result.1 == self.buf,
    {
        finish_drain(self.buf, completion)
    }
}

/// A read or a receive hands out what the platform moved: it succeeds if and only
/// if the platform reports a count that the buffer holds, zero included, and the
/// count and the initialized bytes are that number then. Otherwise the platform's
/// error comes back, or that the count cannot be right, and the buffer as it was.
pub proof fn law_fill_hands_out_what_was_moved<H, B: IoBufMut, C>(
    io_handle: H,
    buf: B,
    offset: u64,
    completion: Completion<C>,
    result: BufResult<usize, B>,
)
    requires
        buf.spec_capacity() <= usize::MAX,
        ({
            ||| call_ensures(Read::<H, B>::complete::<C>, (Read { io_handle, buf }, completion), result)
            ||| call_ensures(ReadAt::<H, B>::complete::<C>, (ReadAt { io_handle, buf, offset }, completion), result)
            ||| call_ensures(Recv::<H, B>::complete::<C>, (Recv { io_handle, buf }, completion), result)
        }),
    ensures
        completion.result matches Ok(n) ==> (n <= buf.spec_capacity() ==> result.0 == Ok::<usize, IoError>(n as usize)
            && result.1.spec_init() == n && result.1.spec_capacity() == buf.spec_capacity()),
        completion.result matches Ok(n) ==> (n > buf.spec_capacity() ==> result.0 is Err && result.1 == buf),
        completion.result matches Err(error) ==> result.0 == Err::<usize, IoError>(error) && result.1 == buf,
        result.1.spec_backing() == buf.spec_backing(),
{
}

/// A write or a send tells how much the platform took, or the platform's error,
/// and the buffer comes back as it was.
pub proof fn law_drain_tells_what_was_taken<H, B: IoBuf, C>(
    io_handle: H,
    buf: B,
    offset: u64,
    completion: Completion<C>,
    result: BufResult<usize, B>,
)
    requires
        ({
            ||| call_ensures(Write::<H, B>::complete::<C>, (Write { io_handle, buf }, completion), result)
            ||| call_ensures(WriteAt::<H, B>::complete::<C>, (WriteAt { io_handle, buf, offset }, completion), result)
            ||| call_ensures(Send::<H, B>::complete::<C>, (Send { io_handle, buf }, completion), result)
        }),
    ensures
        completion.result matches Ok(n) ==> result.0 == Ok::<usize, IoError>(n as usize),
        completion.result matches Err(error) ==> result.0 == Err::<usize, IoError>(error),
        result.1 == buf,
{
}

/// A transfer asks for all that the buffer has for it, up to what 32 bits can say:
/// a read for the whole buffer, a write for its initialized bytes, each of the
/// descriptor that it was given, at the offset that it was given.
pub proof fn law_transfers_ask_for_the_whole_buffer<H, B: IoBufMut>(
    io_handle: H,
    buf: B,
    offset: u64,
    fd: i32,
    read: UringRequest,
    read_at: UringRequest,
    recv: UringRequest,
    write: UringRequest,
    write_at: UringRequest,
    send: UringRequest,
)
    requires
        buf.spec_init() <= buf.spec_capacity() <= u32::MAX,
        call_ensures(Read::<H, B>::submit, (&Read { io_handle, buf }, fd), read),
        call_ensures(ReadAt::<H, B>::submit, (&ReadAt { io_handle, buf, offset }, fd), read_at),
        call_ensures(Recv::<H, B>::submit, (&Recv { io_handle, buf }, fd), recv),
        call_ensures(Write::<H, B>::submit, (&Write { io_handle, buf }, fd), write),
        call_ensures(WriteAt::<H, B>::submit, (&WriteAt { io_handle, buf, offset }, fd), write_at),
        call_ensures(Send::<H, B>::submit, (&Send { io_handle, buf }, fd), send),
    ensures
        read == (UringRequest::Read { fd, len: buf.spec_capacity() as u32, offset: None }),
        read_at == (UringRequest::Read { fd, len: buf.spec_capacity() as u32, offset: Some(offset) }),
        recv == (UringRequest::Recv { fd, len: buf.spec_capacity() as u32 }),
        write == (UringRequest::Write { fd, len: buf.spec_init() as u32, offset: None }),
        write_at == (UringRequest::Write { fd, len: buf.spec_init() as u32, offset: Some(offset) }),
        send == (UringRequest::Send { fd, len: buf.spec_init() as u32 }),
{
}

} // verus!
