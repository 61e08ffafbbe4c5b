//! Receiving into buffers that the kernel takes from a pool.
use crate::buf::{IoBufMut, PooledBuf};
use crate::driver::backends::iouring::{cqe_buffer_select, MultishotCleanup};
use crate::driver::ops::request::UringRequest;
use crate::driver::ops::Completion;
use crate::error::{ErrorKind, IoError};
use vstd::prelude::*;

verus! {

/// The message was longer than the buffer.
pub const MSG_TRUNC: u32 = 0x20;

/// The room that a socket address of any kind needs.
pub const SOCKADDR_STORAGE_LEN: u32 = 128;

/// The length of what the kernel writes before a message.
pub const RECVMSG_HEADER_LEN: usize = 16;

/// How many bytes to receive into a buffer of the pool; zero asks for as many
/// as it holds.
pub open spec fn spec_managed_len(len: usize, pool_len: usize) -> usize {
    if len == 0 || len > pool_len {
        pool_len
    } else {
        len
    }
}

/// How many bytes to receive into a buffer of the pool.
pub fn managed_len(len: usize, pool_len: usize) -> (managed: usize)
    ensures
        managed == spec_managed_len(len, pool_len),
{
    if len == 0 {
        pool_len
    } else if len < pool_len {
        len
    } else {
        pool_len
    }
}

/// What a completion means for the buffer that the kernel took from the pool.
#[derive(Debug)]
pub enum Selected {
    /// Nothing was received. A buffer that was taken all the same goes back.
    Failed { error: IoError, recycle: Option<u16> },
    /// The peer has closed the connection, and no buffer was taken.
    Ended,
    /// So many bytes are in the buffer with this number.
    Take { id: u16, n: usize },
}

/// What a completion means. `stream` says whether nothing at all means the end,
/// and `missing` describes a message without a buffer.
pub open spec fn spec_select<C>(completion: Completion<C>, stream: bool, missing: &'static str) -> Selected {
    let id = crate::driver::backends::iouring::spec_buffer_select(completion.flags);
    match (completion.result, id) {
        (Err(error), _) => Selected::Failed { error, recycle: id },
        (Ok(n), Some(id)) => Selected::Take { id, n: n as usize },
        (Ok(n), None) => if stream && n == 0 {
            Selected::Ended
        } else {
            Selected::Failed {
                error: IoError::Custom { kind: ErrorKind::Other, message: missing },
                recycle: None,
            }
        },
    }
}

/// Find out what a completion means.
fn select<C>(completion: Completion<C>, stream: bool, missing: &'static str) -> (step: Selected)
    ensures
        step == spec_select(completion, stream, missing),
{
    let id = cqe_buffer_select(completion.flags);
    match completion.result {
        Err(error) => Selected::Failed { error, recycle: id },
        Ok(n) => match id {
            Some(id) => Selected::Take { id, n: n as usize },
            None => if stream && n == 0 {
                Selected::Ended
            } else {
                Selected::Failed { error: IoError::other(missing), recycle: None }
            },
        },
    }
}

/// A buffer that the kernel took is never lost: it is handed on, or it goes back
/// to the pool.
pub proof fn law_selected_buffer_is_kept_or_recycled<C>(
    completion: Completion<C>,
    stream: bool,
    missing: &'static str,
    id: u16,
)
    requires
        crate::driver::backends::iouring::spec_buffer_select(completion.flags) == Some(id),
    ensures
        match spec_select(completion, stream, missing) {
            Selected::Failed { recycle, .. } => recycle == Some(id),
            Selected::Ended => false,
            Selected::Take { id: taken, .. } => taken == id,
        },
{
}

/// What becomes of `n` bytes in a buffer that was looked for in the pool.
/// `missing` describes that it was not there.
pub open spec fn leased(
    taken: Result<Option<PooledBuf>, IoError>,
    n: nat,
    missing: &'static str,
    buf: Result<PooledBuf, IoError>,
) -> bool {
    match taken {
        Err(error) => buf == Err::<PooledBuf, IoError>(error),
        Ok(None) => buf == Err::<PooledBuf, IoError>(
            IoError::Custom { kind: ErrorKind::Other, message: missing },
        ),
        Ok(Some(lease)) => {
            &&& buf matches Ok(buf)
            &&& buf.spec_id() == lease.spec_id()
            &&& buf.spec_storage() == lease.spec_storage()
            &&& buf.spec_start() == 0
            &&& buf.spec_end() == n
        },
    }
}

/// Show `n` bytes of a buffer that was looked for in the pool.
fn lease(taken: Result<Option<PooledBuf>, IoError>, n: usize, missing: &'static str) -> (buf: Result<
    PooledBuf,
    IoError,
>)
    requires
        taken matches Ok(Some(lease)) ==> n <= lease.spec_storage().len(),
    ensures
        leased(taken, n as nat, missing, buf),
{
    match taken {
        Err(error) => Err(error),
        Ok(None) => Err(IoError::other(missing)),
        Ok(Some(lease)) => {
            let mut buf = lease;
            buf.set_len(n);
            Ok(buf)
        },
    }
}

/// Receive once into a buffer of the pool.
pub struct RecvManaged<H> {
    pub io_handle: H,
    /// How many bytes to receive at most.
    pub len: u32,
    pub buffer_group: u16,
}

impl<H> RecvManaged<H> {
    pub fn new(io_handle: H, len: usize, pool_len: usize, buffer_group: u16) -> (op: Result<Self, IoError>)
        ensures
            op is Ok <==> spec_managed_len(len, pool_len) <= u32::MAX,
            op matches Ok(op) ==> {
                &&& op.io_handle == io_handle
                &&& op.len == spec_managed_len(len, pool_len)
                &&& op.buffer_group == buffer_group
            },
            op matches Err(error) ==> error == (IoError::Custom {
                kind: ErrorKind::InvalidInput,
                message: "managed recv length too large",
            }),
    {
        let len: usize = managed_len(len, pool_len);
        if len as u64 > u32::MAX as u64 {
            return Err(IoError::new(ErrorKind::InvalidInput, "managed recv length too large"));
        }
        Ok(RecvManaged { io_handle, len: len as u32, buffer_group })
    }

    /// What to ask of io_uring, given the descriptor of the handle.
    pub fn submit(&self, fd: i32) -> (request: UringRequest)
        ensures
            request == (UringRequest::RecvSelect { fd, len: self.len, buffer_group: self.buffer_group }),
    {
        UringRequest::RecvSelect { fd, len: self.len, buffer_group: self.buffer_group }
    }

    /// Take the completion. The end of a stream takes no buffer; a message does,
    /// even if it is empty.
    pub fn complete<C>(&self, completion: Completion<C>) -> (step: Selected)
        ensures
            step == spec_select(completion, true, "managed recv completed without a buffer id"),
    {
        select(completion, true, "managed recv completed without a buffer id")
    }

    /// Take the buffer that was looked for in the pool.
    pub fn finish(&self, n: usize, taken: Result<Option<PooledBuf>, IoError>) -> (buf: Result<PooledBuf, IoError>)
        requires
            taken matches Ok(Some(lease)) ==> n <= lease.spec_storage().len(),
        ensures
            leased(taken, n as nat, "managed recv buffer id was not available in the pool", buf),
    {
        lease(taken, n, "managed recv buffer id was not available in the pool")
    }
}

/// Keep receiving into buffers of the pool.
pub struct RecvMulti<H> {
    pub io_handle: H,
    pub buffer_group: u16,
}

impl<H> RecvMulti<H> {
    /// What to ask of io_uring, given the descriptor of the handle.
    pub fn submit(&self, fd: i32) -> (request: UringRequest)
        ensures
            request == (UringRequest::RecvMulti { fd, buffer_group: self.buffer_group }),
    {
        UringRequest::RecvMulti { fd, buffer_group: self.buffer_group }
    }

    /// Take a completion. The end of the stream makes no item.
    pub fn complete_item<C>(&self, completion: Completion<C>) -> (step: Selected)
        ensures
            step == spec_select(completion, true, "multishot recv completed without a buffer id"),
    {
        select(completion, true, "multishot recv completed without a buffer id")
    }

    /// Take the buffer that was looked for in the pool.
    pub fn take_buffer(&self, n: usize, taken: Result<Option<PooledBuf>, IoError>) -> (buf: Result<
        PooledBuf,
        IoError,
    >)
        requires
            taken matches Ok(Some(lease)) ==> n <= lease.spec_storage().len(),
        ensures
            leased(taken, n as nat, "multishot recv buffer id was not available in the pool", buf),
    {
        lease(taken, n, "multishot recv buffer id was not available in the pool")
    }

    /// A completion that nobody takes may hold a buffer.
    pub fn completion_cleanup(&self) -> (cleanup: MultishotCleanup)
        ensures
            cleanup == MultishotCleanup::ProvidedBuffer(self.buffer_group),
    {
        MultishotCleanup::ProvidedBuffer(self.buffer_group)
    }
}

/// A message in a buffer of the pool.
#[derive(Debug)]
pub struct RecvDatagram<A> {
    pub buf: PooledBuf,
    /// Where it came from, if that was asked for.
    pub peer: Option<A>,
    pub flags: u32,
    /// How long it was, whether or not all of it is there.
    pub original_len: usize,
}

/// Receive a message once into a buffer of the pool.
pub struct RecvFromManaged<H> {
    pub io_handle: H,
    pub buffer_group: u16,
    /// How many bytes to receive at most.
    pub buffer_len: usize,
    /// Ask where the message came from.
    pub capture_peer: bool,
}

impl<H> RecvFromManaged<H> {
    pub fn new(io_handle: H, len: usize, pool_len: usize, buffer_group: u16, capture_peer: bool) -> (op: Self)
        ensures
            op.io_handle == io_handle,
            op.buffer_group == buffer_group,
            op.buffer_len == spec_managed_len(len, pool_len),
            op.capture_peer == capture_peer,
    {
        RecvFromManaged { io_handle, buffer_group, buffer_len: managed_len(len, pool_len), capture_peer }
    }

    /// What to ask of io_uring, given the descriptor of the handle. The kernel
    /// tells the true length of a message that it cuts short.
    pub fn submit(&self, fd: i32) -> (request: UringRequest)
        ensures
            request == (UringRequest::RecvMsgSelect {
                fd,
                flags: MSG_TRUNC,
                buffer_group: self.buffer_group,
            }),
    {
        UringRequest::RecvMsgSelect { fd, flags: MSG_TRUNC, buffer_group: self.buffer_group }
    }

    /// Take the completion. A message always takes a buffer.
    pub fn complete<C>(&self, completion: Completion<C>) -> (step: Selected)
        ensures
            step == spec_select(completion, false, "managed recv_from completed without a buffer id"),
    {
        select(completion, false, "managed recv_from completed without a buffer id")
    }

    /// How much of a message of `n` bytes is in the buffer.
    pub open spec fn spec_copied(&self, n: usize) -> usize {
        if n < self.buffer_len {
            n
        } else {
            self.buffer_len
        }
    }

    /// How long the address is. The kernel's word counts if it can be true.
    pub open spec fn spec_name_len(name_len: u32, room: u32) -> u32 {
        if 0 < name_len <= room {
            name_len
        } else {
            room
        }
    }

    /// The message, once its buffer and its peer are known.
    pub open spec fn datagram<A>(
        &self,
        n: usize,
        lease: PooledBuf,
        flags: u32,
        peer: Option<A>,
        datagram: RecvDatagram<A>,
    ) -> bool {
        &&& datagram.buf.spec_id() == lease.spec_id()
        &&& datagram.buf.spec_storage() == lease.spec_storage()
        &&& datagram.buf.spec_start() == 0
        &&& datagram.buf.spec_end() == self.spec_copied(n)
        &&& datagram.peer == peer
        &&& datagram.flags == (if n > self.buffer_len {
            flags | MSG_TRUNC
        } else {
            flags
        })
        &&& datagram.original_len == n
    }

    /// Take the buffer that was looked for in the pool, and put the message
    /// together.
    ///
    /// The kernel wrote down `name_len` and `flags`. `decode` makes out the
    /// address in the first bytes of the `room` that it was given.
    pub fn finish<A, D: FnOnce(u32) -> Option<A>>(
        &self,
        n: usize,
        taken: Result<Option<PooledBuf>, IoError>,
        name_len: u32,
        room: u32,
        flags: u32,
        decode: D,
    ) -> (message: Result<RecvDatagram<A>, IoError>)
        requires
            taken matches Ok(Some(lease)) ==> self.buffer_len <= lease.spec_storage().len(),
            taken matches Ok(Some(_)) && self.capture_peer ==> call_requires(
                decode,
                (RecvFromManaged::<H>::spec_name_len(name_len, room),),
            ),
        ensures
            match taken {
                Err(error) => message == Err::<RecvDatagram<A>, IoError>(error),
                Ok(None) => message == Err::<RecvDatagram<A>, IoError>(
                    IoError::Custom {
                        kind: ErrorKind::Other,
                        message: "managed recv_from buffer id was not available in the pool",
                    },
                ),
                Ok(Some(lease)) => if self.capture_peer {
                    exists|peer: Option<A>| #[trigger]
                        call_ensures(decode, (RecvFromManaged::<H>::spec_name_len(name_len, room),), peer)
                            && match peer {
                            Some(_) => message matches Ok(message) && self.datagram(
                                n,
                                lease,
                                flags,
                                peer,
                                message,
                            ),
                            None => message == Err::<RecvDatagram<A>, IoError>(
                                IoError::Custom {
                                    kind: ErrorKind::InvalidData,
                                    message: "kernel returned an invalid socket address",
                                },
                            ),
                        }
                } else {
                    message matches Ok(message) && self.datagram(n, lease, flags, None, message)
                },
            },
    {
        let copied_len: usize = if n < self.buffer_len {
            n
        } else {
            self.buffer_len
        };
        let buf = match lease(
            taken,
            copied_len,
            "managed recv_from buffer id was not available in the pool",
        ) {
            Ok(buf) => buf,
            Err(error) => {
                return Err(error);
            },
        };
        let peer = if self.capture_peer {
            let length: u32 = if name_len > 0 && name_len <= room {
                name_len
            } else {
                room
            };
            match decode(length) {
                Some(peer) => Some(peer),
                None => {
                    return Err(
                        IoError::new(ErrorKind::InvalidData, "kernel returned an invalid socket address"),
                    );
                },
            }
        } else {
            None
        };
        let flags: u32 = if n > copied_len {
            flags | MSG_TRUNC
        } else {
            flags
        };
        Ok(RecvDatagram { buf, peer, flags, original_len: n })
    }

    /// A message is marked as cut short if and only if some of it is missing,
    /// or the kernel marked it.
    pub proof fn law_truncation_is_marked<A>(
        &self,
        n: usize,
        lease: PooledBuf,
        flags: u32,
        peer: Option<A>,
        message: RecvDatagram<A>,
    )
        requires
            self.datagram(n, lease, flags, peer, message),
        ensures
            message.flags & MSG_TRUNC != 0 <==> message.buf.spec_end() < message.original_len || flags
                & MSG_TRUNC != 0,
    {
        assert((flags | 0x20) & 0x20 != 0) by (bit_vector);
    }
}

/// What the kernel writes before a message, and where the message is.
#[derive(Debug)]
pub struct RecvMsgParts {
    /// The address of the peer, as far as there was room for it.
    pub name: Vec<u8>,
    /// How much of the message is there.
    pub payload_len: usize,
    /// How long the message was.
    pub incoming_payload_len: u32,
    pub flags: u32,
}

/// A word of what the kernel writes before a message, on a machine that puts the
/// low byte first, or on one that puts it last.
pub open spec fn header_word(bytes: Seq<u8>, index: int, low_first: bool) -> int {
    let at = 4 * index;
    if low_first {
        bytes[at] + 0x100 * bytes[at + 1] + 0x1_0000 * bytes[at + 2] + 0x100_0000 * bytes[at + 3]
    } else {
        0x100_0000 * bytes[at] + 0x1_0000 * bytes[at + 1] + 0x100 * bytes[at + 2] + bytes[at + 3]
    }
}

/// The smaller of two numbers.
pub open spec fn smaller(a: int, b: int) -> int {
    if a < b {
        a
    } else {
        b
    }
}

/// Whether a buffer holds these parts: four words, which are the length of the
/// address, that of the control data, that of the message, and the flags; then
/// `name_room` bytes with the address; then the message.
pub open spec fn laid_out(bytes: Seq<u8>, name_room: u32, low_first: bool, parts: RecvMsgParts) -> bool {
    let name_len = smaller(header_word(bytes, 0, low_first), name_room as int);
    &&& parts.name@ == bytes.subrange(RECVMSG_HEADER_LEN as int, RECVMSG_HEADER_LEN + name_len)
    &&& parts.payload_len == smaller(
        header_word(bytes, 2, low_first),
        bytes.len() - RECVMSG_HEADER_LEN - name_room,
    )
    &&& parts.incoming_payload_len == header_word(bytes, 2, low_first)
    &&& parts.flags == header_word(bytes, 3, low_first)
}

/// The outcome of taking a buffer apart. It has to hold at least what the
/// kernel writes before a message.
pub open spec fn parsed(bytes: Seq<u8>, name_room: u32, parts: Option<RecvMsgParts>) -> bool {
    &&& parts is Some <==> bytes.len() >= RECVMSG_HEADER_LEN + name_room
    &&& parts matches Some(parts) ==> exists|low_first: bool| #[trigger]
        laid_out(bytes, name_room, low_first, parts)
}

/// Calls [`io_uring::types::RecvMsgOut::parse`], for messages without control
/// data.
///
/// The claim is that a buffer can be taken apart if and only if it holds the
/// four words of the header and the room for the address; and that the address,
/// the length of the message within the buffer, its true length and its flags
/// are then where [`laid_out`] has them. The words are in the byte order of the
/// machine, which is left open.
#[verifier::external_body]
fn parse_recvmsg(bytes: &[u8], name_room: u32) -> (parts: Option<RecvMsgParts>)
    ensures
        parsed(bytes@, name_room, parts),
{
    let head = libc::msghdr {
        msg_name: std::ptr::null_mut(),
        msg_namelen: name_room,
        msg_iov: std::ptr::null_mut(),
        msg_iovlen: 0,
        msg_control: std::ptr::null_mut(),
        msg_controllen: 0,
        msg_flags: 0,
    };
    io_uring::types::RecvMsgOut::parse(bytes, &head).ok().map(|out| RecvMsgParts {
        name: out.name_data().to_vec(), payload_len: out.payload_data().len(),
        incoming_payload_len: out.incoming_payload_len(), flags: out.flags(),
    })
}

/// Keep receiving messages into buffers of the pool.
pub struct RecvFromMulti<H> {
    pub io_handle: H,
    pub buffer_group: u16,
    /// The room for the address of the peer in each buffer.
    pub name_room: u32,
}

/// The message in a buffer that was taken apart, once its peer is known.
pub open spec fn datagram_in<A>(
    buf: PooledBuf,
    name_room: u32,
    parts: RecvMsgParts,
    peer: Option<A>,
    datagram: RecvDatagram<A>,
) -> bool {
    &&& datagram.buf.spec_id() == buf.spec_id()
    &&& datagram.buf.spec_storage() == buf.spec_storage()
    &&& datagram.buf.spec_start() == buf.spec_start() + RECVMSG_HEADER_LEN + name_room
    &&& datagram.buf.spec_end() == buf.spec_start() + RECVMSG_HEADER_LEN + name_room + parts.payload_len
    &&& datagram.peer == peer
    &&& datagram.flags == parts.flags
    &&& datagram.original_len == parts.incoming_payload_len
}

impl<H> RecvFromMulti<H> {
    pub fn new(io_handle: H, buffer_group: u16, capture_peer: bool) -> (op: Self)
        ensures
            op.io_handle == io_handle,
            op.buffer_group == buffer_group,
            op.name_room == (if capture_peer {
                SOCKADDR_STORAGE_LEN
            } else {
                0
            }),
    {
        let name_room: u32 = if capture_peer {
            SOCKADDR_STORAGE_LEN
        } else {
            0
        };
        RecvFromMulti { io_handle, buffer_group, name_room }
    }

    /// What to ask of io_uring, given the descriptor of the handle.
    pub fn submit(&self, fd: i32) -> (request: UringRequest)
        ensures
            request == (UringRequest::RecvMsgMulti { fd, buffer_group: self.buffer_group }),
    {
        UringRequest::RecvMsgMulti { fd, buffer_group: self.buffer_group }
    }

    /// Take a completion. A message always takes a buffer.
    pub fn complete_item<C>(&self, completion: Completion<C>) -> (step: Selected)
        ensures
            step == spec_select(completion, false, "multishot recv_from completed without a buffer id"),
    {
        select(completion, false, "multishot recv_from completed without a buffer id")
    }

    /// The outcome of putting a message together from the parts of its buffer.
    pub open spec fn assembled<A, D: FnOnce(Vec<u8>) -> Option<A>>(
        &self,
        buf: PooledBuf,
        parts: Option<RecvMsgParts>,
        decode: D,
        message: Result<RecvDatagram<A>, IoError>,
    ) -> bool {
        match parts {
            None => message == Err::<RecvDatagram<A>, IoError>(
                IoError::Custom {
                    kind: ErrorKind::InvalidData,
                    message: "failed to parse multishot recvmsg buffer layout",
                },
            ),
            Some(parts) => if self.name_room == 0 {
                message matches Ok(message) && datagram_in(buf, self.name_room, parts, None, message)
            } else if parts.name@.len() == 0 {
                message == Err::<RecvDatagram<A>, IoError>(
                    IoError::Custom {
                        kind: ErrorKind::InvalidData,
                        message: "multishot recv_from returned empty peer address",
                    },
                )
            } else {
                exists|peer: Option<A>| #[trigger]
                    call_ensures(decode, (parts.name,), peer) && match peer {
                        Some(_) => message matches Ok(message) && datagram_in(
                            buf,
                            self.name_room,
                            parts,
                            peer,
                            message,
                        ),
                        None => message == Err::<RecvDatagram<A>, IoError>(
                            IoError::Custom {
                                kind: ErrorKind::InvalidData,
                                message: "invalid peer address in multishot recv_from",
                            },
                        ),
                    }
            },
        }
    }

    /// Put a message together from the parts of its buffer. `decode` makes out
    /// an address.
    pub fn assemble<A, D: FnOnce(Vec<u8>) -> Option<A>>(
        &self,
        buf: PooledBuf,
        parts: Option<RecvMsgParts>,
        decode: D,
    ) -> (message: Result<RecvDatagram<A>, IoError>)
        requires
            parts matches Some(parts) ==> {
                &&& self.name_room > 0 && parts.name@.len() > 0 ==> call_requires(decode, (parts.name,))
                &&& buf.spec_start() + RECVMSG_HEADER_LEN + self.name_room + parts.payload_len
                    <= buf.spec_end()
            },
        ensures
            self.assembled(buf, parts, decode, message),
    {
        let parts = match parts {
            Some(parts) => parts,
            None => {
                return Err(
                    IoError::new(
                        ErrorKind::InvalidData,
                        "failed to parse multishot recvmsg buffer layout",
                    ),
                );
            },
        };
        let payload_len: usize = parts.payload_len;
        let original_len: usize = parts.incoming_payload_len as usize;
        let flags: u32 = parts.flags;
        let peer = if self.name_room > 0 {
            if parts.name.len() == 0 {
                return Err(
                    IoError::new(
                        ErrorKind::InvalidData,
                        "multishot recv_from returned empty peer address",
                    ),
                );
            }
            match decode(parts.name) {
                Some(peer) => Some(peer),
                None => {
                    return Err(
                        IoError::new(ErrorKind::InvalidData, "invalid peer address in multishot recv_from"),
                    );
                },
            }
        } else {
            None
        };
        let mut buf = buf;
        let start: usize = RECVMSG_HEADER_LEN + self.name_room as usize;
        match buf.set_view(start, start + payload_len) {
            Ok(()) => Ok(RecvDatagram { buf, peer, flags, original_len }),
            Err(error) => Err(error),
        }
    }

    /// Take the buffer that was looked for in the pool, and put the message
    /// together.
    pub fn parse_item<A, D: FnOnce(Vec<u8>) -> Option<A>>(
        &self,
        n: usize,
        taken: Result<Option<PooledBuf>, IoError>,
        decode: D,
    ) -> (message: Result<RecvDatagram<A>, IoError>)
        requires
            taken matches Ok(Some(lease)) ==> n <= lease.spec_storage().len(),
            forall|name: Vec<u8>|
                taken matches Ok(Some(_)) && self.name_room > 0 && name@.len() > 0 ==> #[trigger] call_requires(
                    decode,
                    (name,),
                ),
        ensures
            match taken {
                Err(error) => message == Err::<RecvDatagram<A>, IoError>(error),
                Ok(None) => message == Err::<RecvDatagram<A>, IoError>(
                    IoError::Custom {
                        kind: ErrorKind::Other,
                        message: "multishot recv_from buffer id missing from pool",
                    },
                ),
                Ok(Some(lease)) => exists|buf: PooledBuf, parts: Option<RecvMsgParts>|
                    {
                        &&& #[trigger] leased(
                            taken,
                            n as nat,
                            "multishot recv_from buffer id missing from pool",
                            Ok(buf),
                        )
                        &&& #[trigger] parsed(lease.spec_storage().subrange(0, n as int), self.name_room, parts)
                        &&& self.assembled(buf, parts, decode, message)
                    },
            },
    {
        let ghost lent = taken;
        let buf = match lease(taken, n, "multishot recv_from buffer id missing from pool") {
            Ok(buf) => buf,
            Err(error) => {
                return Err(error);
            },
        };
        let ghost shown = buf;
        let parts = parse_recvmsg(buf.as_slice(), self.name_room);
        assert(leased(lent, n as nat, "multishot recv_from buffer id missing from pool", Ok(shown)));
        self.assemble(buf, parts, decode)
    }

    /// A completion that nobody takes may hold a buffer.
    pub fn completion_cleanup(&self) -> (cleanup: MultishotCleanup)
        ensures
            cleanup == MultishotCleanup::ProvidedBuffer(self.buffer_group),
    {
        MultishotCleanup::ProvidedBuffer(self.buffer_group)
    }
}

/// No more is received than was asked for and than a buffer of the pool holds; where
/// nothing was asked for, as much as the buffer holds.
pub proof fn law_received_length_is_what_was_asked(len: usize, pool_len: usize, managed: usize)
    requires
        call_ensures(managed_len, (len, pool_len), managed),
    ensures
        managed <= pool_len,
        len > 0 ==> managed <= len,
        0 < len <= pool_len ==> managed == len,
        len == 0 || len > pool_len ==> managed == pool_len,
{
}

/// What the kernel puts into a buffer of the pool reaches the receiver: an entry that
/// reports a number of bytes and the buffer that holds them is taken for that number
/// in that buffer, by every receiver.
pub proof fn law_received_bytes_are_found_in_their_buffer<H>(
    cqe: crate::driver::backends::iouring::Cqe,
    completion: Completion,
    recv: RecvManaged<H>,
    multi: RecvMulti<H>,
    from: RecvFromManaged<H>,
    from_multi: RecvFromMulti<H>,
    steps: (Selected, Selected, Selected, Selected),
)
    requires
        call_ensures(crate::driver::backends::iouring::Cqe::completion, (&cqe,), completion),
        call_ensures(RecvManaged::<H>::complete::<()>, (&recv, completion), steps.0),
        call_ensures(RecvMulti::<H>::complete_item::<()>, (&multi, completion), steps.1),
        call_ensures(RecvFromManaged::<H>::complete::<()>, (&from, completion), steps.2),
        call_ensures(RecvFromMulti::<H>::complete_item::<()>, (&from_multi, completion), steps.3),
        cqe.result >= 0,
        cqe.flags & 1 != 0,
    ensures
        steps.0 == (Selected::Take { id: (cqe.flags >> 16) as u16, n: cqe.result as usize }),
        steps.1 == (Selected::Take { id: (cqe.flags >> 16) as u16, n: cqe.result as usize }),
        steps.2 == (Selected::Take { id: (cqe.flags >> 16) as u16, n: cqe.result as usize }),
        steps.3 == (Selected::Take { id: (cqe.flags >> 16) as u16, n: cqe.result as usize }),
{
}

/// A connection has ended, and only then, when a receive reports nothing at all and
/// no buffer. A failure is the error that the kernel reports, and a buffer that comes
/// with it goes back. A message without a buffer is a failure, even an empty one.
pub proof fn law_entries_without_bytes_end_or_fail<H>(
    cqe: crate::driver::backends::iouring::Cqe,
    completion: Completion,
    recv: RecvManaged<H>,
    multi: RecvMulti<H>,
    from: RecvFromManaged<H>,
    from_multi: RecvFromMulti<H>,
    steps: (Selected, Selected, Selected, Selected),
)
    requires
        call_ensures(crate::driver::backends::iouring::Cqe::completion, (&cqe,), completion),
        call_ensures(RecvManaged::<H>::complete::<()>, (&recv, completion), steps.0),
        call_ensures(RecvMulti::<H>::complete_item::<()>, (&multi, completion), steps.1),
        call_ensures(RecvFromManaged::<H>::complete::<()>, (&from, completion), steps.2),
        call_ensures(RecvFromMulti::<H>::complete_item::<()>, (&from_multi, completion), steps.3),
    ensures
        steps.0 is Ended <==> cqe.result == 0 && cqe.flags & 1 == 0,
        steps.1 is Ended <==> cqe.result == 0 && cqe.flags & 1 == 0,
        !(steps.2 is Ended),
        !(steps.3 is Ended),
        cqe.result > 0 && cqe.flags & 1 == 0 ==> steps.0 is Failed && steps.1 is Failed,
        cqe.result >= 0 && cqe.flags & 1 == 0 ==> steps.2 is Failed && steps.3 is Failed,
        i32::MIN < cqe.result < 0 ==> {
            let error = IoError::Os((0 - cqe.result) as i32);
            let recycle = if cqe.flags & 1 != 0 {
                Some((cqe.flags >> 16) as u16)
            } else {
                None
            };
            &&& steps.0 == (Selected::Failed { error, recycle })
            &&& steps.1 == (Selected::Failed { error, recycle })
            &&& steps.2 == (Selected::Failed { error, recycle })
            &&& steps.3 == (Selected::Failed { error, recycle })
        },
{
}

/// A buffer that was found in the pool is handed out as it is, and shows as many of
/// its first bytes as were received. One that was not found is a failure.
pub proof fn law_leased_buffer_shows_what_was_received<H>(
    recv: RecvManaged<H>,
    multi: RecvMulti<H>,
    n: usize,
    taken: Result<Option<PooledBuf>, IoError>,
    once: Result<PooledBuf, IoError>,
    item: Result<PooledBuf, IoError>,
)
    requires
        call_ensures(RecvManaged::<H>::finish, (&recv, n, taken), once),
        call_ensures(RecvMulti::<H>::take_buffer, (&multi, n, taken), item),
    ensures
        taken matches Ok(Some(lease)) ==> {
            &&& once matches Ok(buf) && buf.spec_id() == lease.spec_id() && buf.spec_storage() == lease.spec_storage()
                && buf.spec_start() == 0 && buf.spec_end() == n
            &&& item matches Ok(buf) && buf.spec_id() == lease.spec_id() && buf.spec_storage() == lease.spec_storage()
                && buf.spec_start() == 0 && buf.spec_end() == n
        },
        taken matches Ok(None) ==> once is Err && item is Err,
        taken matches Err(error) ==> once == Err::<PooledBuf, IoError>(error) && item == Err::<PooledBuf, IoError>(error),
{
}

impl<H> RecvFromManaged<H> {
    /// A message that was received into a buffer of the pool is shown as far as it is
    /// there, with its true length and the address of its peer, if that was asked
    /// for.
    pub proof fn law_message_shows_what_is_there<A>(
        &self,
        n: usize,
        lease: PooledBuf,
        flags: u32,
        peer: Option<A>,
        message: RecvDatagram<A>,
    )
        requires
            self.datagram(n, lease, flags, peer, message),
        ensures
            message.buf.spec_id() == lease.spec_id(),
            message.buf.spec_storage() == lease.spec_storage(),
            message.buf.spec_start() == 0,
            n <= self.buffer_len ==> message.buf.spec_end() == n && message.flags == flags,
            n > self.buffer_len ==> message.buf.spec_end() == self.buffer_len && message.flags & 0x20 != 0,
            message.original_len == n,
            message.peer == peer,
    {
        assert((flags | 0x20) & 0x20 != 0) by (bit_vector);
    }

    /// The address is as long as the kernel says, where that can be true, and all the
    /// room is looked at otherwise.
    pub proof fn law_address_length_can_be_true(name_len: u32, room: u32)
        ensures
            RecvFromManaged::<H>::spec_name_len(name_len, room) <= room,
            0 < name_len <= room ==> RecvFromManaged::<H>::spec_name_len(name_len, room) == name_len,
            name_len == 0 || name_len > room ==> RecvFromManaged::<H>::spec_name_len(name_len, room) == room,
    {
    }
}

impl<H> RecvFromMulti<H> {
    /// A message that stands in its buffer behind its head and the room for the
    /// address is shown without them, with its true length and its flags. It has a
    /// peer if that was asked for and the address can be made out, and is a failure
    /// if it cannot.
    pub proof fn law_message_is_shown_without_its_head<A, D: FnOnce(Vec<u8>) -> Option<A>>(
        &self,
        buf: PooledBuf,
        parts: RecvMsgParts,
        decode: D,
        decoded: Option<A>,
        message: Result<RecvDatagram<A>, IoError>,
    )
        requires
            call_ensures(RecvFromMulti::<H>::assemble::<A, D>, (self, buf, Some(parts), decode), message),
            forall|peer: Option<A>| #[trigger] call_ensures(decode, (parts.name,), peer) ==> peer == decoded,
        ensures
            message matches Ok(shown) ==> {
                &&& shown.buf.spec_id() == buf.spec_id()
                &&& shown.buf.spec_storage() == buf.spec_storage()
                &&& shown.buf.spec_start() == buf.spec_start() + 16 + self.name_room
                &&& shown.buf.spec_end() == shown.buf.spec_start() + parts.payload_len
                &&& shown.original_len == parts.incoming_payload_len
                &&& shown.flags == parts.flags
                &&& self.name_room > 0 ==> shown.peer == decoded && decoded is Some
                &&& self.name_room == 0 ==> shown.peer is None
            },
            message is Ok <==> self.name_room == 0 || (parts.name@.len() > 0 && decoded is Some),
    {
        assert(self.assembled(buf, Some(parts), decode, message));
    }
}

/// What is found of a message lies behind its head and the room for an address: as much
/// of it as came, or as much as there is room for, if that is less. The address takes
/// no more than its room.
pub proof fn law_message_lies_behind_its_head(bytes: Seq<u8>, name_room: u32, parts: Option<RecvMsgParts>)
    requires
        parsed(bytes, name_room, parts),
    ensures
        parts is Some <==> bytes.len() >= 16 + name_room,
        parts matches Some(parts) ==> {
            &&& parts.payload_len <= parts.incoming_payload_len
            &&& 16 + name_room + parts.payload_len <= bytes.len()
            &&& parts.payload_len == parts.incoming_payload_len || 16 + name_room + parts.payload_len == bytes.len()
            &&& parts.name@.len() <= name_room
            &&& forall|i: int| 0 <= i < parts.name@.len() ==> #[trigger] parts.name@[i] == bytes[16 + i]
        },
{
    if let Some(parts) = parts {
        let low_first = choose|low_first: bool| #[trigger] laid_out(bytes, name_room, low_first, parts);
        assert(header_word(bytes, 0, low_first) >= 0);
        assert(header_word(bytes, 2, low_first) >= 0);
    }
}

/// The digits of a number to the base 256.
proof fn lemma_digits(a: int, b: int, c: int, d: int)
    requires
        0 <= a < 256,
        0 <= b < 256,
        0 <= c < 256,
        0 <= d < 256,
    ensures
        ({
            let word = a + 0x100 * b + 0x1_0000 * c + 0x100_0000 * d;
            &&& word % 256 == a
            &&& word / 256 % 256 == b
            &&& word / 65_536 % 256 == c
            &&& word / 16_777_216 == d
        }),
{
    let word = a + 0x100 * b + 0x1_0000 * c + 0x100_0000 * d;
    assert(word / 256 == b + 0x100 * c + 0x1_0000 * d);
    assert(word / 65_536 == c + 0x100 * d);
    assert((b + 0x100 * c + 0x1_0000 * d) % 256 == b);
    assert((c + 0x100 * d) % 256 == c);
}

/// The four bytes of a word in the head of a message are its digits to the base 256, the
/// lowest one first or last.
pub proof fn law_header_words_are_their_bytes(bytes: Seq<u8>, index: int)
    ensures
        ({
            let word = header_word(bytes, index, true);
            let back = header_word(bytes, index, false);
            &&& 0 <= word < 0x1_0000_0000 && 0 <= back < 0x1_0000_0000
            &&& word % 256 == bytes[4 * index] && back / 16_777_216 == bytes[4 * index]
            &&& word / 256 % 256 == bytes[4 * index + 1] && back / 65_536 % 256 == bytes[4 * index + 1]
            &&& word / 65_536 % 256 == bytes[4 * index + 2] && back / 256 % 256 == bytes[4 * index + 2]
            &&& word / 16_777_216 == bytes[4 * index + 3] && back % 256 == bytes[4 * index + 3]
        }),
{
    let at = 4 * index;
    lemma_digits(bytes[at] as int, bytes[at + 1] as int, bytes[at + 2] as int, bytes[at + 3] as int);
    lemma_digits(bytes[at + 3] as int, bytes[at + 2] as int, bytes[at + 1] as int, bytes[at] as int);
    let back = header_word(bytes, index, false);
    assert(back == bytes[at + 3] + 0x100 * bytes[at + 2] + 0x1_0000 * bytes[at + 1] + 0x100_0000 * bytes[at]);
}

} // verus!
