//! What the platform is asked to do, without the addresses of the memory that
//! it works on.
use crate::driver::backends::kqueue::Direction;
use vstd::prelude::*;

verus! {

/// Paths are relative to the working directory.
pub const AT_FDCWD: i32 = -100;

/// What io_uring is asked to do.
#[derive(Debug, PartialEq, Eq, Structural)]
pub enum UringRequest {
    /// Read into a buffer. Without an offset, from wherever the descriptor is.
    Read { fd: i32, len: u32, offset: Option<u64> },
    /// Write a buffer. Without an offset, to wherever the descriptor is.
    Write { fd: i32, len: u32, offset: Option<u64> },
    /// Read into several buffers.
    Readv { fd: i32, count: u32, offset: u64 },
    /// Write several buffers.
    Writev { fd: i32, count: u32, offset: u64 },
    /// Receive into a buffer.
    Recv { fd: i32, len: u32 },
    /// Receive into a buffer that the kernel takes from a group.
    RecvSelect { fd: i32, len: u32, buffer_group: u16 },
    /// Keep receiving into buffers that the kernel takes from a group.
    RecvMulti { fd: i32, buffer_group: u16 },
    /// Send a buffer.
    Send { fd: i32, len: u32 },
    /// Receive a message.
    RecvMsg { fd: i32 },
    /// Receive a message into a buffer that the kernel takes from a group.
    RecvMsgSelect { fd: i32, flags: u32, buffer_group: u16 },
    /// Keep receiving messages into buffers that the kernel takes from a group.
    RecvMsgMulti { fd: i32, buffer_group: u16 },
    /// Send a message.
    SendMsg { fd: i32 },
    /// Accept a connection.
    Accept { fd: i32, flags: i32 },
    /// Keep accepting connections.
    AcceptMulti { fd: i32, flags: i32 },
    /// Connect to an address.
    Connect { fd: i32, address_len: u32 },
    /// Close a descriptor.
    Close { fd: i32 },
    /// Open a path.
    OpenAt { dir: i32, flags: i32, mode: u32 },
    /// Make a directory.
    MkDirAt { dir: i32, mode: u32 },
    /// Give a file a second name.
    LinkAt { from_dir: i32, to_dir: i32 },
    /// Give a file another name.
    RenameAt { from_dir: i32, to_dir: i32 },
    /// Make a symbolic link.
    SymlinkAt { dir: i32 },
    /// Remove a name.
    UnlinkAt { dir: i32, flags: i32 },
    /// Ask for metadata.
    Statx { dir: i32, flags: i32, mask: u32 },
    /// Write out what is cached, the data alone or the metadata too.
    Fsync { fd: i32, data_only: bool },
    /// Change the length of a file.
    Ftruncate { fd: i32, len: u64 },
    /// Wait for a descriptor.
    PollAdd { fd: i32, events: u32 },
}

/// How a system call is made where the kernel tells only of readiness.
#[derive(Clone, Copy, Debug, PartialEq, Eq, Structural)]
pub enum KqueueCall {
    /// Try it, and again when the descriptor is ready.
    OnReadiness(Direction),
    /// Start to connect, and look at the outcome when the descriptor is ready.
    Connect,
    /// Hand it to the pool: regular files are always ready, and block.
    Blocking,
}

/// How a system call is made on Windows. All are started, and end with a packet
/// of the completion port.
#[derive(Clone, Copy, Debug, PartialEq, Eq, Structural)]
pub enum IocpCall {
    /// On this many bytes of one buffer.
    Transfer { len: u32 },
    /// On this many bytes, at an offset.
    TransferAt { len: u32, low: u32, high: u32 },
    /// On this many buffers.
    Vectored { count: u32 },
    /// On a connection.
    Connection,
}

/// How much of a buffer of `len` bytes is offered to the platform. Lengths are
/// 32 bits wide there, and the upper bits are cut off.
pub open spec fn spec_offered(len: nat) -> nat {
    len % 0x1_0000_0000
}

/// How much of a buffer is offered to the platform.
pub fn offered(len: usize) -> (offered: u32)
    ensures
        offered == spec_offered(len as nat),
{
    let wide = len as u64;
    assert(wide as u32 == wide % 0x1_0000_0000) by (bit_vector);
    wide as u32
}

/// The platform is never offered more than the buffer holds, so it cannot fill
/// more than that; and a buffer below four gigabytes is offered whole.
pub proof fn law_no_more_than_the_buffer_is_offered(len: nat)
    ensures
        spec_offered(len) <= len,
        len <= u32::MAX ==> spec_offered(len) == len,
{
}

/// A transfer at an offset. Windows takes the offset in two halves.
pub fn split_offset(len: u32, offset: u64) -> (call: IocpCall)
    ensures
        call == (IocpCall::TransferAt {
            len,
            low: (offset & 0xFFFF_FFFF) as u32,
            high: (offset >> 32) as u32,
        }),
{
    IocpCall::TransferAt { len, low: (offset & 0xFFFF_FFFF) as u32, high: (offset >> 32) as u32 }
}

/// The halves of an offset determine it.
pub proof fn law_offset_halves_determine_it(offset: u64)
    ensures
        offset == ((offset >> 32) as u32) * 0x1_0000_0000 + (offset & 0xFFFF_FFFF) as u32,
{
    assert(offset == ((offset >> 32) as u32) * 0x1_0000_0000 + (offset & 0xFFFF_FFFF) as u32) by (bit_vector);
}

/// What is offered of a buffer is what remains of its length when whole spans of
/// four gigabytes are taken away.
pub proof fn law_only_whole_spans_are_cut_off(len: usize, offer: u32) -> (spans: nat)
    requires
        call_ensures(offered, (len,), offer),
    ensures
        offer + spans * 0x1_0000_0000 == len,
{
    (len as nat) / 0x1_0000_0000
}

/// A transfer at an offset is asked of Windows for all of its length, with halves
/// that make up the offset.
pub proof fn law_transfer_begins_at_its_offset(len: u32, offset: u64, call: IocpCall)
    requires
        call_ensures(split_offset, (len, offset), call),
    ensures
        call matches IocpCall::TransferAt { len: asked, low, high } && asked == len && high * 0x1_0000_0000 + low
            == offset,
{
    law_offset_halves_determine_it(offset);
}

} // verus!
