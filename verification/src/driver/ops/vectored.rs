//! Operations that move bytes between several buffers and a file.
use crate::buf::{BufResult, IoBuf, IoBufMut};
use crate::driver::ops::request::{offered, split_offset, IocpCall, KqueueCall, UringRequest};
use crate::driver::ops::transfer::finish_drain;
use crate::driver::ops::Completion;
use vstd::prelude::*;

verus! {

/// How much of a buffer is not initialized.
pub open spec fn spare<B: IoBufMut>(buf: B) -> nat {
    (buf.spec_capacity() - buf.spec_init()) as nat
}

/// How much of the first `count` buffers is not initialized.
pub open spec fn spare_before<B: IoBufMut>(bufs: Seq<B>, count: nat) -> nat
    decreases count,
{
    if count == 0 {
        0
    } else {
        spare_before(bufs, (count - 1) as nat) + spare(bufs[count - 1])
    }
}

/// How much of `n` bytes goes into one of several buffers, when each is filled
/// up before the next is begun.
pub open spec fn share_of<B: IoBufMut>(bufs: Seq<B>, n: nat, index: int) -> nat {
    let before = spare_before(bufs, index as nat);
    if n <= before {
        0
    } else if n - before <= spare(bufs[index]) {
        (n - before) as nat
    } else {
        spare(bufs[index])
    }
}

/// The buffers after `n` bytes were read into them. Each is where it was.
pub open spec fn scattered<B: IoBufMut>(before: Seq<B>, n: nat, after: Seq<B>) -> bool {
    &&& after.len() == before.len()
    &&& forall|i: int|
        0 <= i < before.len() ==> {
            &&& (#[trigger] after[i]).spec_capacity() == before[i].spec_capacity()
            &&& after[i].spec_backing() == before[i].spec_backing()
            &&& after[i].spec_init() == before[i].spec_init() + share_of(before, n, i)
        }
}

/// What the first buffers take in is what they have room for, or everything.
proof fn lemma_taken<B: IoBufMut>(bufs: Seq<B>, n: nat, count: nat)
    requires
        count <= bufs.len(),
    ensures
        taken_before(bufs, n, count) == (if n <= spare_before(bufs, count) {
            n
        } else {
            spare_before(bufs, count)
        }),
    decreases count,
{
    if count > 0 {
        lemma_taken(bufs, n, (count - 1) as nat);
    }
}

/// How much of `n` bytes goes into the first `count` buffers.
pub open spec fn taken_before<B: IoBufMut>(bufs: Seq<B>, n: nat, count: nat) -> nat
    decreases count,
{
    if count == 0 {
        0
    } else {
        taken_before(bufs, n, (count - 1) as nat) + share_of(bufs, n, count - 1)
    }
}

/// Every byte that was read goes into some buffer, and no buffer takes a byte
/// while one before it has room.
pub proof fn law_every_byte_is_accounted_for<B: IoBufMut>(bufs: Seq<B>, n: nat, first: int, second: int)
    requires
        n <= spare_before(bufs, bufs.len()),
        0 <= first < second < bufs.len(),
    ensures
        taken_before(bufs, n, bufs.len()) == n,
        share_of(bufs, n, second) > 0 ==> share_of(bufs, n, first) == spare(bufs[first]),
{
    lemma_taken(bufs, n, bufs.len());
    lemma_spare_grows(bufs, (first + 1) as nat, second as nat);
}

/// More buffers have more room.
proof fn lemma_spare_grows<B: IoBufMut>(bufs: Seq<B>, fewer: nat, more: nat)
    requires
        fewer <= more,
    ensures
        spare_before(bufs, fewer) <= spare_before(bufs, more),
    decreases more,
{
    if fewer < more {
        lemma_spare_grows(bufs, fewer, (more - 1) as nat);
    }
}

/// How much Windows is asked for with the first `count` buffers.
pub open spec fn asked_before<B: IoBufMut>(bufs: Seq<B>, count: nat) -> nat
    decreases count,
{
    if count == 0 {
        0
    } else {
        asked_before(bufs, (count - 1) as nat) + crate::driver::ops::request::spec_offered(
            spare(bufs[count - 1]),
        )
    }
}

proof fn lemma_asked_grows<B: IoBufMut>(bufs: Seq<B>, fewer: nat, more: nat)
    requires
        fewer <= more,
    ensures
        asked_before(bufs, fewer) <= asked_before(bufs, more),
    decreases more,
{
    if fewer < more {
        lemma_asked_grows(bufs, fewer, (more - 1) as nat);
    }
}

/// Spread `n` bytes over buffers, each filled up before the next is begun.
fn scatter<B: IoBufMut>(bufs: &mut Vec<B>, n: usize)
    requires
        n <= spare_before(old(bufs)@, old(bufs)@.len()),
    ensures
        scattered(old(bufs)@, n as nat, final(bufs)@),
{
    let ghost before = bufs@;
    let mut count: usize = n;
    let mut next: usize = 0;
    while next < bufs.len()
        invariant
            next <= bufs@.len() == before.len(),
            count == (if n <= spare_before(before, next as nat) {
                0
            } else {
                n - spare_before(before, next as nat)
            }),
            n <= spare_before(before, before.len()),
            forall|i: int|
                0 <= i < next ==> {
                    &&& (#[trigger] bufs@[i]).spec_capacity() == before[i].spec_capacity()
                    &&& bufs@[i].spec_backing() == before[i].spec_backing()
                    &&& bufs@[i].spec_init() == before[i].spec_init() + share_of(before, n as nat, i)
                },
            forall|i: int| next <= i < before.len() ==> #[trigger] bufs@[i] == before[i],
        decreases bufs@.len() - next,
    {
        let room: usize = bufs[next].bytes_total() - bufs[next].bytes_init();
        let size: usize = if count < room {
            count
        } else {
            room
        };
        let pos: usize = bufs[next].bytes_init() + size;
        bufs[next].set_len(pos);
        count = count - size;
        assert(spare_before(before, (next + 1) as nat) == spare_before(before, next as nat) + spare(
            before[next as int],
        ));
        next = next + 1;
    }
}

/// Read from a file at an offset into the uninitialized parts of several
/// buffers.
pub struct Readv<H, B> {
    pub io_handle: H,
    pub bufs: Vec<B>,
    pub offset: u64,
}

impl<H, B: IoBufMut> Readv<H, B> {
    /// How much of each buffer is offered.
    pub fn lengths(&self) -> (lengths: Vec<usize>)
        ensures
            lengths@.len() == self.bufs@.len(),
            forall|i: int| 0 <= i < lengths@.len() ==> #[trigger] lengths@[i] == spare(self.bufs@[i]),
    {
        let mut lengths: Vec<usize> = Vec::new();
        let mut next: usize = 0;
        while next < self.bufs.len()
            invariant
                next == lengths@.len() <= self.bufs@.len(),
                forall|i: int| 0 <= i < lengths@.len() ==> #[trigger] lengths@[i] == spare(self.bufs@[i]),
            decreases self.bufs@.len() - next,
        {
            lengths.push(self.bufs[next].bytes_total() - self.bufs[next].bytes_init());
            next = next + 1;
        }
        lengths
    }

    /// What to ask of io_uring, given the descriptor of the handle.
    pub fn submit(&self, fd: i32) -> (request: UringRequest)
        ensures
            request matches UringRequest::Readv { fd: from, count, offset } && from == fd && offset
                == self.offset && count == crate::driver::ops::request::spec_offered(self.bufs@.len()),
    {
        UringRequest::Readv { fd, count: offered(self.bufs.len()), offset: self.offset }
    }

    /// How to read where the kernel tells only of readiness.
    pub fn attempt(&self) -> (call: KqueueCall)
        ensures
            call == KqueueCall::Blocking,
    {
        KqueueCall::Blocking
    }

    /// How to read on Windows. The sum of what is asked for must fit into 32
    /// bits.
    pub fn submit_overlapped(&self) -> (call: IocpCall)
        requires
            asked_before(self.bufs@, self.bufs@.len()) <= u32::MAX,
        ensures
            call matches IocpCall::TransferAt { len, low, high } && {
                &&& len == asked_before(self.bufs@, self.bufs@.len())
                &&& low == (self.offset & 0xFFFF_FFFF) as u32
                &&& high == (self.offset >> 32) as u32
            },
    {
        let mut total: u32 = 0;
        let mut next: usize = 0;
        while next < self.bufs.len()
            invariant
                next <= self.bufs@.len(),
                asked_before(self.bufs@, self.bufs@.len()) <= u32::MAX,
                total == asked_before(self.bufs@, next as nat),
            decreases self.bufs@.len() - next,
        {
            proof {
                lemma_asked_grows(self.bufs@, (next + 1) as nat, self.bufs@.len());
            }
            let room: usize = self.bufs[next].bytes_total() - self.bufs[next].bytes_init();
            assert(room == spare(self.bufs@[next as int]));
            total = total + offered(room);
            next = next + 1;
        }
        split_offset(total, self.offset)
    }

    /// Take the completion. The platform cannot have moved more than it was
    /// offered.
    pub fn complete<C>(self, completion: Completion<C>) -> (result: BufResult<usize, Vec<B>>)
        requires
            completion.result matches Ok(n) ==> n <= spare_before(self.bufs@, self.bufs@.len()),
        ensures
            result.0 == crate::driver::ops::transfer::spec_emptied(completion),
            match result.0 {
                Ok(n) => scattered(self.bufs@, n as nat, result.1@),
                Err(_) => result.1 == self.bufs,
            },
    {
        let mut bufs = self.bufs;
        match completion.result {
            Ok(n) => {
                scatter(&mut bufs, n as usize);
                BufResult(Ok(n as usize), bufs)
            },
            Err(error) => BufResult(Err(error), bufs),
        }
    }
}

/// Write several buffers to a file at an offset.
pub struct Writev<H, B> {
    pub io_handle: H,
    pub bufs: Vec<B>,
    pub offset: u64,
}

impl<H, B: IoBuf> Writev<H, B> {
    /// How much of each buffer is offered.
    pub fn lengths(&self) -> (lengths: Vec<usize>)
        ensures
            lengths@.len() == self.bufs@.len(),
            forall|i: int| 0 <= i < lengths@.len() ==> #[trigger] lengths@[i] == self.bufs@[i].spec_init(),
    {
        initialized_lengths(&self.bufs)
    }

    /// What to ask of io_uring, given the descriptor of the handle.
    pub fn submit(&self, fd: i32) -> (request: UringRequest)
        ensures
            request matches UringRequest::Writev { fd: to, count, offset } && to == fd && offset
                == self.offset && count == crate::driver::ops::request::spec_offered(self.bufs@.len()),
    {
        UringRequest::Writev { fd, count: offered(self.bufs.len()), offset: self.offset }
    }

    /// How to write where the kernel tells only of readiness.
    pub fn attempt(&self) -> (call: KqueueCall)
        ensures
            call == KqueueCall::Blocking,
    {
        KqueueCall::Blocking
    }

    /// Take the completion.
    pub fn complete<C>(self, completion: Completion<C>) -> (result: BufResult<usize, Vec<B>>)
        ensures
            result.0 == crate::driver::ops::transfer::spec_emptied(completion),
            result.1 == self.bufs,
    {
        finish_drain(self.bufs, completion)
    }
}

/// How much of each buffer is initialized.
pub(crate) fn initialized_lengths<B: IoBuf>(bufs: &Vec<B>) -> (lengths: Vec<usize>)
    ensures
        lengths@.len() == bufs@.len(),
        forall|i: int| 0 <= i < lengths@.len() ==> #[trigger] lengths@[i] == bufs@[i].spec_init(),
{
    let mut lengths: Vec<usize> = Vec::new();
    let mut next: usize = 0;
    while next < bufs.len()
        invariant
            next == lengths@.len() <= bufs@.len(),
            forall|i: int| 0 <= i < lengths@.len() ==> #[trigger] lengths@[i] == bufs@[i].spec_init(),
        decreases bufs@.len() - next,
    {
        lengths.push(bufs[next].bytes_init());
        next = next + 1;
    }
    lengths
}

proof fn lemma_scattered_sum<B: IoBufMut>(before: Seq<B>, n: nat, after: Seq<B>, count: nat)
    requires
        scattered(before, n, after),
        count <= before.len(),
    ensures
        crate::driver::ops::message::initialized_before(after, count)
            == crate::driver::ops::message::initialized_before(before, count) + taken_before(before, n, count),
    decreases count,
{
    if count > 0 {
        lemma_scattered_sum(before, n, after, (count - 1) as nat);
        assert(after[count - 1].spec_init() == before[count - 1].spec_init() + share_of(before, n, count - 1));
    }
}

/// What is read into several buffers is there whole and in order, behind what they
/// held: they hold together as many initialized bytes more as were read, none is
/// begun before those in front of it are full, and each is where it was.
pub proof fn law_scattered_bytes_are_whole_and_in_order<H, B: IoBufMut, C>(
    op: Readv<H, B>,
    completion: Completion<C>,
    result: BufResult<usize, Vec<B>>,
    n: u32,
    first: int,
    second: int,
)
    requires
        call_ensures(Readv::<H, B>::complete::<C>, (op, completion), result),
        completion.result == Ok::<u32, crate::error::IoError>(n),
        n <= spare_before(op.bufs@, op.bufs@.len()),
        0 <= first < second < op.bufs@.len(),
        op.bufs@[first].spec_init() <= op.bufs@[first].spec_capacity(),
    ensures
        result.0 == Ok::<usize, crate::error::IoError>(n as usize),
        result.1@.len() == op.bufs@.len(),
        crate::driver::ops::message::initialized_before(result.1@, result.1@.len())
            == crate::driver::ops::message::initialized_before(op.bufs@, op.bufs@.len()) + n,
        op.bufs@[first].spec_init() <= result.1@[first].spec_init() <= op.bufs@[first].spec_capacity(),
        result.1@[second].spec_init() > op.bufs@[second].spec_init() ==> result.1@[first].spec_init()
            == op.bufs@[first].spec_capacity(),
        result.1@[first].spec_backing() == op.bufs@[first].spec_backing(),
{
    assert(scattered(op.bufs@, n as nat, result.1@));
    lemma_scattered_sum(op.bufs@, n as nat, result.1@, op.bufs@.len());
    law_every_byte_is_accounted_for(op.bufs@, n as nat, first, second);
    assert(result.1@[first].spec_init() == op.bufs@[first].spec_init() + share_of(op.bufs@, n as nat, first));
    assert(result.1@[second].spec_init() == op.bufs@[second].spec_init() + share_of(op.bufs@, n as nat, second));
}

/// A failed read leaves the buffers as they were, and so does any write.
pub proof fn law_buffers_come_back<H, B: IoBufMut, C>(
    read: Readv<H, B>,
    write: Writev<H, B>,
    completion: Completion<C>,
    filled: BufResult<usize, Vec<B>>,
    emptied: BufResult<usize, Vec<B>>,
)
    requires
        call_ensures(Readv::<H, B>::complete::<C>, (read, completion), filled),
        call_ensures(Writev::<H, B>::complete::<C>, (write, completion), emptied),
    ensures
        completion.result matches Err(error) ==> filled.0 == Err::<usize, crate::error::IoError>(error) && filled.1
            == read.bufs && emptied.0 == Err::<usize, crate::error::IoError>(error),
        completion.result matches Ok(n) ==> emptied.0 == Ok::<usize, crate::error::IoError>(n as usize),
        emptied.1 == write.bufs,
{
}

/// The room that is offered to be read into is what is not initialized yet, and
/// Windows is asked for all of it where it is less than four gigabytes.
pub proof fn law_uninitialized_room_is_offered<B: IoBufMut>(bufs: Seq<B>, count: nat)
    requires
        count <= bufs.len(),
        forall|i: int|
            0 <= i < bufs.len() ==> (#[trigger] bufs[i]).spec_init() <= bufs[i].spec_capacity() <= u32::MAX,
    ensures
        forall|i: int|
            0 <= i < bufs.len() ==> (#[trigger] bufs[i]).spec_init() + spare(bufs[i]) == bufs[i].spec_capacity(),
        asked_before(bufs, count) == spare_before(bufs, count),
        count > 0 ==> spare_before(bufs, count) == spare_before(bufs, (count - 1) as nat) + bufs[count
            - 1].spec_capacity() - bufs[count - 1].spec_init(),
    decreases count,
{
    if count > 0 {
        law_uninitialized_room_is_offered(bufs, (count - 1) as nat);
        assert(bufs[count - 1].spec_capacity() <= u32::MAX);
    }
}

} // verus!
