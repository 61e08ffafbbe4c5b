//! Buffers that are handed to the platform and come back with the result.
use crate::error::{ErrorKind, IoError};
use vstd::prelude::*;

verus! {

/// The result of an operation, together with the buffer that it used.
pub struct BufResult<T, B>(pub Result<T, IoError>, pub B);

/// A buffer whose first bytes are initialized.
pub trait IoBuf {
    /// How many bytes are initialized.
    spec fn spec_init(&self) -> nat;

    /// How many bytes are initialized.
    fn bytes_init(&self) -> (init: usize)
        ensures
            init == self.spec_init(),
    ;
}

/// A buffer that the platform may fill.
pub trait IoBufMut: IoBuf {
    /// What tells the memory of a buffer from that of any other.
    type Memory;

    /// How many bytes the buffer holds.
    spec fn spec_capacity(&self) -> nat;

    /// The memory that the platform fills.
    spec fn spec_backing(&self) -> Self::Memory;

    /// How many bytes the buffer holds.
    fn bytes_total(&self) -> (total: usize)
        ensures
            total == self.spec_capacity(),
            self.spec_init() <= self.spec_capacity(),
    ;

    /// Declare the first bytes initialized.
    fn set_len(&mut self, len: usize)
        requires
            len <= old(self).spec_capacity(),
        ensures
            final(self).spec_init() == len,
            final(self).spec_capacity() == old(self).spec_capacity(),
            final(self).spec_backing() == old(self).spec_backing(),
    ;
}

/// Memory of the caller's, with how many bytes it holds and how many of them are
/// initialized.
#[derive(Debug)]
pub struct Region<M> {
    memory: M,
    init: usize,
    capacity: usize,
}

impl<M> Region<M> {
    #[verifier::type_invariant]
    spec fn inv(self) -> bool {
        self.init <= self.capacity
    }

    /// The caller's memory.
    pub closed spec fn spec_memory(&self) -> M {
        self.memory
    }

    /// How many bytes are initialized.
    pub closed spec fn spec_len(&self) -> usize {
        self.init
    }

    /// How many bytes there are.
    pub closed spec fn spec_room(&self) -> usize {
        self.capacity
    }

    /// Memory that holds so many bytes, the first of them initialized. No more
    /// than it holds count as initialized.
    pub fn new(memory: M, init: usize, capacity: usize) -> (region: Self)
        ensures
            region.spec_memory() == memory,
            region.spec_len() == if init <= capacity { init } else { capacity },
            region.spec_room() == capacity,
    {
        let init: usize = if init <= capacity { init } else { capacity };
        Region { memory, init, capacity }
    }

    /// The caller's memory.
    pub fn memory(&self) -> (memory: &M)
        ensures
            *memory == self.spec_memory(),
    {
        &self.memory
    }

    /// The caller's memory, handed back.
    pub fn into_memory(self) -> (memory: M)
        ensures
            memory == self.spec_memory(),
    {
        self.memory
    }
}

impl<M> IoBuf for Region<M> {
    open spec fn spec_init(&self) -> nat {
        self.spec_len() as nat
    }

    fn bytes_init(&self) -> (init: usize) {
        self.init
    }
}

impl<M> IoBufMut for Region<M> {
    type Memory = M;

    open spec fn spec_capacity(&self) -> nat {
        self.spec_room() as nat
    }

    open spec fn spec_backing(&self) -> M {
        self.spec_memory()
    }

    fn bytes_total(&self) -> (total: usize) {
        proof {
            use_type_invariant(self);
        }
        self.capacity
    }

    fn set_len(&mut self, len: usize)
        ensures
            final(self).spec_memory() == old(self).spec_memory(),
            final(self).spec_len() == len,
            final(self).spec_room() == old(self).spec_room(),
    {
        self.init = len;
    }
}

/// A buffer on loan from a pool. It is known by its number, and shows a part of
/// what it holds.
#[derive(Debug)]
pub struct PooledBuf {
    id: u16,
    storage: Vec<u8>,
    start: usize,
    end: usize,
}

impl PooledBuf {
    #[verifier::type_invariant]
    spec fn inv(self) -> bool {
        self.start <= self.end <= self.storage@.len()
    }

    /// The number of the buffer in its pool.
    pub closed spec fn spec_id(&self) -> u16 {
        self.id
    }

    /// All bytes that the buffer holds, initialized or not.
    pub closed spec fn spec_storage(&self) -> Seq<u8> {
        self.storage@
    }

    /// Where the shown part begins.
    pub closed spec fn spec_start(&self) -> usize {
        self.start
    }

    /// Where the shown part ends.
    pub closed spec fn spec_end(&self) -> usize {
        self.end
    }

    /// A buffer that shows nothing yet.
    pub fn new(id: u16, storage: Vec<u8>) -> (buf: Self)
        ensures
            buf.spec_id() == id,
            buf.spec_storage() == storage@,
            buf.spec_start() == 0,
            buf.spec_end() == 0,
    {
        PooledBuf { id, storage, start: 0, end: 0 }
    }

    /// The number of the buffer in its pool.
    pub fn id(&self) -> (id: u16)
        ensures
            id == self.spec_id(),
    {
        self.id
    }

    /// Show these bytes, which must lie within those shown so far.
    pub fn set_view(&mut self, start: usize, end: usize) -> (result: Result<(), IoError>)
        ensures
            result is Ok <==> old(self).spec_start() + start <= old(self).spec_start() + end <= old(self).spec_end(),
            result is Ok ==> {
                &&& final(self).spec_start() == old(self).spec_start() + start
                &&& final(self).spec_end() == old(self).spec_start() + end
                &&& final(self).spec_id() == old(self).spec_id()
                &&& final(self).spec_storage() == old(self).spec_storage()
            },
            result matches Err(error) ==> {
                &&& error == (IoError::Custom {
                    kind: ErrorKind::InvalidInput,
                    message: "buffer view is out of range",
                })
                &&& *final(self) == *old(self)
            },
    {
        proof {
            use_type_invariant(&*self);
        }
        if start > end || end > self.end - self.start {
            return Err(IoError::new(ErrorKind::InvalidInput, "buffer view is out of range"));
        }
        let from: usize = self.start + start;
        self.end = self.start + end;
        self.start = from;
        Ok(())
    }

    /// The bytes that are shown.
    pub fn as_slice(&self) -> (bytes: &[u8])
        ensures
            bytes@ == self.spec_storage().subrange(self.spec_start() as int, self.spec_end() as int),
    {
        proof {
            use_type_invariant(self);
        }
        vstd::slice::slice_subrange(self.storage.as_slice(), self.start, self.end)
    }
}

impl IoBuf for PooledBuf {
    open spec fn spec_init(&self) -> nat {
        self.spec_end() as nat
    }

    fn bytes_init(&self) -> (init: usize) {
        self.end
    }
}

impl IoBufMut for PooledBuf {
    type Memory = (u16, Seq<u8>);

    open spec fn spec_capacity(&self) -> nat {
        self.spec_storage().len()
    }

    open spec fn spec_backing(&self) -> (u16, Seq<u8>) {
        (self.spec_id(), self.spec_storage())
    }

    fn bytes_total(&self) -> (total: usize) {
        proof {
            use_type_invariant(self);
        }
        self.storage.len()
    }

    fn set_len(&mut self, len: usize)
        ensures
            final(self).spec_start() == 0,
            final(self).spec_end() == len,
            final(self).spec_id() == old(self).spec_id(),
            final(self).spec_storage() == old(self).spec_storage(),
    {
        proof {
            use_type_invariant(&*self);
        }
        self.start = 0;
        self.end = len;
    }
}

} // verus!
