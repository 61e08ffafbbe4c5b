//! Generational operation identities and the table of live operations.
use crate::error::{ErrorKind, IoError};
use vstd::prelude::*;

verus! {

/// Number of slots that an operation key can name.
pub const SLOT_LIMIT: u64 = 0x1_0000_0000;

/// The last generation of a slot. A slot that reaches it is not used again.
pub const LAST_GENERATION: u32 = u32::MAX;

/// The error for a table larger than the keys can name.
pub open spec fn too_large() -> IoError {
    IoError::Custom {
        kind: ErrorKind::InvalidInput,
        message: "operation table capacity exceeds the key space",
    }
}

/// The error for an operation that no key is left for.
pub open spec fn keys_exhausted() -> IoError {
    IoError::Custom { kind: ErrorKind::OutOfMemory, message: "operation keys are exhausted" }
}

/// Identity of one operation: a slot and the generation of its occupant.
///
/// Generation zero never names an operation. Raw values of generation zero are
/// left to [`CompletionKey`]'s control tokens.
#[derive(Clone, Copy, Debug, PartialEq, Eq, Hash, Structural)]
pub struct OpKey {
    raw: u64,
}

impl OpKey {
    /// The value that travels through the kernel in place of the key.
    pub closed spec fn spec_raw(self) -> u64 {
        self.raw
    }

    /// The slot that this key names.
    pub open spec fn spec_slot(self) -> nat {
        (self.spec_raw() % 0x1_0000_0000) as nat
    }

    /// The generation that this key names.
    pub open spec fn spec_generation(self) -> nat {
        (self.spec_raw() / 0x1_0000_0000) as nat
    }

    /// Two keys with the same raw value are the same key.
    pub broadcast proof fn lemma_raw_injective(a: OpKey, b: OpKey)
        requires
            #[trigger] a.spec_raw() == #[trigger] b.spec_raw(),
        ensures
            a == b,
    {
    }

    fn from_parts(slot: usize, generation: u32) -> (key: OpKey)
        requires
            slot < SLOT_LIMIT,
        ensures
            key.spec_slot() == slot,
            key.spec_generation() == generation,
    {
        let high: u64 = generation as u64;
        let low: u64 = slot as u64;
        let raw: u64 = high * 0x1_0000_0000 + low;
        OpKey { raw }
    }

    pub(crate) fn from_raw(raw: u64) -> (key: OpKey)
        ensures
            key.spec_raw() == raw,
    {
        OpKey { raw }
    }

    fn slot(self) -> (slot: u64)
        ensures
            slot == self.spec_slot(),
    {
        self.raw % 0x1_0000_0000
    }

    fn generation(self) -> (generation: u32)
        ensures
            generation == self.spec_generation(),
    {
        (self.raw / 0x1_0000_0000) as u32
    }

    /// The value that travels through the kernel in place of the key.
    pub fn as_u64(self) -> (raw: u64)
        ensures
            raw == self.spec_raw(),
    {
        self.raw
    }
}

/// A value that came back from the kernel, told apart by what it names.
#[derive(Clone, Copy, Debug, PartialEq, Eq, Structural)]
pub enum CompletionKey {
    /// Progress of an operation.
    Operation(OpKey),
    /// The driver was woken from another thread.
    Wake,
    /// Result of a request to cancel an operation.
    Cancel,
    /// Result of a request to cancel the wakeup read.
    WakeCancel,
}

const WAKE_TOKEN: u64 = 1;

const CANCEL_TOKEN: u64 = 2;

const WAKE_CANCEL_TOKEN: u64 = 3;

impl CompletionKey {
    /// What a raw value names, if it names anything.
    pub closed spec fn spec_decode(raw: u64) -> Option<CompletionKey> {
        if raw / 0x1_0000_0000 != 0 {
            Some(CompletionKey::Operation(OpKey { raw }))
        } else if raw == WAKE_TOKEN {
            Some(CompletionKey::Wake)
        } else if raw == CANCEL_TOKEN {
            Some(CompletionKey::Cancel)
        } else if raw == WAKE_CANCEL_TOKEN {
            Some(CompletionKey::WakeCancel)
        } else {
            None
        }
    }

    /// The raw value that names `self`.
    pub closed spec fn spec_raw(self) -> u64 {
        match self {
            CompletionKey::Operation(key) => key.raw,
            CompletionKey::Wake => WAKE_TOKEN,
            CompletionKey::Cancel => CANCEL_TOKEN,
            CompletionKey::WakeCancel => WAKE_CANCEL_TOKEN,
        }
    }

    /// Decode a raw value. A value that names neither an operation nor a
    /// control token decodes to `None`.
    pub fn decode(raw: u64) -> (key: Option<CompletionKey>)
        ensures
            key == CompletionKey::spec_decode(raw),
    {
        if raw / 0x1_0000_0000 != 0 {
            Some(CompletionKey::Operation(OpKey { raw }))
        } else if raw == WAKE_TOKEN {
            Some(CompletionKey::Wake)
        } else if raw == CANCEL_TOKEN {
            Some(CompletionKey::Cancel)
        } else if raw == WAKE_CANCEL_TOKEN {
            Some(CompletionKey::WakeCancel)
        } else {
            None
        }
    }

    /// The token of a wakeup from another thread.
    pub fn wake_raw() -> (raw: u64)
        ensures
            raw == CompletionKey::Wake.spec_raw(),
    {
        WAKE_TOKEN
    }

    /// The token of a request to cancel an operation.
    pub fn cancel_raw() -> (raw: u64)
        ensures
            raw == CompletionKey::Cancel.spec_raw(),
    {
        CANCEL_TOKEN
    }

    /// The token of a request to cancel the wakeup read.
    pub fn wake_cancel_raw() -> (raw: u64)
        ensures
            raw == CompletionKey::WakeCancel.spec_raw(),
    {
        WAKE_CANCEL_TOKEN
    }

    /// The control tokens and the keys of operations never name each other:
    /// decoding the raw value of anything gives that very thing back.
    pub proof fn law_decode_inverts_raw(key: CompletionKey)
        requires
            key matches CompletionKey::Operation(op) ==> op.spec_generation() != 0,
        ensures
            CompletionKey::spec_decode(key.spec_raw()) == Some(key),
    {
    }

    /// The raw value of an operation's key names that operation and nothing else,
    /// and whatever is of another generation than zero names an operation.
    pub proof fn law_keys_name_their_operations(key: OpKey, raw: u64)
        requires
            key.spec_generation() != 0,
        ensures
            CompletionKey::Operation(key).spec_raw() == key.spec_raw(),
            CompletionKey::spec_decode(raw) == Some(CompletionKey::Operation(key)) <==> raw == key.spec_raw(),
            raw / 0x1_0000_0000 != 0 <==> (CompletionKey::spec_decode(raw) matches Some(named) && named is Operation),
            CompletionKey::Wake.spec_raw() / 0x1_0000_0000 == 0,
            CompletionKey::Cancel.spec_raw() / 0x1_0000_0000 == 0,
            CompletionKey::WakeCancel.spec_raw() / 0x1_0000_0000 == 0,
    {
    }

    /// Distinct raw values never decode to the same thing, and a decoded
    /// operation key carries the raw value that it was decoded from.
    pub proof fn law_decode_is_injective(a: u64, b: u64)
        requires
            CompletionKey::spec_decode(a) is Some,
            CompletionKey::spec_decode(a) == CompletionKey::spec_decode(b),
        ensures
            a == b,
            CompletionKey::spec_decode(a)->0.spec_raw() == a,
    {
    }
}

struct OpSlot<T> {
    generation: u32,
    value: Option<T>,
}

/// Live operations, each found only under the key that its insertion returned.
pub struct OpTable<T> {
    slots: Vec<OpSlot<T>>,
    free: Vec<usize>,
}

impl<T> View for OpTable<T> {
    type V = Map<OpKey, T>;

    closed spec fn view(&self) -> Map<OpKey, T> {
        Map::new(|key: OpKey| self.holds(key), |key: OpKey| self.slots@[key.spec_slot() as int].value->0)
    }
}

impl<T> OpTable<T> {
    spec fn holds(&self, key: OpKey) -> bool {
        &&& key.spec_slot() < self.slots@.len()
        &&& self.slots@[key.spec_slot() as int].generation == key.spec_generation()
        &&& self.slots@[key.spec_slot() as int].value is Some
    }

    /// Every vacant slot is either free for reuse or has spent its last
    /// generation.
    pub closed spec fn wf(&self) -> bool {
        &&& self.slots@.len() <= SLOT_LIMIT
        &&& forall|i: int| 0 <= i < self.slots@.len() ==> (#[trigger] self.slots@[i]).generation >= 1
        &&& forall|j: int|
            0 <= j < self.free@.len() ==> (#[trigger] self.free@[j]) < self.slots@.len()
                && self.slots@[self.free@[j] as int].value is None
        &&& self.free@.no_duplicates()
        &&& forall|i: int|
            0 <= i < self.slots@.len() && (#[trigger] self.slots@[i]).value is None ==> {
                ||| self.free@.contains(i as usize)
                ||| self.slots@[i].generation == LAST_GENERATION
            }
    }

    /// Whether no operation will be found under `key` any more, whatever is
    /// inserted later.
    pub closed spec fn retired(&self, key: OpKey) -> bool {
        &&& key.spec_slot() < self.slots@.len()
        &&& key.spec_generation() != 0
        &&& !self.holds(key)
        &&& {
            ||| key.spec_generation() < self.slots@[key.spec_slot() as int].generation
            ||| key.spec_generation() == self.slots@[key.spec_slot() as int].generation
                && !self.free@.contains(key.spec_slot() as usize)
        }
    }

    /// Whether every slot that a key can name is taken or spent.
    pub closed spec fn is_exhausted(&self) -> bool {
        self.slots@.len() == SLOT_LIMIT && self.free@.len() == 0
    }

    /// How many slots the table has, taken, free or spent.
    pub closed spec fn spec_slots(&self) -> nat {
        self.slots@.len()
    }

    /// As long as the table has fewer slots than keys can name, there is a key
    /// for the next operation.
    pub proof fn law_room_is_left(&self)
        requires
            self.spec_slots() < SLOT_LIMIT,
        ensures
            !self.is_exhausted(),
    {
    }

    /// An empty table with room for `capacity` operations before it grows.
    ///
    /// Fails where more slots are asked for than a key can name.
    pub fn new(capacity: usize) -> (table: Result<Self, IoError>)
        ensures
            table is Err <==> capacity > SLOT_LIMIT,
            table matches Err(error) ==> error == too_large(),
            table matches Ok(table) ==> {
                &&& table.wf()
                &&& table@ == Map::<OpKey, T>::empty()
                &&& table.spec_slots() == 0
                &&& !table.is_exhausted()
                &&& forall|key: OpKey| !table.retired(key)
            },
    {
        if capacity as u64 > SLOT_LIMIT {
            return Err(
                IoError::new(ErrorKind::InvalidInput, "operation table capacity exceeds the key space"),
            );
        }
        let table = OpTable { slots: Vec::with_capacity(capacity), free: Vec::new() };
        assert(table@ =~= Map::<OpKey, T>::empty());
        Ok(table)
    }

    /// Store an operation under a key that no operation had before.
    ///
    /// Fails, and stores nothing, where the keys are exhausted.
    pub fn insert(&mut self, value: T) -> (key: Result<OpKey, IoError>)
        requires
            old(self).wf(),
        ensures
            final(self).wf(),
            key is Err <==> old(self).is_exhausted(),
            key matches Err(error) ==> error == keys_exhausted(),
            key is Err ==> final(self)@ == old(self)@,
            final(self).spec_slots() <= old(self).spec_slots() + 1,
            key matches Ok(key) ==> {
                &&& final(self)@ == old(self)@.insert(key, value)
                &&& !old(self)@.contains_key(key)
                &&& !old(self).retired(key)
                &&& key.spec_generation() != 0
            },
            forall|k: OpKey| #[trigger] final(self).retired(k) <==> old(self).retired(k),
    {
        if let Some(slot) = self.free.pop() {
            assert(slot == old(self).free@.last());
            assert(old(self).free@.contains(slot));
            assert forall|j: int| 0 <= j < self.free@.len() implies self.free@[j] != slot by {
                assert(self.free@[j] == old(self).free@[j]);
            }
            assert forall|v: usize| v != slot implies (#[trigger] self.free@.contains(v)
                <==> old(self).free@.contains(v)) by {
                if old(self).free@.contains(v) {
                    let j = choose|j: int| 0 <= j < old(self).free@.len() && old(self).free@[j] == v;
                    assert(self.free@[j] == v);
                }
                if self.free@.contains(v) {
                    let j = choose|j: int| 0 <= j < self.free@.len() && self.free@[j] == v;
                    assert(old(self).free@[j] == v);
                }
            }
            let generation = self.slots[slot].generation;
            let key = OpKey::from_parts(slot, generation);
            self.slots[slot].value = Some(value);
            proof {
                assert forall|k: OpKey| k.spec_slot() == key.spec_slot() && k.spec_generation()
                    == key.spec_generation() implies k == key by {
                    lemma_parts_determine(k, key);
                }
                assert(self@ =~= old(self)@.insert(key, value));
                assert forall|i: int| 0 <= i < self.slots@.len() && (#[trigger] self.slots@[i]).value is None implies {
                    ||| self.free@.contains(i as usize)
                    ||| self.slots@[i].generation == LAST_GENERATION
                } by {
                    assert(i != slot);
                    assert(self.slots@[i] == old(self).slots@[i]);
                }
            }
            Ok(key)
        } else if (self.slots.len() as u64) < SLOT_LIMIT {
            let slot = self.slots.len();
            let key = OpKey::from_parts(slot, 1);
            self.slots.push(OpSlot { generation: 1, value: Some(value) });
            proof {
                assert forall|k: OpKey| k.spec_slot() == key.spec_slot() && k.spec_generation()
                    == key.spec_generation() implies k == key by {
                    lemma_parts_determine(k, key);
                }
                assert(self@ =~= old(self)@.insert(key, value));
            }
            Ok(key)
        } else {
            assert(self@ =~= old(self)@);
            Err(IoError::new(ErrorKind::OutOfMemory, "operation keys are exhausted"))
        }
    }

    /// The operation under `key`, if it is live.
    pub fn get(&self, key: OpKey) -> (value: Option<&T>)
        requires
            self.wf(),
        ensures
            value == (if self@.contains_key(key) { Some(&self@[key]) } else { None }),
    {
        let slot = key.slot();
        if slot < self.slots.len() as u64 {
            let entry = &self.slots[slot as usize];
            if entry.generation == key.generation() {
                return entry.value.as_ref();
            }
        }
        None
    }

    /// The operation under `key`, if it is live, for update in place.
    pub fn get_mut(&mut self, key: OpKey) -> (value: Option<&mut T>)
        requires
            old(self).wf(),
        ensures
            final(self).wf(),
            final(self).spec_slots() == old(self).spec_slots(),
            forall|k: OpKey| #[trigger] final(self).retired(k) <==> old(self).retired(k),
            value is Some <==> old(self)@.contains_key(key),
            value is None ==> *final(self) == *old(self),
            value matches Some(value) ==> {
                &&& *value == old(self)@[key]
                &&& final(self)@ == old(self)@.insert(key, *final(value))
            },
    {
        let slot = key.slot();
        if slot < self.slots.len() as u64 {
            let slot = slot as usize;
            if self.slots[slot].generation == key.generation() && self.slots[slot].value.is_some() {
                proof {
                    assert forall|k: OpKey| k.spec_slot() == key.spec_slot() && k.spec_generation()
                        == key.spec_generation() implies k == key by {
                        lemma_parts_determine(k, key);
                    }
                }
                return self.slots[slot].value.as_mut();
            }
        }
        None
    }

    /// Take the operation under `key` out of the table. Its key is never used
    /// again.
    pub fn remove(&mut self, key: OpKey) -> (value: Option<T>)
        requires
            old(self).wf(),
        ensures
            final(self).wf(),
            value == (if old(self)@.contains_key(key) { Some(old(self)@[key]) } else { None }),
            final(self)@ == old(self)@.remove(key),
            final(self).spec_slots() == old(self).spec_slots(),
            value is None ==> *final(self) == *old(self),
            value is Some ==> final(self).retired(key),
            forall|k: OpKey| old(self).retired(k) ==> #[trigger] final(self).retired(k),
            forall|k: OpKey| #[trigger] final(self).retired(k) ==> k == key || old(self).retired(k),
    {
        let slot = key.slot();
        if slot < self.slots.len() as u64 {
            let slot = slot as usize;
            if self.slots[slot].generation == key.generation() && self.slots[slot].value.is_some() {
                let value = self.slots[slot].value.take();
                let generation = self.slots[slot].generation;
                if generation < LAST_GENERATION {
                    self.slots[slot].generation = generation + 1;
                    self.free.push(slot);
                    proof {
                        assert(self.free@.last() == slot);
                        assert forall|v: usize| v != slot implies (#[trigger] self.free@.contains(v)
                            <==> old(self).free@.contains(v)) by {
                            if old(self).free@.contains(v) {
                                let j = choose|j: int|
                                    0 <= j < old(self).free@.len() && old(self).free@[j] == v;
                                assert(self.free@[j] == v);
                            }
                        }
                        assert(self.free@.contains(slot));
                    }
                }
                proof {
                    assert forall|k: OpKey| k.spec_slot() == key.spec_slot() && k.spec_generation()
                        == key.spec_generation() implies k == key by {
                        lemma_parts_determine(k, key);
                    }
                    assert forall|i: int| 0 <= i < self.slots@.len() && (#[trigger] self.slots@[i]).value is None implies {
                        ||| self.free@.contains(i as usize)
                        ||| self.slots@[i].generation == LAST_GENERATION
                    } by {
                        if i != slot {
                            assert(self.slots@[i] == old(self).slots@[i]);
                        }
                    }
                    assert(self@ =~= old(self)@.remove(key));
                }
                return value;
            }
        }
        assert(self@ =~= old(self)@.remove(key));
        None
    }

    /// The keys of the live operations, by slot.
    pub fn keys(&self) -> (keys: Vec<OpKey>)
        requires
            self.wf(),
        ensures
            covers(keys@, self@.dom()),
            keys@.no_duplicates(),
    {
        let mut keys: Vec<OpKey> = Vec::new();
        let mut slot: usize = 0;
        while slot < self.slots.len()
            invariant
                self.wf(),
                slot <= self.slots@.len(),
                forall|key: OpKey| #[trigger]
                    keys@.contains(key) <==> self@.contains_key(key) && key.spec_slot() < slot,
                forall|i: int| 0 <= i < keys@.len() ==> (#[trigger] keys@[i]).spec_slot() < slot,
                forall|i: int, j: int|
                    0 <= i < j < keys@.len() ==> (#[trigger] keys@[i]).spec_slot() < (
                    #[trigger] keys@[j]).spec_slot(),
            decreases self.slots@.len() - slot,
        {
            let ghost before = keys@;
            if self.slots[slot].value.is_some() {
                let key = OpKey::from_parts(slot, self.slots[slot].generation);
                keys.push(key);
                proof {
                    assert(keys@.last() == key);
                    assert forall|k: OpKey| #[trigger] keys@.contains(k) <==> self@.contains_key(k)
                        && k.spec_slot() < slot + 1 by {
                        if before.contains(k) {
                            let i = choose|i: int| 0 <= i < before.len() && before[i] == k;
                            assert(keys@[i] == k);
                        }
                        if self@.contains_key(k) && k.spec_slot() == slot {
                            lemma_parts_determine(k, key);
                        }
                    }
                }
            }
            slot += 1;
        }
        keys
    }

    /// Whether no operation is live.
    pub fn is_empty(&self) -> (empty: bool)
        requires
            self.wf(),
        ensures
            empty <==> self@ == Map::<OpKey, T>::empty(),
    {
        let keys = self.keys();
        if keys.len() == 0 {
            assert forall|key: OpKey| !self@.contains_key(key) by {
                assert(!keys@.contains(key));
            }
            assert(self@ =~= Map::<OpKey, T>::empty());
            true
        } else {
            assert(keys@.contains(keys@[0]));
            assert(self@.contains_key(keys@[0]));
            false
        }
    }

    /// Take every operation out of the table.
    pub fn clear(&mut self)
        requires
            old(self).wf(),
        ensures
            final(self).wf(),
            final(self)@ == Map::<OpKey, T>::empty(),
            final(self).spec_slots() == old(self).spec_slots(),
            forall|k: OpKey| #[trigger] final(self).retired(k) <==> old(self).retired(k)
                || old(self)@.contains_key(k),
    {
        let keys = self.keys();
        let mut next: usize = 0;
        assert(keys@.subrange(0, keys@.len() as int) =~= keys@);
        while next < keys.len()
            invariant
                self.wf(),
                self.spec_slots() == old(self).spec_slots(),
                next <= keys@.len(),
                keys@.no_duplicates(),
                forall|key: OpKey| #[trigger] keys@.contains(key) <==> old(self)@.contains_key(key),
                forall|key: OpKey| #[trigger]
                    self@.contains_key(key) <==> keys@.subrange(next as int, keys@.len() as int).contains(key),
                forall|k: OpKey| #[trigger]
                    self.retired(k) <==> old(self).retired(k) || keys@.subrange(0, next as int).contains(k),
            decreases keys@.len() - next,
        {
            let key = keys[next];
            let ghost rest = keys@.subrange(next as int, keys@.len() as int);
            let ghost after = keys@.subrange(next + 1, keys@.len() as int);
            let ghost done = keys@.subrange(0, next as int);
            proof {
                assert(rest[0] == key);
                assert(rest.contains(key));
                assert forall|k: OpKey| #[trigger] after.contains(k) <==> rest.contains(k) && k != key by {
                    if after.contains(k) {
                        let i = choose|i: int| 0 <= i < after.len() && after[i] == k;
                        assert(rest[i + 1] == k);
                        assert(keys@[next + 1 + i] == k);
                    }
                    if rest.contains(k) && k != key {
                        let i = choose|i: int| 0 <= i < rest.len() && rest[i] == k;
                        assert(after[i - 1] == k);
                    }
                }
                assert(keys@.subrange(0, next + 1) =~= done.push(key));
                assert forall|k: OpKey| #[trigger] done.push(key).contains(k) <==> done.contains(k) || k == key by {
                    if done.contains(k) {
                        let i = choose|i: int| 0 <= i < done.len() && done[i] == k;
                        assert(done.push(key)[i] == k);
                    }
                    assert(done.push(key).last() == key);
                }
            }
            let _ = self.remove(key);
            next += 1;
        }
        proof {
            assert(keys@.subrange(0, next as int) =~= keys@);
            assert(self@ =~= Map::<OpKey, T>::empty()) by {
                assert forall|key: OpKey| !self@.contains_key(key) by {
                    assert(!keys@.subrange(next as int, keys@.len() as int).contains(key));
                }
            }
        }
    }

    /// A retired key finds nothing: once an operation has left the table, its
    /// key cannot observe a later occupant of the slot.
    pub proof fn law_retired_key_finds_nothing(&self, key: OpKey)
        requires
            self.wf(),
            self.retired(key),
        ensures
            !self@.contains_key(key),
    {
    }

    /// A key that names no generation is never live.
    pub proof fn law_live_keys_have_a_generation(&self, key: OpKey)
        requires
            self.wf(),
            self@.contains_key(key),
        ensures
            key.spec_generation() != 0,
    {
    }
}

/// The keys in the order of their slots.
pub open spec fn slots_ascend(keys: Seq<OpKey>) -> bool {
    forall|i: int, j: int|
        0 <= i < j < keys.len() ==> (#[trigger] keys[i]).spec_slot() < (#[trigger] keys[j]).spec_slot()
}

/// The keys of a set, each once, in the order of their slots.
pub open spec fn covers(keys: Seq<OpKey>, set: Set<OpKey>) -> bool {
    &&& slots_ascend(keys)
    &&& forall|key: OpKey| #[trigger] keys.contains(key) <==> set.contains(key)
}

/// A key is determined by its slot and its generation.
proof fn lemma_parts_determine(a: OpKey, b: OpKey)
    requires
        a.spec_slot() == b.spec_slot(),
        a.spec_generation() == b.spec_generation(),
    ensures
        a == b,
{
}

/// Of two keys in ascending order the earlier one has the lower slot, and a key stands
/// there once at most.
pub proof fn law_ascending_keys_stand_once(keys: Seq<OpKey>, i: int, j: int)
    requires
        slots_ascend(keys),
        0 <= i < j < keys.len(),
    ensures
        keys[i].spec_slot() < keys[j].spec_slot(),
        keys[i] != keys[j],
{
}

impl OpKey {
    /// The number of a key is its generation above its slot.
    pub proof fn law_key_is_generation_and_slot(self)
        ensures
            self.spec_raw() == self.spec_generation() * 0x1_0000_0000 + self.spec_slot(),
            self.spec_slot() < 0x1_0000_0000,
    {
    }
}

} // verus!
