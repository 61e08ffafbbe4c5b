//! How directories are read.
use crate::error::IoError;
use crate::fs::metadata::{FileType, FileTypeFlags};
use std::collections::VecDeque;
use vstd::prelude::*;

verus! {

/// How many entries are read at a time.
pub const CHUNK_SIZE: usize = 32;

/// An entry of a directory, and what it is, where the directory told.
pub struct DirEntry<E> {
    entry: E,
    file_type: Option<FileType>,
}

impl<E> DirEntry<E> {
    pub closed spec fn spec_entry(&self) -> E {
        self.entry
    }

    pub closed spec fn spec_file_type(&self) -> Option<FileType> {
        self.file_type
    }

    /// An entry, with what the directory told of it.
    pub fn new(entry: E, told: Option<FileTypeFlags>) -> (dir_entry: Self)
        ensures
            dir_entry.spec_entry() == entry,
            match told {
                Some(flags) => {
                    &&& dir_entry.spec_file_type() matches Some(file_type)
                    &&& file_type.spec_mode() == flags.spec_mode()
                },
                None => dir_entry.spec_file_type() is None,
            },
    {
        let file_type = match told {
            Some(flags) => Some(FileType::from_std(flags)),
            None => None,
        };
        DirEntry { entry, file_type }
    }

    /// The entry.
    pub fn entry(&self) -> (entry: &E)
        ensures
            *entry == self.spec_entry(),
    {
        &self.entry
    }

    /// What the entry is. Nothing: its metadata has to be asked.
    pub fn file_type(&self) -> (file_type: Option<FileType>)
        ensures
            file_type == self.spec_file_type(),
    {
        self.file_type
    }
}

/// Entries that were read, what the next ones are read from, and whether there
/// may be any.
pub struct Chunk<E, D> {
    entries: VecDeque<Result<E, IoError>>,
    source: D,
    remain: bool,
}

impl<E, D> Chunk<E, D> {
    pub closed spec fn spec_entries(&self) -> Seq<Result<E, IoError>> {
        self.entries@
    }

    pub closed spec fn spec_source(&self) -> D {
        self.source
    }

    pub closed spec fn spec_remain(&self) -> bool {
        self.remain
    }

    /// Whether another entry belongs to this chunk.
    pub open spec fn spec_wants_more(&self) -> bool {
        self.spec_remain() && self.spec_entries().len() < CHUNK_SIZE
    }

    /// A chunk is bounded.
    pub open spec fn wf(&self) -> bool {
        self.spec_entries().len() <= CHUNK_SIZE
    }

    /// A chunk with no entry yet.
    pub fn new(source: D) -> (chunk: Self)
        ensures
            chunk.wf(),
            chunk.spec_entries() == Seq::<Result<E, IoError>>::empty(),
            chunk.spec_source() == source,
            chunk.spec_remain(),
    {
        Chunk { entries: VecDeque::with_capacity(CHUNK_SIZE), source, remain: true }
    }

    /// Whether another entry belongs to this chunk.
    pub fn wants_more(&self) -> (more: bool)
        ensures
            more == self.spec_wants_more(),
    {
        self.remain && self.entries.len() < CHUNK_SIZE
    }

    /// What the entries are read from.
    pub fn source_mut(&mut self) -> (source: &mut D)
        ensures
            *source == old(self).spec_source(),
            final(self).spec_source() == *final(source),
            final(self).spec_entries() == old(self).spec_entries(),
            final(self).spec_remain() == old(self).spec_remain(),
    {
        &mut self.source
    }

    /// Take what was read next: an entry, or the end.
    pub fn push_next(&mut self, next: Option<Result<E, IoError>>)
        requires
            old(self).spec_wants_more(),
        ensures
            final(self).wf(),
            final(self).spec_source() == old(self).spec_source(),
            pushed(old(self), next, final(self)),
    {
        match next {
            Some(entry) => {
                self.entries.push_back(entry);
            },
            None => {
                self.remain = false;
            },
        }
    }
}

enum State<E, D> {
    Idle(Option<Chunk<E, D>>),
    Pending,
}

/// How the next entry is come by.
pub enum EntryStep<E, D> {
    /// An entry, a failure, or the end.
    Ready(Result<Option<E>, IoError>),
    /// Read the next chunk from this source.
    Spawn(D),
    /// A chunk is being read: wait for it.
    Wait,
}

/// The entries of a directory, read chunk by chunk.
pub struct ReadDir<E, D> {
    state: State<E, D>,
}

impl<E, D> ReadDir<E, D> {
    /// Whether a chunk is being read.
    pub closed spec fn spec_reading(&self) -> bool {
        self.state is Pending
    }

    /// The entries that were read and not handed out.
    pub closed spec fn spec_entries(&self) -> Seq<Result<E, IoError>> {
        match self.state {
            State::Idle(Some(chunk)) => chunk.spec_entries(),
            _ => Seq::empty(),
        }
    }

    /// What the next chunk would be read from.
    pub closed spec fn spec_source(&self) -> Option<D> {
        match self.state {
            State::Idle(Some(chunk)) => if chunk.spec_remain() {
                Some(chunk.spec_source())
            } else {
                None
            },
            _ => None,
        }
    }

    /// No more than a chunk is held.
    pub open spec fn wf(&self) -> bool {
        self.spec_entries().len() <= CHUNK_SIZE
    }

    /// A directory whose first chunk was read.
    pub fn new(chunk: Chunk<E, D>) -> (dir: Self)
        requires
            chunk.wf(),
        ensures
            dir.wf(),
            holds(&dir, chunk),
    {
        ReadDir { state: State::Idle(Some(chunk)) }
    }

    /// One look at the next entry. Entries come in the order in which they
    /// were read, and none is lost when nobody waits for it.
    pub fn poll_next_entry(&mut self) -> (step: EntryStep<E, D>)
        requires
            old(self).wf(),
        ensures
            final(self).wf(),
            looked(old(self), step, final(self)),
    {
        let mut state = State::Pending;
        std::mem::swap(&mut self.state, &mut state);
        match state {
            State::Pending => EntryStep::Wait,
            State::Idle(None) => {
                self.state = State::Idle(None);
                EntryStep::Ready(Ok(None))
            },
            State::Idle(Some(chunk)) => {
                if chunk.entries.len() == 0 {
                    if chunk.remain {
                        return EntryStep::Spawn(chunk.source);
                    }
                    self.state = State::Idle(Some(chunk));
                    return EntryStep::Ready(Ok(None));
                }
                let mut chunk = chunk;
                let ghost before = chunk.entries@;
                let entry = chunk.entries.pop_front().unwrap();
                assert(chunk.entries@ =~= before.drop_first());
                self.state = State::Idle(Some(chunk));
                match entry {
                    Ok(entry) => EntryStep::Ready(Ok(Some(entry))),
                    Err(error) => EntryStep::Ready(Err(error)),
                }
            },
        }
    }

    /// Take a chunk that was being read.
    pub fn chunk_ready(&mut self, chunk: Chunk<E, D>)
        requires
            old(self).spec_reading(),
            chunk.wf(),
        ensures
            final(self).wf(),
            holds(final(self), chunk),
    {
        self.state = State::Idle(Some(chunk));
    }

    /// The chunk that was being read is lost. The directory ends here.
    pub fn chunk_failed(&mut self)
        requires
            old(self).spec_reading(),
        ensures
            final(self).wf(),
            !final(self).spec_reading(),
            final(self).spec_entries() == Seq::<Result<E, IoError>>::empty(),
            final(self).spec_source() is None,
    {
        self.state = State::Idle(None);
    }
}

/// What reading one more entry, or the end, does to a chunk.
pub open spec fn pushed<E, D>(before: &Chunk<E, D>, next: Option<Result<E, IoError>>, after: &Chunk<E, D>) -> bool {
    match next {
        Some(entry) => {
            &&& after.spec_entries() == before.spec_entries().push(entry)
            &&& after.spec_remain()
        },
        None => {
            &&& after.spec_entries() == before.spec_entries()
            &&& !after.spec_remain()
        },
    }
}

/// The outcome of one look at the next entry.
pub open spec fn looked<E, D>(before: &ReadDir<E, D>, step: EntryStep<E, D>, after: &ReadDir<E, D>) -> bool {
    if before.spec_reading() {
        &&& step is Wait
        &&& *after == *before
    } else if before.spec_entries().len() > 0 {
        &&& step == EntryStep::<E, D>::Ready(
            match before.spec_entries()[0] {
                Ok(entry) => Ok(Some(entry)),
                Err(error) => Err(error),
            },
        )
        &&& !after.spec_reading()
        &&& after.spec_entries() == before.spec_entries().drop_first()
        &&& after.spec_source() == before.spec_source()
    } else {
        match before.spec_source() {
            Some(source) => {
                &&& step == EntryStep::<E, D>::Spawn(source)
                &&& after.spec_reading()
                &&& after.spec_entries() == Seq::<Result<E, IoError>>::empty()
            },
            None => {
                &&& step == EntryStep::<E, D>::Ready(Ok(None))
                &&& *after == *before
            },
        }
    }
}

/// A directory that has this chunk and has handed out nothing of it.
pub open spec fn holds<E, D>(dir: &ReadDir<E, D>, chunk: Chunk<E, D>) -> bool {
    &&& !dir.spec_reading()
    &&& dir.spec_entries() == chunk.spec_entries()
    &&& dir.spec_source() == (if chunk.spec_remain() {
        Some(chunk.spec_source())
    } else {
        None
    })
}

/// One event in the reading of a directory.
pub enum DirEvent<E, D> {
    /// Somebody looked for the next entry.
    Looked(EntryStep<E, D>),
    /// A chunk that was being read is there.
    Arrived(Chunk<E, D>),
}

/// What an event does to a directory.
pub open spec fn happened<E, D>(before: &ReadDir<E, D>, event: DirEvent<E, D>, after: &ReadDir<E, D>) -> bool {
    match event {
        DirEvent::Looked(step) => looked(before, step, after),
        DirEvent::Arrived(chunk) => before.spec_reading() && holds(after, chunk),
    }
}

/// The entries that were read, chunk by chunk.
pub open spec fn entries_read<E, D>(first: Chunk<E, D>, events: Seq<DirEvent<E, D>>) -> Seq<Result<E, IoError>>
    decreases events.len(),
{
    if events.len() == 0 {
        first.spec_entries()
    } else {
        let earlier = entries_read(first, events.drop_last());
        match events.last() {
            DirEvent::Arrived(chunk) => earlier + chunk.spec_entries(),
            DirEvent::Looked(_) => earlier,
        }
    }
}

/// The entries that were handed out.
pub open spec fn entries_handed_out<E, D>(events: Seq<DirEvent<E, D>>) -> Seq<Result<E, IoError>>
    decreases events.len(),
{
    if events.len() == 0 {
        Seq::empty()
    } else {
        let earlier = entries_handed_out(events.drop_last());
        match events.last() {
            DirEvent::Looked(EntryStep::Ready(Ok(Some(entry)))) => earlier.push(Ok(entry)),
            DirEvent::Looked(EntryStep::Ready(Err(error))) => earlier.push(Err(error)),
            _ => earlier,
        }
    }
}

/// The chunk that was read last.
pub open spec fn last_chunk<E, D>(first: Chunk<E, D>, events: Seq<DirEvent<E, D>>) -> Chunk<E, D>
    decreases events.len(),
{
    if events.len() == 0 {
        first
    } else {
        match events.last() {
            DirEvent::Arrived(chunk) => chunk,
            DirEvent::Looked(_) => last_chunk(first, events.drop_last()),
        }
    }
}

/// The entries of a directory come out as they were read, in order, each once;
/// whatever is not handed out yet is still held. The end is told only when all
/// were handed out and the last chunk met the end of the directory.
pub proof fn law_entries_come_out_as_read<E, D>(
    first: Chunk<E, D>,
    dirs: Seq<ReadDir<E, D>>,
    events: Seq<DirEvent<E, D>>,
)
    requires
        dirs.len() == events.len() + 1,
        holds(&dirs[0], first),
        forall|i: int| 0 <= i < events.len() ==> happened(&dirs[i], #[trigger] events[i], &dirs[i + 1]),
    ensures
        entries_handed_out(events) + dirs.last().spec_entries() == entries_read(first, events),
        !dirs.last().spec_reading() && dirs.last().spec_source() is None ==> !last_chunk(
            first,
            events,
        ).spec_remain(),
        events.len() > 0 && events.last() == DirEvent::Looked(EntryStep::<E, D>::Ready(Ok(None))) ==> {
            &&& entries_handed_out(events) == entries_read(first, events)
            &&& !last_chunk(first, events).spec_remain()
        },
    decreases events.len(),
{
    let handed = entries_handed_out(events);
    if events.len() == 0 {
        assert(handed + dirs.last().spec_entries() =~= entries_read(first, events));
    } else {
        let last = events.len() - 1;
        let earlier = events.drop_last();
        let before = dirs.drop_last();
        assert forall|i: int| 0 <= i < earlier.len() implies happened(
            &before[i],
            #[trigger] earlier[i],
            &before[i + 1],
        ) by {
            assert(happened(&dirs[i], events[i], &dirs[i + 1]));
        }
        law_entries_come_out_as_read(first, before, earlier);
        assert(before.last() == dirs[last]);
        assert(dirs.last() == dirs[last + 1]);
        assert(happened(&dirs[last], events[last], &dirs[last + 1]));
        let held = dirs[last].spec_entries();
        match events.last() {
            DirEvent::Arrived(chunk) => {
                assert(held =~= Seq::<Result<E, IoError>>::empty()) by {
                    lemma_reading_holds_nothing(&dirs[last]);
                }
                assert(entries_handed_out(earlier) + held =~= entries_handed_out(earlier));
            },
            DirEvent::Looked(step) => {
                if !dirs[last].spec_reading() && held.len() > 0 {
                    assert(held =~= seq![held[0]] + held.drop_first());
                    assert(handed =~= entries_handed_out(earlier).push(held[0]));
                    assert(handed + held.drop_first() =~= entries_handed_out(earlier) + held);
                } else if !dirs[last].spec_reading() {
                    assert(held =~= Seq::<Result<E, IoError>>::empty());
                    assert(dirs.last().spec_entries() =~= held);
                }
            },
        }
        if events.last() == DirEvent::Looked(EntryStep::<E, D>::Ready(Ok(None))) {
            assert(held =~= Seq::<Result<E, IoError>>::empty());
            assert(handed + held =~= handed);
        }
    }
}

/// While a chunk is being read, nothing is held.
proof fn lemma_reading_holds_nothing<E, D>(dir: &ReadDir<E, D>)
    requires
        dir.spec_reading(),
    ensures
        dir.spec_entries() == Seq::<Result<E, IoError>>::empty(),
{
}

/// Once the end was told, every further look tells it again.
pub proof fn law_end_is_final<E, D>(before: &ReadDir<E, D>, event: DirEvent<E, D>, after: &ReadDir<E, D>)
    requires
        happened(before, event, after),
        !before.spec_reading(),
        before.spec_entries().len() == 0,
        before.spec_source() is None,
    ensures
        event == DirEvent::Looked(EntryStep::<E, D>::Ready(Ok(None))),
        *after == *before,
{
}

/// The entries among what was read from a directory.
pub open spec fn entries_among<E>(reads: Seq<Option<Result<E, IoError>>>) -> Seq<Result<E, IoError>>
    decreases reads.len(),
{
    if reads.len() == 0 {
        Seq::empty()
    } else {
        match reads.last() {
            Some(entry) => entries_among(reads.drop_last()).push(entry),
            None => entries_among(reads.drop_last()),
        }
    }
}

/// One more entry, or the end, was read for a chunk that wanted it.
pub open spec fn read_into<E, D>(
    before: &Chunk<E, D>,
    next: Option<Result<E, IoError>>,
    after: &Chunk<E, D>,
) -> bool {
    before.spec_wants_more() && pushed(before, next, after)
}

/// A chunk holds the entries that were read for it, in order, and more may
/// remain until the end was read. Nothing is read after the end.
pub proof fn law_chunk_holds_what_was_read<E, D>(chunks: Seq<Chunk<E, D>>, reads: Seq<Option<Result<E, IoError>>>)
    requires
        chunks.len() == reads.len() + 1,
        chunks[0].spec_entries() == Seq::<Result<E, IoError>>::empty(),
        chunks[0].spec_remain(),
        forall|i: int| 0 <= i < reads.len() ==> read_into(&chunks[i], #[trigger] reads[i], &chunks[i + 1]),
    ensures
        chunks.last().spec_entries() == entries_among(reads),
        chunks.last().spec_remain() <==> reads.len() == 0 || reads.last() is Some,
        forall|i: int| 0 <= i < reads.len() - 1 ==> (#[trigger] reads[i]) is Some,
    decreases reads.len(),
{
    if reads.len() > 0 {
        let last = reads.len() - 1;
        let earlier = reads.drop_last();
        let before = chunks.drop_last();
        assert forall|i: int| 0 <= i < earlier.len() implies read_into(
            &before[i],
            #[trigger] earlier[i],
            &before[i + 1],
        ) by {
            assert(read_into(&chunks[i], reads[i], &chunks[i + 1]));
        }
        law_chunk_holds_what_was_read(before, earlier);
        assert(before.last() == chunks[last]);
        assert(read_into(&chunks[last], reads[last], &chunks[last + 1]));
        assert forall|i: int| 0 <= i < reads.len() - 1 implies (#[trigger] reads[i]) is Some by {
            assert(earlier[i] == reads[i]);
            assert(i == last - 1 ==> earlier.last() == reads[i]);
        }
    }
}

/// A look at a directory finds the entry that was read first, if there is one; if there
/// is none, more is read as long as there may be more, and the end is told otherwise.
/// While more is being read, a look waits.
pub proof fn law_a_look_finds_the_next_entry<E, D>(
    before: &ReadDir<E, D>,
    step: EntryStep<E, D>,
    after: &ReadDir<E, D>,
)
    requires
        looked(before, step, after),
    ensures
        before.spec_reading() ==> step is Wait && after.spec_reading(),
        !before.spec_reading() && before.spec_entries().len() > 0 ==> {
            &&& before.spec_entries()[0] matches Ok(entry) ==> step == EntryStep::<E, D>::Ready(Ok(Some(entry)))
            &&& before.spec_entries()[0] matches Err(error) ==> step == EntryStep::<E, D>::Ready(Err(error))
            &&& after.spec_entries() == before.spec_entries().skip(1)
            &&& after.spec_source() == before.spec_source()
            &&& !after.spec_reading()
        },
        !before.spec_reading() && before.spec_entries().len() == 0 ==> {
            &&& before.spec_source() matches Some(source) ==> step == EntryStep::<E, D>::Spawn(source)
                && after.spec_reading()
            &&& before.spec_source() is None ==> step == EntryStep::<E, D>::Ready(Ok(None))
        },
{
    if before.spec_entries().len() > 0 {
        assert(before.spec_entries().drop_first() =~= before.spec_entries().skip(1));
    }
}

/// A chunk is filled up to its size, or to the end of the directory.
pub proof fn law_chunks_are_filled_up<E, D>(chunk: Chunk<E, D>, more: bool)
    requires
        call_ensures(Chunk::<E, D>::wants_more, (&chunk,), more),
    ensures
        more <==> chunk.spec_remain() && chunk.spec_entries().len() < 32,
{
}

/// A directory with a chunk has all of its entries to hand out, and more to read if
/// the chunk did not meet the end.
pub proof fn law_chunk_is_handed_out_whole<E, D>(dir: &ReadDir<E, D>, chunk: Chunk<E, D>)
    requires
        holds(dir, chunk),
    ensures
        !dir.spec_reading(),
        dir.spec_entries() == chunk.spec_entries(),
        chunk.spec_remain() ==> dir.spec_source() == Some(chunk.spec_source()),
        !chunk.spec_remain() ==> dir.spec_source() is None,
{
}

} // verus!
