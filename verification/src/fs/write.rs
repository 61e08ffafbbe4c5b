//! How a whole file is written.
use crate::error::{ErrorKind, IoError};
use vstd::prelude::*;

verus! {

/// What has to be done next to write a whole file.
#[derive(Clone, Copy, Debug, PartialEq, Eq, Structural)]
pub enum WriteStep {
    /// Write the contents from this offset on, at this offset of the file.
    Write { offset: usize },
    /// Everything is written: close the file.
    Close,
}

/// The writing of a whole file under way.
pub struct WriteAll {
    len: usize,
    offset: usize,
}

impl WriteAll {
    /// How much there is to write.
    pub closed spec fn spec_len(&self) -> usize {
        self.len
    }

    /// How much is written.
    pub closed spec fn spec_offset(&self) -> usize {
        self.offset
    }

    pub fn new(len: usize) -> (progress: Self)
        ensures
            progress.spec_len() == len,
            progress.spec_offset() == 0,
    {
        WriteAll { len, offset: 0 }
    }

    /// What has to be done next.
    pub open spec fn spec_step(&self) -> WriteStep {
        if self.spec_offset() < self.spec_len() {
            WriteStep::Write { offset: self.spec_offset() }
        } else {
            WriteStep::Close
        }
    }

    /// What has to be done next.
    pub fn step(&self) -> (step: WriteStep)
        ensures
            step == self.spec_step(),
    {
        if self.offset < self.len {
            WriteStep::Write { offset: self.offset }
        } else {
            WriteStep::Close
        }
    }

    /// What the result of one write comes to.
    pub open spec fn spec_wrote(
        &self,
        result: Result<usize, IoError>,
        after: &WriteAll,
        outcome: Result<(), IoError>,
    ) -> bool {
        &&& after.spec_len() == self.spec_len()
        &&& match result {
            Err(error) => {
                &&& outcome == Err::<(), IoError>(error)
                &&& after.spec_offset() == self.spec_offset()
            },
            Ok(n) => if n == 0 {
                &&& outcome == Err::<(), IoError>(IoError::Simple(ErrorKind::WriteZero))
                &&& after.spec_offset() == self.spec_offset()
            } else {
                &&& outcome is Ok
                &&& after.spec_offset() == self.spec_offset() + n
            },
        }
    }

    /// Take the result of one write. A write that wrote nothing would be
    /// repeated for ever, so it is a failure.
    pub fn wrote(&mut self, result: Result<usize, IoError>) -> (outcome: Result<(), IoError>)
        requires
            result matches Ok(n) ==> old(self).spec_offset() + n <= usize::MAX,
        ensures
            old(self).spec_wrote(result, final(self), outcome),
    {
        match result {
            Err(error) => Err(error),
            Ok(n) => {
                if n == 0 {
                    return Err(IoError::Simple(ErrorKind::WriteZero));
                }
                self.offset = self.offset + n;
                Ok(())
            },
        }
    }
}

/// A file after bytes were written at an offset. A gap before them reads as
/// zeros.
pub open spec fn written_at(file: Seq<u8>, offset: int, bytes: Seq<u8>) -> Seq<u8> {
    let end = offset + bytes.len();
    Seq::new(
        if file.len() < end {
            end as nat
        } else {
            file.len()
        },
        |i: int|
            if offset <= i < end {
                bytes[i - offset]
            } else if i < file.len() {
                file[i]
            } else {
                0
            },
    )
}

/// One write of what is left of the contents, of which the file took `count`
/// bytes.
pub open spec fn write_accepted(
    contents: Seq<u8>,
    before: (WriteAll, Seq<u8>),
    count: usize,
    after: (WriteAll, Seq<u8>),
) -> bool {
    &&& before.0.spec_step() matches WriteStep::Write { offset }
    &&& 1 <= count <= contents.len() - offset
    &&& before.0.spec_wrote(Ok(count), &after.0, Ok(()))
    &&& after.1 == written_at(before.1, offset as int, contents.subrange(offset as int, offset + count))
}

/// However the contents are split up into writes, an empty file holds their
/// beginning after each one, as far as they were written. When it is to be
/// closed, and not before, it holds exactly the contents. There are no more
/// writes than bytes.
pub proof fn law_file_holds_the_contents(contents: Seq<u8>, states: Seq<(WriteAll, Seq<u8>)>, counts: Seq<usize>)
    requires
        states.len() == counts.len() + 1,
        states[0].0.spec_len() == contents.len(),
        states[0].0.spec_offset() == 0,
        states[0].1 == Seq::<u8>::empty(),
        forall|i: int|
            0 <= i < counts.len() ==> write_accepted(contents, states[i], #[trigger] counts[i], states[i + 1]),
    ensures
        states.last().0.spec_len() == contents.len(),
        states.last().0.spec_offset() <= contents.len(),
        states.last().1 == contents.take(states.last().0.spec_offset() as int),
        states.last().0.spec_step() is Close <==> states.last().1 == contents,
        counts.len() <= states.last().0.spec_offset(),
    decreases counts.len(),
{
    if counts.len() == 0 {
        assert(states.last().1 =~= contents.take(0));
    } else {
        let last = counts.len() - 1;
        let earlier = counts.drop_last();
        let before = states.drop_last();
        assert forall|i: int| 0 <= i < earlier.len() implies write_accepted(
            contents,
            before[i],
            #[trigger] earlier[i],
            before[i + 1],
        ) by {
            assert(write_accepted(contents, states[i], counts[i], states[i + 1]));
        }
        law_file_holds_the_contents(contents, before, earlier);
        assert(before.last() == states[last]);
        assert(write_accepted(contents, states[last], counts[last], states[last + 1]));
        assert(states.last().1 =~= contents.take(states.last().0.spec_offset() as int));
    }
    let file = states.last().1;
    if states.last().0.spec_step() is Close {
        assert(file =~= contents);
    } else {
        assert(file.len() < contents.len());
    }
}

impl WriteAll {
    /// A write that took something is progress by that much, however little it is;
    /// one that took nothing, or failed, is a failure and no progress.
    pub proof fn law_every_write_counts(
        &self,
        result: Result<usize, IoError>,
        after: &WriteAll,
        outcome: Result<(), IoError>,
    )
        requires
            self.spec_wrote(result, after, outcome),
        ensures
            after.spec_len() == self.spec_len(),
            result matches Ok(n) ==> (n > 0 ==> outcome is Ok && after.spec_offset() == self.spec_offset() + n),
            result matches Ok(n) ==> (n == 0 ==> after.spec_offset() == self.spec_offset() && (
            outcome matches Err(error) && error.spec_kind() == ErrorKind::WriteZero)),
            result matches Err(error) ==> outcome == Err::<(), IoError>(error) && after.spec_offset()
                == self.spec_offset(),
    {
    }

    /// Writing goes on where it has come to, until everything is written.
    pub proof fn law_writing_goes_on_where_it_is(&self)
        ensures
            self.spec_offset() < self.spec_len() ==> self.spec_step() == (WriteStep::Write {
                offset: self.spec_offset(),
            }),
            self.spec_offset() >= self.spec_len() ==> self.spec_step() is Close,
    {
    }
}

} // verus!
