//! How directories are made.
use crate::error::{ErrorKind, IoError};
use vstd::prelude::*;

verus! {

/// How directories are made.
#[derive(Debug)]
pub struct DirBuilder {
    mode: u32,
    recursive: bool,
}

impl DirBuilder {
    /// The mode of new directories.
    pub closed spec fn spec_mode(&self) -> u32 {
        self.mode
    }

    /// Whether missing parents are made too.
    pub closed spec fn spec_recursive(&self) -> bool {
        self.recursive
    }

    /// One directory with the default mode.
    pub fn new() -> (builder: Self)
        ensures
            builder.spec_mode() == 0o777,
            !builder.spec_recursive(),
    {
        DirBuilder { mode: 0o777, recursive: false }
    }

    /// Whether to make missing parents too. They get the same mode.
    pub fn recursive(&mut self, recursive: bool) -> (builder: &mut Self)
        ensures
            builder.spec_recursive() == recursive,
            builder.spec_mode() == old(self).spec_mode(),
            *final(self) == *final(builder),
    {
        self.recursive = recursive;
        self
    }

    /// The mode of new directories.
    pub fn mode(&mut self, mode: u32) -> (builder: &mut Self)
        ensures
            builder.spec_mode() == mode,
            builder.spec_recursive() == old(self).spec_recursive(),
            *final(self) == *final(builder),
    {
        self.mode = mode;
        self
    }

    /// The mode to make directories with.
    pub fn create_mode(&self) -> (mode: u32)
        ensures
            mode == self.spec_mode(),
    {
        self.mode
    }

    /// Begin to make a directory.
    ///
    /// `levels` counts the path itself and the parents that may be made with
    /// it: the path is level zero, its parent level one, and so on. An empty
    /// path has no level.
    pub fn create(&self, levels: usize) -> (progress: CreateDir)
        ensures
            progress.spec_levels() == levels,
            progress.spec_step() == (if self.spec_recursive() && levels == 0 {
                CreateStep::Done(Ok(()))
            } else {
                CreateStep::Make { level: 0, phase: if self.spec_recursive() {
                    Phase::Down
                } else {
                    Phase::Single
                } }
            }),
    {
        let step = if self.recursive {
            if levels == 0 {
                CreateStep::Done(Ok(()))
            } else {
                CreateStep::Make { level: 0, phase: Phase::Down }
            }
        } else {
            CreateStep::Make { level: 0, phase: Phase::Single }
        };
        CreateDir { levels, step }
    }
}

impl Default for DirBuilder {
    fn default() -> (builder: Self)
        ensures
            builder.spec_mode() == 0o777,
            !builder.spec_recursive(),
    {
        DirBuilder::new()
    }
}

/// Why a directory is being made.
#[derive(Clone, Copy, Debug, PartialEq, Eq, Structural)]
pub enum Phase {
    /// It alone was asked for.
    Single,
    /// Looking for a parent that exists.
    Down,
    /// A parent exists: making what was missing, the outermost first.
    Up,
}

/// What has to be done next to make a directory.
#[derive(Clone, Copy, Debug)]
pub enum CreateStep {
    /// Make the directory at this level.
    Make { level: usize, phase: Phase },
    /// Something exists at the path itself. Look whether it is a directory; if
    /// it is not, this error is the answer.
    CheckDir(IoError),
    Done(Result<(), IoError>),
}

/// The making of a directory under way.
pub struct CreateDir {
    levels: usize,
    step: CreateStep,
}

impl CreateStep {
    /// The step after the one above a level was made or found.
    pub open spec fn spec_up_from(level: usize) -> CreateStep {
        if level == 0 {
            CreateStep::Done(Ok(()))
        } else {
            CreateStep::Make { level: (level - 1) as usize, phase: Phase::Up }
        }
    }

    /// The step after an attempt to make a directory.
    pub open spec fn spec_made(self, levels: usize, result: Result<(), IoError>) -> CreateStep {
        match self {
            CreateStep::Make { level, phase } => match result {
                Ok(()) => if phase is Single {
                    CreateStep::Done(Ok(()))
                } else {
                    CreateStep::spec_up_from(level)
                },
                Err(error) => match (phase, error.spec_kind()) {
                    (Phase::Single, _) => CreateStep::Done(Err(error)),
                    (Phase::Up, ErrorKind::AlreadyExists) => CreateStep::spec_up_from(level),
                    (Phase::Down, ErrorKind::AlreadyExists) => if level == 0 {
                        CreateStep::CheckDir(error)
                    } else {
                        CreateStep::spec_up_from(level)
                    },
                    (Phase::Down, ErrorKind::NotFound) => if level + 1 < levels {
                        CreateStep::Make { level: (level + 1) as usize, phase: Phase::Down }
                    } else {
                        CreateStep::Done(Err(error))
                    },
                    _ => CreateStep::Done(Err(error)),
                },
            },
            _ => self,
        }
    }

    /// The step after looking at what exists at the path itself.
    pub open spec fn spec_checked(error: IoError, is_dir: bool) -> CreateStep {
        CreateStep::Done(
            if is_dir {
                Ok(())
            } else {
                Err(error)
            },
        )
    }

    /// A missing parent is made before what lies in it: going up, each level
    /// is made only after the one above it was made or found, and the answer
    /// is a success only once the path itself was.
    pub proof fn law_parents_come_first(self, levels: usize, result: Result<(), IoError>)
        requires
            self matches CreateStep::Make { level, phase } && level < levels,
        ensures
            self.spec_made(levels, result) matches CreateStep::Make { level, phase: Phase::Up } ==> {
                &&& level + 1 == self->level
                &&& result is Ok || result->Err_0.spec_kind() is AlreadyExists
            },
            self.spec_made(levels, result) matches CreateStep::Done(Ok(_)) ==> {
                &&& self->level == 0 || self->phase is Single
                &&& result is Ok || result->Err_0.spec_kind() is AlreadyExists
            },
            self.spec_made(levels, result) matches CreateStep::Make { level, .. } ==> level < levels,
    {
    }
}

impl CreateStep {
    /// How many steps can follow at most.
    pub open spec fn spec_remaining(self, levels: usize) -> int {
        match self {
            CreateStep::Make { level, phase: Phase::Down } => 2 * levels - level + 2,
            CreateStep::Make { level, phase: Phase::Up } => level + 2,
            CreateStep::Make { level, phase: Phase::Single } => 1,
            CreateStep::CheckDir(_) => 1,
            CreateStep::Done(_) => 0,
        }
    }

    /// Making a directory ends, whatever the attempts lead to.
    pub proof fn law_creating_ends(self, levels: usize, result: Result<(), IoError>)
        requires
            self matches CreateStep::Make { level, phase } && level < levels,
        ensures
            0 <= self.spec_made(levels, result).spec_remaining(levels) < self.spec_remaining(levels),
    {
    }
}

impl CreateDir {
    pub closed spec fn spec_levels(&self) -> usize {
        self.levels
    }

    pub closed spec fn spec_step(&self) -> CreateStep {
        self.step
    }

    /// What has to be done next.
    pub fn step(&self) -> (step: CreateStep)
        ensures
            step == self.spec_step(),
    {
        self.step
    }

    fn up_from(level: usize) -> (step: CreateStep)
        ensures
            step == CreateStep::spec_up_from(level),
    {
        if level == 0 {
            CreateStep::Done(Ok(()))
        } else {
            CreateStep::Make { level: level - 1, phase: Phase::Up }
        }
    }

    /// Take the result of an attempt to make a directory.
    pub fn made(&mut self, result: Result<(), IoError>)
        requires
            old(self).spec_step() is Make,
        ensures
            final(self).spec_levels() == old(self).spec_levels(),
            final(self).spec_step() == old(self).spec_step().spec_made(old(self).spec_levels(), result),
    {
        if let CreateStep::Make { level, phase } = self.step {
            self.step = match result {
                Ok(()) => if phase == Phase::Single {
                    CreateStep::Done(Ok(()))
                } else {
                    CreateDir::up_from(level)
                },
                Err(error) => match (phase, error.kind()) {
                    (Phase::Single, _) => CreateStep::Done(Err(error)),
                    (Phase::Up, ErrorKind::AlreadyExists) => CreateDir::up_from(level),
                    (Phase::Down, ErrorKind::AlreadyExists) => if level == 0 {
                        CreateStep::CheckDir(error)
                    } else {
                        CreateDir::up_from(level)
                    },
                    (Phase::Down, ErrorKind::NotFound) => if self.levels > 0 && level < self.levels - 1 {
                        CreateStep::Make { level: level + 1, phase: Phase::Down }
                    } else {
                        CreateStep::Done(Err(error))
                    },
                    _ => CreateStep::Done(Err(error)),
                },
            };
        }
    }

    /// Take the answer to what exists at the path itself. What cannot be looked
    /// at is no directory.
    pub fn checked(&mut self, is_dir: bool)
        requires
            old(self).spec_step() is CheckDir,
        ensures
            final(self).spec_levels() == old(self).spec_levels(),
            final(self).spec_step() == CreateStep::spec_checked(old(self).spec_step()->CheckDir_0, is_dir),
    {
        if let CreateStep::CheckDir(error) = self.step {
            self.step = CreateStep::Done(
                if is_dir {
                    Ok(())
                } else {
                    Err(error)
                },
            );
        }
    }
}

/// What exists at one level of a path.
pub enum Level {
    Missing,
    Directory,
    /// Something that is no directory.
    Other,
}

/// Whether the levels of a path can be so: what exists lies in directories.
pub open spec fn possible(tree: Seq<Level>) -> bool {
    forall|i: int, j: int|
        #![trigger tree[i], tree[j]]
        0 <= i < j < tree.len() && !(tree[i] is Missing) ==> tree[j] is Directory
}

/// What an attempt to make the directory at one level comes to. What the
/// outermost level lies in exists.
pub open spec fn attempted(before: Seq<Level>, level: int, result: Result<(), IoError>, after: Seq<Level>) -> bool {
    if !(before[level] is Missing) {
        &&& result matches Err(error) && error.spec_kind() is AlreadyExists
        &&& after == before
    } else if level + 1 < before.len() && before[level + 1] is Missing {
        &&& result matches Err(error) && error.spec_kind() is NotFound
        &&& after == before
    } else if level + 1 < before.len() && before[level + 1] is Other {
        &&& result matches Err(error) && !(error.spec_kind() is AlreadyExists) && !(error.spec_kind() is NotFound)
        &&& after == before
    } else {
        &&& result is Ok
        &&& after == before.update(level, Level::Directory)
    }
}

/// One attempt of a run, and the step that follows it.
pub open spec fn attempt_follows(
    before: (CreateStep, Seq<Level>),
    result: Result<(), IoError>,
    after: (CreateStep, Seq<Level>),
) -> bool {
    &&& before.0 is Make
    &&& attempted(before.1, before.0->level as int, result, after.1)
    &&& after.0 == before.0.spec_made(before.1.len() as usize, result)
}

/// How a run goes through a path whose first `missing` levels are missing, and
/// whose other levels are directories: to the outermost of them, and back.
proof fn lemma_run(states: Seq<(CreateStep, Seq<Level>)>, results: Seq<Result<(), IoError>>, missing: int)
    requires
        states.len() == results.len() + 1,
        states[0].0 == (CreateStep::Make { level: 0, phase: Phase::Down }),
        0 < missing <= states[0].1.len() <= usize::MAX,
        forall|i: int|
            0 <= i < states[0].1.len() ==> (if i < missing {
                (#[trigger] states[0].1[i]) is Missing
            } else {
                states[0].1[i] is Directory
            }),
        forall|i: int| 0 <= i < results.len() ==> attempt_follows(states[i], #[trigger] results[i], states[i + 1]),
    ensures
        results.len() <= 2 * missing - 1,
        results.len() < missing ==> {
            &&& states.last().0 == (CreateStep::Make { level: results.len() as usize, phase: Phase::Down })
            &&& states.last().1 == states[0].1
        },
        results.len() >= missing ==> {
            let left = 2 * missing - 1 - results.len();
            &&& states.last().0 == CreateStep::spec_up_from(left as usize)
            &&& states.last().1.len() == states[0].1.len()
            &&& forall|i: int|
                0 <= i < states[0].1.len() ==> (if i < left {
                    (#[trigger] states.last().1[i]) is Missing
                } else {
                    states.last().1[i] is Directory
                })
        },
    decreases results.len(),
{
    if results.len() > 0 {
        let last = results.len() - 1;
        let earlier = results.drop_last();
        let before = states.drop_last();
        assert forall|i: int| 0 <= i < earlier.len() implies attempt_follows(
            before[i],
            #[trigger] earlier[i],
            before[i + 1],
        ) by {
            assert(attempt_follows(states[i], results[i], states[i + 1]));
        }
        lemma_run(before, earlier, missing);
        assert(before.last() == states[last]);
        assert(attempt_follows(states[last], results[last], states[last + 1]));
        let tree = states[last].1;
        let level = states[last].0->level as int;
        assert(tree[level] is Missing);
        if level + 1 < tree.len() {
            assert(tree[level + 1] is Missing || tree[level + 1] is Directory);
        }
    }
}

/// A recursive run succeeds where levels are missing and nothing is in the way:
/// it makes all of them, with one attempt for each on the way out and one for
/// each but the outermost on the way back.
pub proof fn law_missing_levels_are_made(
    states: Seq<(CreateStep, Seq<Level>)>,
    results: Seq<Result<(), IoError>>,
    missing: int,
)
    requires
        states.len() == results.len() + 1,
        states[0].0 == (CreateStep::Make { level: 0, phase: Phase::Down }),
        0 < missing <= states[0].1.len() <= usize::MAX,
        forall|i: int|
            0 <= i < states[0].1.len() ==> (if i < missing {
                (#[trigger] states[0].1[i]) is Missing
            } else {
                states[0].1[i] is Directory
            }),
        forall|i: int| 0 <= i < results.len() ==> attempt_follows(states[i], #[trigger] results[i], states[i + 1]),
    ensures
        results.len() <= 2 * missing - 1,
        !(states.last().0 is Make) <==> results.len() == 2 * missing - 1,
        !(states.last().0 is Make) ==> {
            &&& states.last().0 == CreateStep::Done(Ok(()))
            &&& states.last().1.len() == states[0].1.len()
            &&& forall|i: int| 0 <= i < states[0].1.len() ==> (#[trigger] states.last().1[i]) is Directory
        },
{
    lemma_run(states, results, missing);
}

/// A recursive run leaves what exists at the path itself as it is, and asks
/// whether it is a directory. If it is, that is a success; if it is not, the
/// answer is that something exists.
pub proof fn law_what_exists_must_be_a_directory(
    tree: Seq<Level>,
    result: Result<(), IoError>,
    after: (CreateStep, Seq<Level>),
)
    requires
        0 < tree.len() <= usize::MAX,
        possible(tree),
        !(tree[0] is Missing),
        attempt_follows((CreateStep::Make { level: 0, phase: Phase::Down }, tree), result, after),
    ensures
        after.1 == tree,
        after.0 matches CreateStep::CheckDir(error) && {
            &&& error.spec_kind() is AlreadyExists
            &&& CreateStep::spec_checked(error, tree[0] is Directory) == (if tree[0] is Directory {
                CreateStep::Done(Ok(()))
            } else {
                CreateStep::Done(Err(error))
            })
        },
{
}

/// A recursive run fails, and makes nothing, where something that is no
/// directory is in the way of the missing levels.
pub proof fn law_what_is_in_the_way_ends_the_run(
    states: Seq<(CreateStep, Seq<Level>)>,
    results: Seq<Result<(), IoError>>,
    missing: int,
)
    requires
        states.len() == results.len() + 1,
        states[0].0 == (CreateStep::Make { level: 0, phase: Phase::Down }),
        0 < missing < states[0].1.len() <= usize::MAX,
        forall|i: int| 0 <= i < missing ==> (#[trigger] states[0].1[i]) is Missing,
        states[0].1[missing] is Other,
        forall|i: int| 0 <= i < results.len() ==> attempt_follows(states[i], #[trigger] results[i], states[i + 1]),
    ensures
        states.last().1 == states[0].1,
        results.len() <= missing,
        results.len() < missing ==> states.last().0 == (CreateStep::Make {
            level: results.len() as usize,
            phase: Phase::Down,
        }),
        results.len() == missing ==> {
            &&& results.last() matches Err(error)
            &&& states.last().0 == CreateStep::Done(Err(error))
        },
    decreases results.len(),
{
    if results.len() > 0 {
        let last = results.len() - 1;
        let earlier = results.drop_last();
        let before = states.drop_last();
        assert forall|i: int| 0 <= i < earlier.len() implies attempt_follows(
            before[i],
            #[trigger] earlier[i],
            before[i + 1],
        ) by {
            assert(attempt_follows(states[i], results[i], states[i + 1]));
        }
        law_what_is_in_the_way_ends_the_run(before, earlier, missing);
        assert(before.last() == states[last]);
        assert(attempt_follows(states[last], results[last], states[last + 1]));
        let tree = states[last].1;
        assert(tree[last] is Missing);
        if last + 1 < missing {
            assert(tree[last + 1] is Missing);
        }
    }
}

/// A run that makes the path alone succeeds if and only if nothing but the path
/// itself is missing. It makes nothing otherwise.
pub proof fn law_single_directory_needs_its_parent(
    tree: Seq<Level>,
    result: Result<(), IoError>,
    after: (CreateStep, Seq<Level>),
)
    requires
        0 < tree.len() <= usize::MAX,
        possible(tree),
        attempt_follows((CreateStep::Make { level: 0, phase: Phase::Single }, tree), result, after),
    ensures
        after.0 is Done,
        after.0 == CreateStep::Done(Ok(())) <==> tree[0] is Missing && forall|i: int|
            1 <= i < tree.len() ==> (#[trigger] tree[i]) is Directory,
        after.0->Done_0 is Ok ==> after.1 == tree.update(0, Level::Directory),
        after.0->Done_0 is Err ==> after.1 == tree && after.0->Done_0 == result,
        !(tree[0] is Missing) ==> after.0->Done_0->Err_0.spec_kind() is AlreadyExists,
{
    if tree[0] is Missing && tree.len() > 1 && tree[1] is Directory {
        assert forall|i: int| 1 <= i < tree.len() implies (#[trigger] tree[i]) is Directory by {
            if i > 1 {
                assert(!(tree[1] is Missing));
            }
        }
    }
}

impl CreateStep {
    /// What one attempt leads to. A directory that was asked for alone is made by one
    /// attempt, whose result is the answer. Otherwise a missing parent is tried next,
    /// as long as there is one; once a level was made, or found on the way back, the
    /// one inside it is tried next, until the path itself was; and any other failure
    /// is the answer.
    pub proof fn law_what_an_attempt_leads_to(
        level: usize,
        phase: Phase,
        levels: usize,
        result: Result<(), IoError>,
    )
        requires
            level < levels,
        ensures
            ({
                let next = (CreateStep::Make { level, phase }).spec_made(levels, result);
                let exists = result matches Err(error) && error.spec_kind() == ErrorKind::AlreadyExists;
                let missing = result matches Err(error) && error.spec_kind() == ErrorKind::NotFound;
                &&& phase is Single && result is Ok ==> next == CreateStep::Done(Ok(()))
                &&& phase is Single && result is Err ==> next == CreateStep::Done(result)
                &&& !(phase is Single) && result is Ok && level == 0 ==> next == CreateStep::Done(Ok(()))
                &&& !(phase is Single) && (result is Ok || exists) && level > 0 ==> next == (CreateStep::Make {
                    level: (level - 1) as usize,
                    phase: Phase::Up,
                })
                &&& phase is Up && exists && level == 0 ==> next == CreateStep::Done(Ok(()))
                &&& phase is Down && exists && level == 0 ==> next == CreateStep::CheckDir(result->Err_0)
                &&& phase is Down && missing && level + 1 < levels ==> next == (CreateStep::Make {
                    level: (level + 1) as usize,
                    phase: Phase::Down,
                })
                &&& phase is Down && missing && level + 1 == levels ==> next == CreateStep::Done(result)
                &&& phase is Up && missing ==> next == CreateStep::Done(result)
                &&& result is Err && !exists && !missing ==> next == CreateStep::Done(result)
            }),
    {
    }

    /// What is there already is the answer if it is a directory; if it is not, that
    /// something is there is.
    pub proof fn law_what_is_there_must_be_a_directory(error: IoError)
        ensures
            CreateStep::spec_checked(error, true) == CreateStep::Done(Ok(())),
            CreateStep::spec_checked(error, false) == CreateStep::Done(Err(error)),
    {
    }
}

} // verus!
