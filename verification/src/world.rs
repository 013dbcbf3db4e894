//! A model of what surrounds a job: a file system, a clock and a time zone,
//! and a driver that does what the job asks. Nothing here runs. The model
//! says what the job takes its driver to do, and the laws say what touching
//! a file then comes to, in terms of the files before and after.

use crate::clock::{civil_time, lemma_year_plays_no_part, needs_year, CivilTime, Timestamp};
use crate::error::TouchError;
use crate::touch::{
    Existing, Job, Reply, Request, ResolvedTimes, Source, Stage, TargetState,
};
use crate::validate::{bytes_of, lemma_verdicts, path_rules};
use vstd::prelude::*;

verus! {

/// What stands at one path.
pub enum Entry {
    /// A plain file of this size, with these times.
    File { size: nat, accessed: Timestamp, modified: Timestamp },
    /// A symbolic link.
    Symlink,
    /// Something whose metadata cannot be read.
    Unreadable,
}

/// The surroundings of a job. Paths are told apart by their text.
pub struct World {
    /// The working directory.
    pub cwd: String,
    /// What the clock shows.
    pub now: Timestamp,
    /// The year of the current date, in local time.
    pub year: i32,
    /// The local time zone: the one instant of a date and time, if any.
    pub zone: spec_fn(CivilTime) -> Option<Timestamp>,
    /// The paths at which a file can be created.
    pub writable: Set<Seq<char>>,
    /// What stands at each path that exists.
    pub entries: Map<Seq<char>, Entry>,
}

impl World {
    /// What a driver finds at a path.
    pub open spec fn state_of(self, path: Seq<char>) -> TargetState {
        if !self.entries.dom().contains(path) {
            TargetState::Missing
        } else {
            match self.entries[path] {
                Entry::File { accessed, modified, .. } => TargetState::Present(
                    Existing { accessed, modified },
                ),
                Entry::Symlink => TargetState::Symlink,
                Entry::Unreadable => TargetState::Unreadable,
            }
        }
    }

    /// The modification time that a driver reads at a path, if it can.
    pub open spec fn modified_at(self, path: Seq<char>) -> Option<Timestamp> {
        if self.entries.dom().contains(path) {
            match self.entries[path] {
                Entry::File { modified, .. } => Some(modified),
                _ => None,
            }
        } else {
            None
        }
    }

    /// Whether the driver can set the times at a path: a plain file is
    /// there.
    pub open spec fn holds_file(self, path: Seq<char>) -> bool {
        self.entries.dom().contains(path) && self.entries[path] is File
    }

    /// The world with an empty file, new as of now, at a path.
    pub open spec fn with_new_file(self, path: Seq<char>) -> World {
        World {
            entries: self.entries.insert(
                path,
                Entry::File { size: 0, accessed: self.now, modified: self.now },
            ),
            ..self
        }
    }

    /// The world with the times of the file at a path set, and its content
    /// as it was.
    pub open spec fn with_times(self, path: Seq<char>, times: ResolvedTimes) -> World {
        World {
            entries: self.entries.insert(
                path,
                Entry::File {
                    size: self.entries[path]->size,
                    accessed: times.access,
                    modified: times.modification,
                },
            ),
            ..self
        }
    }

    /// What the driver tells a job that asks this of it.
    pub open spec fn reply_to(self, job: Job) -> Reply {
        match job.request() {
            Request::WorkingDirectory => Reply::WorkingDirectory(self.cwd),
            Request::InspectTarget => Reply::Target(self.state_of(job.target()->0)),
            Request::ReadReferenceTime => Reply::ReferenceTime(
                self.modified_at(job.reference()->0),
            ),
            Request::ReadClock => Reply::Clock(self.now),
            Request::ReadLocalYear => Reply::LocalYear(self.year),
            Request::CreateFile => Reply::Created(self.writable.contains(job.target()->0)),
            Request::SetTimes(_) => Reply::TimesSet(self.holds_file(job.target()->0)),
            Request::Nothing => Reply::Created(false),
        }
    }

    /// The world after the driver has done what the job asks. Only creating
    /// a file and setting times change anything, and only at the target.
    pub open spec fn served(self, job: Job) -> World {
        match job.request() {
            Request::CreateFile => if self.writable.contains(job.target()->0) {
                self.with_new_file(job.target()->0)
            } else {
                self
            },
            Request::SetTimes(times) => if self.holds_file(job.target()->0) {
                self.with_times(job.target()->0, times)
            } else {
                self
            },
            _ => self,
        }
    }

    /// What the time zone gives the job on this reply, where it asks.
    pub open spec fn placed(self, job: Job, reply: Reply) -> Option<Timestamp> {
        match job.asked(reply) {
            Some(civil) => (self.zone)(civil),
            None => None,
        }
    }

    /// The job after the driver has served it once.
    pub open spec fn advanced(self, job: Job) -> Job {
        job.next(self.reply_to(job), self.placed(job, self.reply_to(job)))
    }
}

/// The world and the job after the driver has served the job `rounds` times.
pub open spec fn driven(world: World, job: Job, rounds: nat) -> (World, Job)
    decreases rounds,
{
    if rounds == 0 {
        (world, job)
    } else {
        driven(world.served(job), world.advanced(job), (rounds - 1) as nat)
    }
}

/// The rounds after which every job has ended.
pub open spec fn enough_rounds() -> nat {
    7
}

/// The world once the driver has served the job to its end.
pub open spec fn world_after(world: World, job: Job) -> World {
    driven(world, job, enough_rounds()).0
}

/// The outcome of the job once the driver has served it to its end.
pub open spec fn outcome_after(world: World, job: Job) -> Option<Result<(), TouchError>> {
    driven(world, job, enough_rounds()).1.outcome()
}

/// Whether the job is at its start, with a path that the validator accepts.
pub open spec fn starts_on(job: Job, path: Seq<char>) -> bool {
    job.stage == (Stage::Validating { raw: path }) && path_rules(bytes_of(path)) is Ok
}

/// A plain touch of a path where nothing stands and a file can be created
/// ends in success; afterwards an empty file stands there, with both times
/// what the clock showed, and nothing else has changed.
pub proof fn lemma_touch_creates_empty_file(world: World, job: Job, path: Seq<char>)
    requires
        starts_on(job, path),
        !world.entries.dom().contains(path),
        world.writable.contains(path),
        !job.settings.no_create,
        job.settings.source is Now,
    ensures
        outcome_after(world, job) == Some(Ok::<(), TouchError>(())),
        world_after(world, job) == (World {
            entries: world.entries.insert(
                path,
                Entry::File { size: 0, accessed: world.now, modified: world.now },
            ),
            ..world
        }),
{
    reveal_with_fuel(driven, 8);
    lemma_verdicts(bytes_of(path), bytes_of(world.cwd@));
    let created = world.with_new_file(path);
    let both = ResolvedTimes { access: world.now, modification: world.now };
    assert(created.with_times(path, both).entries =~= created.entries);
}

/// Where files must not be created, touching a path where nothing stands
/// ends in success and leaves the world as it was, whatever else was asked
/// for.
pub proof fn lemma_no_create_changes_nothing(world: World, job: Job, path: Seq<char>)
    requires
        starts_on(job, path),
        !world.entries.dom().contains(path),
        job.settings.no_create,
    ensures
        outcome_after(world, job) == Some(Ok::<(), TouchError>(())),
        world_after(world, job) == world,
{
    reveal_with_fuel(driven, 8);
    lemma_verdicts(bytes_of(path), bytes_of(world.cwd@));
}

/// A plain touch of a file that exists ends in success; afterwards both its
/// times are what the clock showed, its content is as it was, and nothing
/// else has changed. Touching only the access time leaves the modification
/// time exactly as it was, and touching only the modification time leaves
/// the access time.
pub proof fn lemma_touch_refreshes_file(
    world: World,
    job: Job,
    path: Seq<char>,
    size: nat,
    accessed: Timestamp,
    modified: Timestamp,
)
    requires
        starts_on(job, path),
        world.entries.dom().contains(path),
        world.entries[path] == (Entry::File { size, accessed, modified }),
        job.settings.source is Now,
    ensures
        outcome_after(world, job) == Some(Ok::<(), TouchError>(())),
        world_after(world, job) == (World {
            entries: world.entries.insert(
                path,
                Entry::File {
                    size,
                    accessed: if job.settings.modify_only && !job.settings.access_only {
                        accessed
                    } else {
                        world.now
                    },
                    modified: if job.settings.access_only && !job.settings.modify_only {
                        modified
                    } else {
                        world.now
                    },
                },
            ),
            ..world
        }),
{
    reveal_with_fuel(driven, 8);
    lemma_verdicts(bytes_of(path), bytes_of(world.cwd@));
}

/// With a reference file and both facets touched, touching a file that
/// exists ends in success; afterwards both its times are exactly the
/// modification time of the reference, its content is as it was, and
/// nothing else has changed, the reference least of all.
pub proof fn lemma_touch_copies_reference_time(
    world: World,
    job: Job,
    path: Seq<char>,
    size: nat,
    reference: Seq<char>,
)
    requires
        starts_on(job, path),
        world.entries.dom().contains(path),
        world.entries[path] matches Entry::File { size: s, .. } && s == size,
        job.settings.source == Source::Reference(reference),
        path_rules(bytes_of(reference)) is Ok,
        world.modified_at(reference) is Some,
        job.settings.access_only == job.settings.modify_only,
    ensures
        outcome_after(world, job) == Some(Ok::<(), TouchError>(())),
        world_after(world, job) == (World {
            entries: world.entries.insert(
                path,
                Entry::File {
                    size,
                    accessed: world.modified_at(reference)->0,
                    modified: world.modified_at(reference)->0,
                },
            ),
            ..world
        }),
        reference != path ==> world_after(world, job).entries[reference]
            == world.entries[reference],
{
    reveal_with_fuel(driven, 8);
    lemma_verdicts(bytes_of(path), bytes_of(world.cwd@));
    lemma_verdicts(bytes_of(reference), bytes_of(world.cwd@));
}

/// With an explicit timestamp that names a date and time for which the time
/// zone has one instant, and both facets touched, touching a file that
/// exists ends in success; afterwards both its times are that instant, its
/// content is as it was, and nothing else has changed.
pub proof fn lemma_touch_sets_stamp(
    world: World,
    job: Job,
    path: Seq<char>,
    size: nat,
    stamp: Seq<char>,
    civil: CivilTime,
    at: Timestamp,
)
    requires
        starts_on(job, path),
        world.entries.dom().contains(path),
        world.entries[path] matches Entry::File { size: s, .. } && s == size,
        job.settings.source == Source::Explicit(stamp),
        civil_time(stamp, world.year as int) == Ok::<CivilTime, crate::error::TimeError>(civil),
        (world.zone)(civil) == Some(at),
        job.settings.access_only == job.settings.modify_only,
    ensures
        outcome_after(world, job) == Some(Ok::<(), TouchError>(())),
        world_after(world, job) == (World {
            entries: world.entries.insert(path, Entry::File { size, accessed: at, modified: at }),
            ..world
        }),
{
    reveal_with_fuel(driven, 8);
    lemma_verdicts(bytes_of(path), bytes_of(world.cwd@));
    if !needs_year(stamp) {
        lemma_year_plays_no_part(stamp, 0, world.year as int);
    }
}

/// A path that the validator refuses leaves the world as it was, and the
/// job ends with the validator's error.
pub proof fn lemma_refused_path_changes_nothing(world: World, job: Job, raw: Seq<char>)
    requires
        job.stage == (Stage::Validating { raw }),
        path_rules(bytes_of(raw)) is Err,
    ensures
        outcome_after(world, job) == Some(
            Err::<(), TouchError>(TouchError::Path(path_rules(bytes_of(raw))->Err_0)),
        ),
        world_after(world, job) == world,
{
    reveal_with_fuel(driven, 8);
    lemma_verdicts(bytes_of(raw), bytes_of(world.cwd@));
}

} // verus!
