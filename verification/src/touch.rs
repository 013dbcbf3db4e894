//! Touching one file, as a sequence of decisions.
//!
//! A job never acts on the file system itself. It says what it needs next
//! (the working directory, the state of the target, the clock, a file
//! created, times set), its driver does that and hands back what it found,
//! and the job decides how to go on.

use crate::clock::{
    civil_time, lemma_year_plays_no_part, local_instant, needs_year, read_stamp, single_instant,
    wants_year, CivilTime, Timestamp,
};
use crate::error::{IoError, PathError, TimeError, TouchError};
use crate::validate::{
    bytes_of, lemma_verdicts, path_rules, validate_file_path, validation, SafePath, MAX_BYTES,
};
use vstd::prelude::*;

verus! {

/// The times that an existing file has now.
#[derive(Debug, Clone, Copy, PartialEq, Eq, Structural)]
pub struct Existing {
    pub accessed: Timestamp,
    pub modified: Timestamp,
}

/// What the driver found at the target path, without following a link.
#[derive(Debug, Clone, Copy, PartialEq, Eq, Structural)]
pub enum TargetState {
    /// Nothing is there.
    Missing,
    /// A symbolic link is there.
    Symlink,
    /// Something is there, but its metadata cannot be read.
    Unreadable,
    /// A file is there, with these times.
    Present(Existing),
}

/// The pair of times to give a file.
#[derive(Debug, Clone, Copy, PartialEq, Eq, Structural)]
pub struct ResolvedTimes {
    pub access: Timestamp,
    pub modification: Timestamp,
}

/// Where the target time comes from.
#[derive(Debug, Clone, PartialEq, Eq)]
pub enum TimeSource {
    /// The clock, read when the file is processed.
    Now,
    /// The modification time of this file, an untrusted path like any other.
    FromReference(String),
    /// This timestamp, still as the digits that were given.
    Explicit(String),
}

/// Which times to give, decided once for a whole batch.
#[derive(Debug, Clone, PartialEq, Eq)]
pub struct TimestampSpec {
    pub source: TimeSource,
    pub access_only: bool,
    pub modify_only: bool,
}

/// What a job needs from its driver next.
#[derive(Debug, Clone, Copy, PartialEq, Eq, Structural)]
pub enum Request {
    /// The current working directory.
    WorkingDirectory,
    /// The state of the target path.
    InspectTarget,
    /// The modification time of the reference file.
    ReadReferenceTime,
    /// The current time.
    ReadClock,
    /// The year of the current date, in local time.
    ReadLocalYear,
    /// An empty file created at the target path.
    CreateFile,
    /// These times set on the target.
    SetTimes(ResolvedTimes),
    /// Nothing: the job has finished.
    Nothing,
}

/// What the driver hands back.
#[derive(Debug, Clone, PartialEq, Eq)]
pub enum Reply {
    /// The current working directory.
    WorkingDirectory(String),
    /// The state of the target path.
    Target(TargetState),
    /// The modification time of the reference file, if it could be read.
    ReferenceTime(Option<Timestamp>),
    /// The current time.
    Clock(Timestamp),
    /// The year of the current date, in local time.
    LocalYear(i32),
    /// Whether the file was created.
    Created(bool),
    /// Whether the times were set.
    TimesSet(bool),
}

/// A time source, as the contracts see it.
pub enum Source {
    Now,
    Reference(Seq<char>),
    Explicit(Seq<char>),
}

/// The settings of a job, as the contracts see them.
pub struct Settings {
    pub no_create: bool,
    pub access_only: bool,
    pub modify_only: bool,
    pub source: Source,
}

/// How far a job has come, as the contracts see it.
pub enum Stage {
    /// Waiting for the working directory, to validate the target path.
    Validating { raw: Seq<char> },
    /// Waiting for the state of the target.
    Inspecting { path: Seq<char> },
    /// Waiting for the working directory, to validate the reference path.
    ValidatingReference { path: Seq<char>, current: Option<Existing> },
    /// Waiting for the modification time of the reference file.
    ReadingReference { path: Seq<char>, current: Option<Existing>, reference: Seq<char> },
    /// Waiting for the current time.
    ReadingClock { path: Seq<char>, current: Option<Existing> },
    /// Waiting for the current year, to complete the timestamp.
    ReadingYear { path: Seq<char>, current: Option<Existing> },
    /// Waiting for the file to be created.
    Creating { path: Seq<char>, times: ResolvedTimes },
    /// Waiting for the times to be set.
    SettingTimes { path: Seq<char>, times: ResolvedTimes },
    /// Done, with this outcome.
    Finished(Result<(), TouchError>),
}

/// A job, as the contracts see it.
pub struct Job {
    pub settings: Settings,
    pub stage: Stage,
}

impl View for TimeSource {
    type V = Source;

    open spec fn view(&self) -> Source {
        match self {
            TimeSource::Now => Source::Now,
            TimeSource::FromReference(path) => Source::Reference(path@),
            TimeSource::Explicit(stamp) => Source::Explicit(stamp@),
        }
    }
}

/// The pair of times for a target time `at`. Touching only one facet of a
/// file that exists keeps the other as it is; asking for both facets, for
/// neither, or touching a file that does not exist yet gives `at` twice.
pub open spec fn resolved_times(
    current: Option<Existing>,
    at: Timestamp,
    access_only: bool,
    modify_only: bool,
) -> ResolvedTimes {
    match current {
        Some(now) if access_only && !modify_only => ResolvedTimes {
            access: at,
            modification: now.modified,
        },
        Some(now) if modify_only && !access_only => ResolvedTimes {
            access: now.accessed,
            modification: at,
        },
        _ => ResolvedTimes { access: at, modification: at },
    }
}

/// Where a job goes once its target time is known: to creating the file
/// where there is none, else straight to setting the times.
pub open spec fn planned(
    settings: Settings,
    path: Seq<char>,
    current: Option<Existing>,
    at: Timestamp,
) -> Stage {
    let times = resolved_times(current, at, settings.access_only, settings.modify_only);
    if current is None {
        Stage::Creating { path, times }
    } else {
        Stage::SettingTimes { path, times }
    }
}

/// Where a job goes once its timestamp has been read: to its end where the
/// timestamp names no date and time, or where the local time zone has no
/// single instant for it (`instant` is what the zone gives), else on with
/// that instant.
pub open spec fn timed(
    settings: Settings,
    path: Seq<char>,
    current: Option<Existing>,
    read: Result<CivilTime, TimeError>,
    instant: Option<Timestamp>,
) -> Stage {
    match read {
        Err(e) => Stage::Finished(Err(TouchError::Time(e))),
        Ok(_) => match instant {
            Some(at) => planned(settings, path, current, at),
            None => Stage::Finished(
                Err(TouchError::Time(TimeError::AmbiguousOrInvalidLocalTime)),
            ),
        },
    }
}

/// Where a job goes once the target is known to be absent or a plain file
/// with times `current`: nowhere where it is absent and must not be
/// created, else to finding the target time at its source. A timestamp is
/// held to the shape rules at once; the current year is asked for only
/// where the timestamp needs it.
pub open spec fn sourced(
    settings: Settings,
    path: Seq<char>,
    current: Option<Existing>,
    instant: Option<Timestamp>,
) -> Stage {
    if current is None && settings.no_create {
        Stage::Finished(Ok(()))
    } else {
        match settings.source {
            Source::Now => Stage::ReadingClock { path, current },
            Source::Reference(_) => Stage::ValidatingReference { path, current },
            Source::Explicit(stamp) => if needs_year(stamp) {
                Stage::ReadingYear { path, current }
            } else {
                timed(settings, path, current, civil_time(stamp, 0), instant)
            },
        }
    }
}

/// The stage that follows `stage` on `reply`. A reply that does not answer
/// what the stage waits for changes nothing.
pub open spec fn next_stage(
    settings: Settings,
    stage: Stage,
    reply: Reply,
    instant: Option<Timestamp>,
) -> Stage {
    match (stage, reply) {
        (Stage::Validating { raw }, Reply::WorkingDirectory(cwd)) => match validation(
            bytes_of(raw),
            bytes_of(cwd@),
        ) {
            Ok(_) => Stage::Inspecting { path: raw },
            Err(e) => Stage::Finished(Err(TouchError::Path(e))),
        },
        (Stage::Inspecting { path }, Reply::Target(state)) => match state {
            TargetState::Symlink => Stage::Finished(
                Err(TouchError::Path(PathError::SymlinkRefused)),
            ),
            TargetState::Unreadable => Stage::Finished(
                Err(TouchError::Io(IoError::MetadataReadFailed)),
            ),
            TargetState::Missing => sourced(settings, path, None, instant),
            TargetState::Present(now) => sourced(settings, path, Some(now), instant),
        },
        (Stage::ValidatingReference { path, current }, Reply::WorkingDirectory(cwd)) => {
            match settings.source {
                Source::Reference(raw) => match validation(bytes_of(raw), bytes_of(cwd@)) {
                    Ok(_) => Stage::ReadingReference { path, current, reference: raw },
                    Err(e) => Stage::Finished(Err(TouchError::Path(e))),
                },
                _ => stage,
            }
        },
        (Stage::ReadingReference { path, current, .. }, Reply::ReferenceTime(found)) => {
            match found {
                Some(at) => planned(settings, path, current, at),
                None => Stage::Finished(
                    Err(TouchError::Time(TimeError::ReferenceFileUnreadable)),
                ),
            }
        },
        (Stage::ReadingClock { path, current }, Reply::Clock(at)) => planned(
            settings,
            path,
            current,
            at,
        ),
        (Stage::ReadingYear { path, current }, Reply::LocalYear(year)) => match settings.source {
            Source::Explicit(stamp) => timed(
                settings,
                path,
                current,
                civil_time(stamp, year as int),
                instant,
            ),
            _ => stage,
        },
        (Stage::Creating { path, times }, Reply::Created(done)) => if done {
            Stage::SettingTimes { path, times }
        } else {
            Stage::Finished(Err(TouchError::Io(IoError::CreateFailed)))
        },
        (Stage::SettingTimes { path, times }, Reply::TimesSet(done)) => if done {
            Stage::Finished(Ok(()))
        } else {
            Stage::Finished(Err(TouchError::Io(IoError::SetTimesFailed)))
        },
        _ => stage,
    }
}

impl Job {
    /// The job after `reply`.
    pub open spec fn next(self, reply: Reply, instant: Option<Timestamp>) -> Job {
        Job {
            settings: self.settings,
            stage: next_stage(self.settings, self.stage, reply, instant),
        }
    }

    /// What the job needs next.
    pub open spec fn request(self) -> Request {
        match self.stage {
            Stage::Validating { .. } => Request::WorkingDirectory,
            Stage::Inspecting { .. } => Request::InspectTarget,
            Stage::ValidatingReference { .. } => Request::WorkingDirectory,
            Stage::ReadingReference { .. } => Request::ReadReferenceTime,
            Stage::ReadingClock { .. } => Request::ReadClock,
            Stage::ReadingYear { .. } => Request::ReadLocalYear,
            Stage::Creating { .. } => Request::CreateFile,
            Stage::SettingTimes { times, .. } => Request::SetTimes(times),
            Stage::Finished(_) => Request::Nothing,
        }
    }

    /// The target path, once it has been accepted and while the job runs.
    pub open spec fn target(self) -> Option<Seq<char>> {
        match self.stage {
            Stage::Inspecting { path } => Some(path),
            Stage::ValidatingReference { path, .. } => Some(path),
            Stage::ReadingReference { path, .. } => Some(path),
            Stage::ReadingClock { path, .. } => Some(path),
            Stage::ReadingYear { path, .. } => Some(path),
            Stage::Creating { path, .. } => Some(path),
            Stage::SettingTimes { path, .. } => Some(path),
            _ => None,
        }
    }

    /// The reference path, while the job waits for its time.
    pub open spec fn reference(self) -> Option<Seq<char>> {
        match self.stage {
            Stage::ReadingReference { reference, .. } => Some(reference),
            _ => None,
        }
    }

    /// The outcome, once the job has finished.
    pub open spec fn outcome(self) -> Option<Result<(), TouchError>> {
        match self.stage {
            Stage::Finished(outcome) => Some(outcome),
            _ => None,
        }
    }

    /// What holds of every job that was started and advanced by the
    /// functions of this module: a path that the job holds has been
    /// accepted, and the stage fits the time source.
    pub open spec fn wf(self) -> bool {
        &&& self.target() matches Some(path) ==> path_rules(bytes_of(path)) is Ok
        &&& self.reference() matches Some(path) ==> path_rules(bytes_of(path)) is Ok
        &&& self.stage is ValidatingReference ==> self.settings.source is Reference
        &&& self.stage matches Stage::ReadingReference { reference, .. }
            ==> self.settings.source == Source::Reference(reference)
        &&& self.stage is ReadingClock ==> self.settings.source is Now
        &&& self.stage is ReadingYear ==> (self.settings.source matches Source::Explicit(stamp)
            && needs_year(stamp))
        &&& self.stage is Creating ==> !self.settings.no_create
        &&& self.waits_for_absent() ==> !self.settings.no_create
    }

    /// Whether the job is looking for the target time of a file that does
    /// not exist yet.
    pub open spec fn waits_for_absent(self) -> bool {
        match self.stage {
            Stage::ValidatingReference { current, .. } => current is None,
            Stage::ReadingReference { current, .. } => current is None,
            Stage::ReadingClock { current, .. } => current is None,
            Stage::ReadingYear { current, .. } => current is None,
            _ => false,
        }
    }

    /// The times of the target as the job found them, while it looks for
    /// the target time of a file that exists.
    pub open spec fn existing(self) -> Option<Existing> {
        match self.stage {
            Stage::ValidatingReference { current, .. } => current,
            Stage::ReadingReference { current, .. } => current,
            Stage::ReadingClock { current, .. } => current,
            Stage::ReadingYear { current, .. } => current,
            _ => None,
        }
    }

    /// The date and time that the job, on this reply, asks the local time
    /// zone to place; none where the reply leads to no such question.
    pub open spec fn asked(self, reply: Reply) -> Option<CivilTime> {
        match (self.stage, reply, self.settings.source) {
            (Stage::Inspecting { .. }, Reply::Target(state), Source::Explicit(stamp)) => {
                let touched = state is Present || (state is Missing && !self.settings.no_create);
                if touched && !needs_year(stamp) {
                    match civil_time(stamp, 0) {
                        Ok(civil) => Some(civil),
                        Err(_) => None,
                    }
                } else {
                    None
                }
            },
            (Stage::ReadingYear { .. }, Reply::LocalYear(year), Source::Explicit(stamp)) => {
                match civil_time(stamp, year as int) {
                    Ok(civil) => Some(civil),
                    Err(_) => None,
                }
            },
            _ => None,
        }
    }
}

/// A well-formed job stays well-formed, whatever it is told.
pub proof fn lemma_next_keeps_wf(job: Job, reply: Reply, instant: Option<Timestamp>)
    requires
        job.wf(),
    ensures
        job.next(reply, instant).wf(),
{
    match (job.stage, reply) {
        (Stage::Validating { raw }, Reply::WorkingDirectory(cwd)) => {},
        (Stage::ValidatingReference { path, current }, Reply::WorkingDirectory(cwd)) => {},
        _ => {},
    }
}

/// Where the job does not ask the local time zone, what the zone would
/// give plays no part.
pub proof fn lemma_zone_unused(
    job: Job,
    reply: Reply,
    one: Option<Timestamp>,
    other: Option<Timestamp>,
)
    requires
        job.asked(reply) is None,
    ensures
        job.next(reply, one) == job.next(reply, other),
{
}

/// Whether the request makes the driver look at or change the file system.
pub open spec fn touches_file_system(request: Request) -> bool {
    request is InspectTarget || request is ReadReferenceTime || request is CreateFile
        || request is SetTimes
}

/// One step of a run: what the driver replied, and what the local time
/// zone gave, where the job asked it.
pub struct Step {
    pub reply: Reply,
    pub instant: Option<Timestamp>,
}

/// The job after a run of steps.
pub open spec fn run(job: Job, steps: Seq<Step>) -> Job
    decreases steps.len(),
{
    if steps.len() == 0 {
        job
    } else {
        run(job.next(steps[0].reply, steps[0].instant), steps.drop_first())
    }
}

/// A finished job stays as it is, whatever it is told.
pub proof fn lemma_finished_is_final(job: Job, steps: Seq<Step>)
    requires
        job.stage is Finished,
    ensures
        run(job, steps) == job,
    decreases steps.len(),
{
    if steps.len() > 0 {
        lemma_finished_is_final(job.next(steps[0].reply, steps[0].instant), steps.drop_first());
    }
}

/// A path that the validator refuses ends the job at once, with the
/// validator's error.
pub proof fn lemma_refused_path_ends_job(
    job: Job,
    raw: Seq<char>,
    cwd: String,
    instant: Option<Timestamp>,
    e: PathError,
)
    requires
        job.stage == (Stage::Validating { raw }),
        validation(bytes_of(raw), bytes_of(cwd@)) == Err::<(), PathError>(e),
    ensures
        job.next(Reply::WorkingDirectory(cwd), instant).outcome() == Some(
            Err::<(), TouchError>(TouchError::Path(e)),
        ),
{
}

/// A job whose path the rules on the path alone refuse never asks for
/// anything of the file system, however long it runs and whatever it is
/// told.
pub proof fn lemma_refused_path_never_reaches_files(job: Job, raw: Seq<char>, steps: Seq<Step>)
    requires
        job.stage == (Stage::Validating { raw }),
        path_rules(bytes_of(raw)) is Err,
    ensures
        !touches_file_system(run(job, steps).request()),
    decreases steps.len(),
{
    if steps.len() > 0 {
        let after = job.next(steps[0].reply, steps[0].instant);
        match steps[0].reply {
            Reply::WorkingDirectory(cwd) => {
                lemma_verdicts(bytes_of(raw), bytes_of(cwd@));
                lemma_finished_is_final(after, steps.drop_first());
            },
            _ => {
                lemma_refused_path_never_reaches_files(after, raw, steps.drop_first());
            },
        }
    }
}

/// A path of more than `MAX_BYTES` bytes ends the job as too long, before
/// anything is asked of the file system, and nothing is asked after.
pub proof fn lemma_overlong_path_never_reaches_files(
    job: Job,
    raw: Seq<char>,
    cwd: String,
    instant: Option<Timestamp>,
    steps: Seq<Step>,
)
    requires
        job.stage == (Stage::Validating { raw }),
        bytes_of(raw).len() > MAX_BYTES,
    ensures
        job.next(Reply::WorkingDirectory(cwd), instant).outcome() == Some(
            Err::<(), TouchError>(TouchError::Path(PathError::TooLong)),
        ),
        !touches_file_system(run(job, steps).request()),
{
    lemma_refused_path_never_reaches_files(job, raw, steps);
}

/// Where files must not be created and the target is missing, the job ends
/// in success at once and asks for nothing more: nothing is created and no
/// time is set.
pub proof fn lemma_no_create_is_a_no_op(
    job: Job,
    instant: Option<Timestamp>,
    steps: Seq<Step>,
)
    requires
        job.stage is Inspecting,
        job.settings.no_create,
    ensures
        job.next(Reply::Target(TargetState::Missing), instant).outcome() == Some(
            Ok::<(), TouchError>(()),
        ),
        run(job.next(Reply::Target(TargetState::Missing), instant), steps).request()
            == Request::Nothing,
{
    lemma_finished_is_final(job.next(Reply::Target(TargetState::Missing), instant), steps);
}

/// A job that must not create files never asks for one to be created.
pub proof fn lemma_no_create_never_creates(job: Job, steps: Seq<Step>)
    requires
        job.wf(),
        job.settings.no_create,
    ensures
        run(job, steps).request() != Request::CreateFile,
    decreases steps.len(),
{
    if steps.len() > 0 {
        lemma_next_keeps_wf(job, steps[0].reply, steps[0].instant);
        lemma_no_create_never_creates(
            job.next(steps[0].reply, steps[0].instant),
            steps.drop_first(),
        );
    }
}

/// With a reference file, the modification time that the job goes on to
/// write is the one that was read from the reference, and it is not changed
/// by creating the file first. The one case left out is touching only the
/// access time of a file that exists, which keeps its modification time.
pub proof fn lemma_reference_time_is_written(
    job: Job,
    at: Timestamp,
    instant: Option<Timestamp>,
)
    requires
        job.stage is ReadingReference,
        !(job.settings.access_only && !job.settings.modify_only && job.existing() is Some),
    ensures
        ({
            let after = job.next(Reply::ReferenceTime(Some(at)), instant);
            match after.stage {
                Stage::Creating { times, .. } => times.modification == at && after.next(
                    Reply::Created(true),
                    instant,
                ).request() == Request::SetTimes(times),
                Stage::SettingTimes { times, .. } => times.modification == at,
                _ => false,
            }
        }),
{
}

/// Touching only the access time of a file that exists writes back the
/// modification time it has; touching only the modification time writes
/// back the access time; touching both, or neither, writes the target time
/// twice.
pub proof fn lemma_untouched_facet_is_kept(
    now: Existing,
    at: Timestamp,
    access_only: bool,
    modify_only: bool,
)
    ensures
        access_only && !modify_only ==> resolved_times(Some(now), at, access_only, modify_only)
            == (ResolvedTimes { access: at, modification: now.modified }),
        modify_only && !access_only ==> resolved_times(Some(now), at, access_only, modify_only)
            == (ResolvedTimes { access: now.accessed, modification: at }),
        access_only == modify_only ==> resolved_times(Some(now), at, access_only, modify_only)
            == (ResolvedTimes { access: at, modification: at }),
{
}

/// Whatever the source of the target time, a job that touches only the
/// access time of a file that exists asks for its modification time to be
/// set to what it was.
pub proof fn lemma_access_only_keeps_modification(
    job: Job,
    reply: Reply,
    instant: Option<Timestamp>,
    now: Existing,
)
    requires
        job.wf(),
        job.settings.access_only && !job.settings.modify_only,
        (job.stage is Inspecting && reply == Reply::Target(TargetState::Present(now))) || ((
        job.stage is ReadingClock || job.stage is ReadingReference || job.stage is ReadingYear)
            && job.existing() == Some(now)),
    ensures
        job.next(reply, instant).request() matches Request::SetTimes(times)
            ==> times.modification == now.modified,
        job.next(reply, instant).request() != Request::CreateFile,
{
}

/// An explicit timestamp that names a date and time, on a file that exists
/// and with both facets touched: the job asks for the current year only
/// where the timestamp needs it, then asks for both times to be set to the
/// one instant that the local time zone gives, and ends in success once
/// that is done.
pub proof fn lemma_stamp_sets_both_times(
    job: Job,
    stamp: Seq<char>,
    year: i32,
    now: Existing,
    at: Timestamp,
)
    requires
        job.stage is Inspecting,
        job.settings.source == Source::Explicit(stamp),
        job.settings.access_only == job.settings.modify_only,
        civil_time(stamp, year as int) is Ok,
    ensures
        ({
            let inspected = job.next(Reply::Target(TargetState::Present(now)), Some(at));
            let placed = if needs_year(stamp) {
                inspected.next(Reply::LocalYear(year), Some(at))
            } else {
                inspected
            };
            &&& needs_year(stamp) ==> inspected.request() == Request::ReadLocalYear
            &&& placed.request() == Request::SetTimes(
                ResolvedTimes { access: at, modification: at },
            )
            &&& placed.next(Reply::TimesSet(true), Some(at)).outcome() == Some(
                Ok::<(), TouchError>(()),
            )
        }),
{
    if !needs_year(stamp) {
        lemma_year_plays_no_part(stamp, 0, year as int);
    }
}

/// Whether the reply is the answer to the request.
pub open spec fn answers(request: Request, reply: Reply) -> bool {
    match (request, reply) {
        (Request::WorkingDirectory, Reply::WorkingDirectory(_)) => true,
        (Request::InspectTarget, Reply::Target(_)) => true,
        (Request::ReadReferenceTime, Reply::ReferenceTime(_)) => true,
        (Request::ReadClock, Reply::Clock(_)) => true,
        (Request::ReadLocalYear, Reply::LocalYear(_)) => true,
        (Request::CreateFile, Reply::Created(_)) => true,
        (Request::SetTimes(_), Reply::TimesSet(_)) => true,
        _ => false,
    }
}

/// The most answers that a job at this stage still needs before it ends.
pub open spec fn answers_left(stage: Stage) -> nat {
    match stage {
        Stage::Validating { .. } => 7,
        Stage::Inspecting { .. } => 6,
        Stage::ValidatingReference { .. } => 5,
        Stage::ReadingReference { .. } => 4,
        Stage::ReadingClock { .. } => 4,
        Stage::ReadingYear { .. } => 4,
        Stage::Creating { .. } => 3,
        Stage::SettingTimes { .. } => 2,
        Stage::Finished(_) => 0,
    }
}

/// Every answer brings a job nearer to its end, and anything else leaves it
/// where it is: a driver that answers each request is done after at most
/// seven answers.
pub proof fn lemma_answers_make_progress(
    job: Job,
    reply: Reply,
    instant: Option<Timestamp>,
)
    requires
        job.wf(),
    ensures
        answers(job.request(), reply) ==> answers_left(job.next(reply, instant).stage)
            < answers_left(job.stage),
        !answers(job.request(), reply) ==> job.next(reply, instant) == job,
        job.request() == Request::Nothing <==> job.outcome() is Some,
{
}

/// A plain touch of a path that the validator accepts, where nothing
/// exists yet and the driver succeeds in all it is asked: the job inspects
/// the target, reads the clock, has the file created, has both times set to
/// the time it read, and ends in success.
pub proof fn lemma_plain_touch_creates(
    job: Job,
    raw: Seq<char>,
    cwd: String,
    now: Timestamp,
    instant: Option<Timestamp>,
)
    requires
        job.stage == (Stage::Validating { raw }),
        path_rules(bytes_of(raw)) is Ok,
        job.settings.source is Now,
        !job.settings.no_create,
    ensures
        ({
            let inspecting = job.next(Reply::WorkingDirectory(cwd), instant);
            let reading = inspecting.next(Reply::Target(TargetState::Missing), instant);
            let creating = reading.next(Reply::Clock(now), instant);
            let setting = creating.next(Reply::Created(true), instant);
            let done = setting.next(Reply::TimesSet(true), instant);
            &&& inspecting.request() == Request::InspectTarget
            &&& inspecting.target() == Some(raw)
            &&& reading.request() == Request::ReadClock
            &&& creating.request() == Request::CreateFile
            &&& creating.target() == Some(raw)
            &&& setting.request() == Request::SetTimes(
                ResolvedTimes { access: now, modification: now },
            )
            &&& setting.target() == Some(raw)
            &&& done.outcome() == Some(Ok::<(), TouchError>(()))
        }),
{
    lemma_verdicts(bytes_of(raw), bytes_of(cwd@));
}

/// How far a job has come.
enum Phase {
    Validating { raw: String },
    Inspecting { path: SafePath },
    ValidatingReference { path: SafePath, current: Option<Existing> },
    ReadingReference { path: SafePath, current: Option<Existing>, reference: SafePath },
    ReadingClock { path: SafePath, current: Option<Existing> },
    ReadingYear { path: SafePath, current: Option<Existing> },
    Creating { path: SafePath, times: ResolvedTimes },
    SettingTimes { path: SafePath, times: ResolvedTimes },
    Finished(Result<(), TouchError>),
}

impl View for Phase {
    type V = Stage;

    closed spec fn view(&self) -> Stage {
        match self {
            Phase::Validating { raw } => Stage::Validating { raw: raw@ },
            Phase::Inspecting { path } => Stage::Inspecting { path: path.text() },
            Phase::ValidatingReference { path, current } => Stage::ValidatingReference {
                path: path.text(),
                current: *current,
            },
            Phase::ReadingReference { path, current, reference } => Stage::ReadingReference {
                path: path.text(),
                current: *current,
                reference: reference.text(),
            },
            Phase::ReadingClock { path, current } => Stage::ReadingClock {
                path: path.text(),
                current: *current,
            },
            Phase::ReadingYear { path, current } => Stage::ReadingYear {
                path: path.text(),
                current: *current,
            },
            Phase::Creating { path, times } => Stage::Creating { path: path.text(), times: *times },
            Phase::SettingTimes { path, times } => Stage::SettingTimes {
                path: path.text(),
                times: *times,
            },
            Phase::Finished(outcome) => Stage::Finished(*outcome),
        }
    }
}

/// The touching of one file, from the untrusted path to the outcome.
pub struct TouchJob {
    no_create: bool,
    spec: TimestampSpec,
    phase: Phase,
}

impl View for TouchJob {
    type V = Job;

    closed spec fn view(&self) -> Job {
        Job {
            settings: Settings {
                no_create: self.no_create,
                access_only: self.spec.access_only,
                modify_only: self.spec.modify_only,
                source: self.spec.source@,
            },
            stage: self.phase@,
        }
    }
}

/// The pair of times to write for a target time: see `resolved_times`.
pub fn set_file_times(
    current: Option<Existing>,
    time: Timestamp,
    access_only: bool,
    modify_only: bool,
) -> (times: ResolvedTimes)
    ensures
        times == resolved_times(current, time, access_only, modify_only),
{
    match current {
        Some(now) => {
            if access_only && !modify_only {
                ResolvedTimes { access: time, modification: now.modified }
            } else if modify_only && !access_only {
                ResolvedTimes { access: now.accessed, modification: time }
            } else {
                ResolvedTimes { access: time, modification: time }
            }
        },
        None => ResolvedTimes { access: time, modification: time },
    }
}

/// The target time that a reference file gives: its modification time, or
/// the refusal where that could not be read.
pub fn get_reference_time(found: Option<Timestamp>) -> (time: Result<Timestamp, TimeError>)
    ensures
        time == match found {
            Some(at) => Ok::<Timestamp, TimeError>(at),
            None => Err(TimeError::ReferenceFileUnreadable),
        },
{
    match found {
        Some(at) => Ok(at),
        None => Err(TimeError::ReferenceFileUnreadable),
    }
}

impl TimestampSpec {
    /// The time source that the options name: the reference file where one
    /// is given, else the timestamp where one is given, else the clock.
    pub open spec fn source_of(reference: Option<Seq<char>>, stamp: Option<Seq<char>>) -> Source {
        match (reference, stamp) {
            (Some(path), _) => Source::Reference(path),
            (None, Some(digits)) => Source::Explicit(digits),
            (None, None) => Source::Now,
        }
    }

    /// Decides the time source and the facets from the decoded options.
    pub fn from_options(
        reference_file: Option<&String>,
        time_stamp: Option<&String>,
        access_only: bool,
        modify_only: bool,
    ) -> (spec: TimestampSpec)
        ensures
            spec.access_only == access_only,
            spec.modify_only == modify_only,
            spec.source@ == Self::source_of(
                match reference_file {
                    Some(path) => Some(path@),
                    None => None,
                },
                match time_stamp {
                    Some(digits) => Some(digits@),
                    None => None,
                },
            ),
    {
        let source = match reference_file {
            Some(path) => TimeSource::FromReference(path.clone()),
            None => match time_stamp {
                Some(digits) => TimeSource::Explicit(digits.clone()),
                None => TimeSource::Now,
            },
        };
        TimestampSpec { source, access_only, modify_only }
    }
}

/// Starts the touching of one file. Nothing has been looked at yet: the job
/// first asks for the working directory, to validate the path against it.
pub fn validate_and_touch_file(
    file_path: &str,
    no_create: bool,
    access_only: bool,
    modify_only: bool,
    reference_file: Option<&String>,
    time_stamp: Option<&String>,
) -> (job: TouchJob)
    ensures
        job@.wf(),
        job@.stage == (Stage::Validating { raw: file_path@ }),
        job@.settings == (Settings {
            no_create,
            access_only,
            modify_only,
            source: TimestampSpec::source_of(
                match reference_file {
                    Some(path) => Some(path@),
                    None => None,
                },
                match time_stamp {
                    Some(digits) => Some(digits@),
                    None => None,
                },
            ),
        }),
{
    TouchJob {
        no_create,
        spec: TimestampSpec::from_options(reference_file, time_stamp, access_only, modify_only),
        phase: Phase::Validating { raw: file_path.to_owned() },
    }
}

impl TouchJob {
    #[verifier::type_invariant]
    spec fn sound(self) -> bool {
        self@.wf()
    }

    /// What the job needs from its driver next.
    pub fn request(&self) -> (request: Request)
        ensures
            request == self@.request(),
            self@.wf(),
    {
        proof {
            use_type_invariant(self);
        }
        match &self.phase {
            Phase::Validating { .. } => Request::WorkingDirectory,
            Phase::Inspecting { .. } => Request::InspectTarget,
            Phase::ValidatingReference { .. } => Request::WorkingDirectory,
            Phase::ReadingReference { .. } => Request::ReadReferenceTime,
            Phase::ReadingClock { .. } => Request::ReadClock,
            Phase::ReadingYear { .. } => Request::ReadLocalYear,
            Phase::Creating { .. } => Request::CreateFile,
            Phase::SettingTimes { times, .. } => Request::SetTimes(*times),
            Phase::Finished(_) => Request::Nothing,
        }
    }

    /// The accepted target path, while the job works on it.
    pub fn target(&self) -> (path: Option<&SafePath>)
        ensures
            match path {
                Some(path) => self@.target() == Some(path.text()),
                None => self@.target() is None,
            },
    {
        match &self.phase {
            Phase::Inspecting { path } => Some(path),
            Phase::ValidatingReference { path, .. } => Some(path),
            Phase::ReadingReference { path, .. } => Some(path),
            Phase::ReadingClock { path, .. } => Some(path),
            Phase::ReadingYear { path, .. } => Some(path),
            Phase::Creating { path, .. } => Some(path),
            Phase::SettingTimes { path, .. } => Some(path),
            _ => None,
        }
    }

    /// The accepted reference path, while the job waits for its time.
    pub fn reference(&self) -> (path: Option<&SafePath>)
        ensures
            match path {
                Some(path) => self@.reference() == Some(path.text()),
                None => self@.reference() is None,
            },
    {
        match &self.phase {
            Phase::ReadingReference { reference, .. } => Some(reference),
            _ => None,
        }
    }

    /// The outcome, once the job has finished.
    pub fn outcome(&self) -> (outcome: Option<Result<(), TouchError>>)
        ensures
            outcome == self@.outcome(),
    {
        match &self.phase {
            Phase::Finished(outcome) => Some(*outcome),
            _ => None,
        }
    }

    /// The date and time that the job, on this reply, asks the local time
    /// zone to place.
    fn asked(&self, reply: &Reply) -> (civil: Option<CivilTime>)
        ensures
            civil == self@.asked(*reply),
    {
        match (&self.phase, reply, &self.spec.source) {
            (Phase::Inspecting { .. }, Reply::Target(state), TimeSource::Explicit(stamp)) => {
                let touched = match state {
                    TargetState::Present(_) => true,
                    TargetState::Missing => !self.no_create,
                    _ => false,
                };
                if touched && !wants_year(stamp.as_str()) {
                    read_stamp(stamp.as_str(), 0).ok()
                } else {
                    None
                }
            },
            (Phase::ReadingYear { .. }, Reply::LocalYear(year), TimeSource::Explicit(stamp)) => {
                read_stamp(stamp.as_str(), *year).ok()
            },
            _ => None,
        }
    }

    /// Takes the driver's reply and decides how to go on, given what the
    /// local time zone makes of the date and time that the job asks it to
    /// place, where it asks.
    pub fn advance_given(self, reply: Reply, instant: Option<Timestamp>) -> (job:
        TouchJob)
        ensures
            job@ == self@.next(reply, instant),
            job@.wf(),
    {
        proof {
            use_type_invariant(&self);
            lemma_next_keeps_wf(self@, reply, instant);
        }
        let ghost before = self@;
        let TouchJob { no_create, spec, phase } = self;
        let phase = match (phase, reply) {
            (Phase::Validating { raw }, Reply::WorkingDirectory(cwd)) => {
                match validate_file_path(raw.as_str(), cwd.as_str()) {
                    Ok(path) => Phase::Inspecting { path },
                    Err(e) => Phase::Finished(Err(TouchError::Path(e))),
                }
            },
            (Phase::Inspecting { path }, Reply::Target(state)) => match state {
                TargetState::Symlink => Phase::Finished(
                    Err(TouchError::Path(PathError::SymlinkRefused)),
                ),
                TargetState::Unreadable => Phase::Finished(
                    Err(TouchError::Io(IoError::MetadataReadFailed)),
                ),
                TargetState::Missing => seek_time(no_create, &spec, path, None, instant),
                TargetState::Present(now) => seek_time(
                    no_create,
                    &spec,
                    path,
                    Some(now),
                    instant,
                ),
            },
            (Phase::ValidatingReference { path, current }, Reply::WorkingDirectory(cwd)) => {
                match &spec.source {
                    TimeSource::FromReference(raw) => {
                        match validate_file_path(raw.as_str(), cwd.as_str()) {
                            Ok(reference) => Phase::ReadingReference { path, current, reference },
                            Err(e) => Phase::Finished(Err(TouchError::Path(e))),
                        }
                    },
                    _ => Phase::ValidatingReference { path, current },
                }
            },
            (Phase::ReadingReference { path, current, reference }, Reply::ReferenceTime(found)) => {
                match get_reference_time(found) {
                    Ok(at) => plan(&spec, path, current, at),
                    Err(e) => Phase::Finished(Err(TouchError::Time(e))),
                }
            },
            (Phase::ReadingClock { path, current }, Reply::Clock(at)) => plan(
                &spec,
                path,
                current,
                at,
            ),
            (Phase::ReadingYear { path, current }, Reply::LocalYear(year)) => {
                match &spec.source {
                    TimeSource::Explicit(stamp) => {
                        let read = read_stamp(stamp.as_str(), year);
                        place(&spec, path, current, read, instant)
                    },
                    _ => Phase::ReadingYear { path, current },
                }
            },
            (Phase::Creating { path, times }, Reply::Created(done)) => {
                if done {
                    Phase::SettingTimes { path, times }
                } else {
                    Phase::Finished(Err(TouchError::Io(IoError::CreateFailed)))
                }
            },
            (Phase::SettingTimes { path, times }, Reply::TimesSet(done)) => {
                if done {
                    Phase::Finished(Ok(()))
                } else {
                    Phase::Finished(Err(TouchError::Io(IoError::SetTimesFailed)))
                }
            },
            (phase, _) => phase,
        };
        let job = TouchJob { no_create, spec, phase };
        assert(job@ == before.next(reply, instant));
        job
    }

    /// Takes the driver's reply and decides how to go on. Where the job has
    /// a date and time to place, it asks the local time zone of this
    /// machine itself: what comes back is an instant on a whole second, or
    /// nothing.
    pub fn advance(self, reply: Reply) -> (job: TouchJob)
        ensures
            job@.wf(),
            self@.asked(reply) is None ==> forall|instant: Option<Timestamp>|
                job@ == #[trigger] self@.next(reply, instant),
            self@.asked(reply) is Some ==> exists|instant: Option<Timestamp>|
                (instant matches Some(at) ==> at.nanos == 0) && job@ == #[trigger] self@.next(
                    reply,
                    instant,
                ),
    {
        let ghost before = self@;
        let instant = match self.asked(&reply) {
            Some(civil) => local_instant(civil),
            None => None,
        };
        let job = self.advance_given(reply, instant);
        proof {
            if before.asked(reply) is Some {
                assert(job@ == before.next(reply, instant));
            } else {
                assert forall|other: Option<Timestamp>|
                    job@ == #[trigger] before.next(reply, other) by {
                    lemma_zone_unused(before, reply, instant, other);
                }
            }
        }
        job
    }
}

/// Where a job goes once its target time is known: see `planned`.
fn plan(spec: &TimestampSpec, path: SafePath, current: Option<Existing>, at: Timestamp) -> (phase:
    Phase)
    ensures
        phase@ == planned(
            Settings {
                no_create: false,
                access_only: spec.access_only,
                modify_only: spec.modify_only,
                source: spec.source@,
            },
            path.text(),
            current,
            at,
        ),
{
    let times = set_file_times(current, at, spec.access_only, spec.modify_only);
    match current {
        None => Phase::Creating { path, times },
        Some(_) => Phase::SettingTimes { path, times },
    }
}

/// Where a job goes once its timestamp has been read: see `timed`.
fn place(
    spec: &TimestampSpec,
    path: SafePath,
    current: Option<Existing>,
    read: Result<CivilTime, TimeError>,
    instant: Option<Timestamp>,
) -> (phase: Phase)
    ensures
        phase@ == timed(
            Settings {
                no_create: false,
                access_only: spec.access_only,
                modify_only: spec.modify_only,
                source: spec.source@,
            },
            path.text(),
            current,
            read,
            instant,
        ),
{
    match read {
        Err(e) => Phase::Finished(Err(TouchError::Time(e))),
        Ok(_) => match single_instant(instant) {
            Ok(at) => plan(spec, path, current, at),
            Err(e) => Phase::Finished(Err(TouchError::Time(e))),
        },
    }
}

/// Where a job goes once the target is known to be absent or a plain file:
/// see `sourced`.
fn seek_time(
    no_create: bool,
    spec: &TimestampSpec,
    path: SafePath,
    current: Option<Existing>,
    instant: Option<Timestamp>,
) -> (phase: Phase)
    ensures
        phase@ == sourced(
            Settings {
                no_create,
                access_only: spec.access_only,
                modify_only: spec.modify_only,
                source: spec.source@,
            },
            path.text(),
            current,
            instant,
        ),
{
    if current.is_none() && no_create {
        return Phase::Finished(Ok(()));
    }
    match &spec.source {
        TimeSource::Now => Phase::ReadingClock { path, current },
        TimeSource::FromReference(_) => Phase::ValidatingReference { path, current },
        TimeSource::Explicit(stamp) => {
            if wants_year(stamp.as_str()) {
                Phase::ReadingYear { path, current }
            } else {
                let read = read_stamp(stamp.as_str(), 0);
                place(spec, path, current, read, instant)
            }
        },
    }
}

} // verus!
