//! What each call does to the running jobs, from what it is given to what it
//! answers.
use vstd::prelude::*;

use crate::model::{
    AppError, CrawlError, CrawlJob, CrawlJobId, Failure, NormalizedUrl, UserId,
};
use crate::running::{RunLease, RunTable, RunningJob, RunningJobs};
use crate::service::{cancel_job, delete_job, CancelOutcome};
use crate::start::{start_step, StartAction, StartPhase, StartReply, StartRun};

verus! {

/// At first no slot is held, no signal was made, and the first run is number
/// zero.
pub proof fn nothing_runs_at_first(r: RunningJobs)
    requires
        call_ensures(RunningJobs::default, (), r),
    ensures
        forall|job: Seq<char>| !#[trigger] r@.entries.contains_key(job),
        r@.next_run_id == 0,
        r@.made.len() == 0,
        r@.given.len() == 0,
        r@.is_sound(),
{
}

/// A run is known by its number.
pub proof fn run_is_known_by_its_number(run: &RunningJob, run_id: u64, r: bool)
    requires
        call_ensures(RunningJob::is_run, (run, run_id), r),
    ensures
        r <==> run.run_id == run_id,
{
}

/// Whether a job found its slot held: the answer names the job, and nothing is
/// used up but a number and a signal that nobody has.
pub open spec fn is_conflict(
    error: CrawlError,
    job: Seq<char>,
    before: RunTable,
    after: RunTable,
) -> bool {
    &&& error matches CrawlError::App(AppError::Conflict(text)) && text@ == "crawl job "@ + job
        + " is already running"@
    &&& after.entries == before.entries
    &&& after.next_run_id as int == (before.next_run_id + 1) % (u64::MAX + 1)
    &&& after.given == before.given
}

/// Whether a run took the job's slot: under the next number, with a signal that
/// was never made before, and with no change to any other slot.
pub open spec fn took_the_slot(
    lease: RunLease,
    job: Seq<char>,
    before: RunTable,
    after: RunTable,
) -> bool {
    &&& lease.job_id@ == job
    &&& lease.run_id == before.next_run_id
    &&& after.entries == before.entries.insert(
        job,
        RunningJob { run_id: lease.run_id, cancel: lease.cancel },
    )
    &&& after.next_run_id as int == (before.next_run_id + 1) % (u64::MAX + 1)
    &&& forall|i: int| 0 <= i < before.made.len() ==> #[trigger] before.made[i] != lease.cancel
    &&& after.made == before.made.push(lease.cancel)
    &&& after.given == before.given
}

/// A slot is given to the one who asks if and only if no run holds it.
pub proof fn slot_goes_to_one_run(
    running: &mut RunningJobs,
    job_id: &CrawlJobId,
    r: Result<RunLease, CrawlError>,
)
    requires
        call_ensures(RunningJobs::reserve, (running, job_id), r),
    ensures
        match r {
            Ok(lease) => !old(running)@.entries.contains_key(job_id.raw@) && took_the_slot(
                lease,
                job_id.raw@,
                old(running)@,
                final(running)@,
            ),
            Err(error) => old(running)@.entries.contains_key(job_id.raw@) && is_conflict(
                error,
                job_id.raw@,
                old(running)@,
                final(running)@,
            ),
        },
{
    if let Ok(lease) = r {
        assert forall|i: int| 0 <= i < old(running)@.made.len() implies #[trigger] old(
            running,
        )@.made[i] != lease.cancel by {
            assert(old(running)@.made.contains(old(running)@.made[i]));
        }
    }
}

/// Whether the slots are the same but for the job's, which is free now if the run
/// of that number held it.
pub open spec fn ended(job: Seq<char>, run_id: u64, before: RunTable, after: RunTable) -> bool {
    &&& after.entries == (if before.entries.contains_key(job) && before.entries[job].run_id
        == run_id {
        before.entries.remove(job)
    } else {
        before.entries
    })
    &&& after.next_run_id == before.next_run_id
    &&& after.made == before.made
    &&& after.given == before.given
}

/// The end of a run frees the slot of that very run, and signals nobody.
pub proof fn release_ends_its_own_run(running: &mut RunningJobs, lease: &RunLease, r: ())
    requires
        call_ensures(RunningJobs::release, (running, lease), r),
    ensures
        ended(lease.job_id@, lease.run_id, old(running)@, final(running)@),
{
}

/// Whether nothing changed but that the signal of the job's run was given, if it
/// has one.
pub open spec fn signalled(job: Seq<char>, before: RunTable, after: RunTable) -> bool {
    &&& after.next_run_id == before.next_run_id
    &&& after.made == before.made
    &&& after.given == (if before.entries.contains_key(job) {
        before.given.push(before.entries[job].cancel)
    } else {
        before.given
    })
}

/// Cancelling tells whether the job runs, signals its run and no other, and
/// leaves every slot as it is.
pub proof fn cancel_signals_the_run(running: &mut RunningJobs, job_id: &CrawlJobId, r: bool)
    requires
        call_ensures(RunningJobs::cancel, (running, job_id), r),
    ensures
        r <==> old(running)@.entries.contains_key(job_id.raw@),
        final(running)@.entries == old(running)@.entries,
        signalled(job_id.raw@, old(running)@, final(running)@),
{
}

/// Removing frees the job's slot and no other, and signals the run that held it.
pub proof fn removal_frees_the_slot_and_signals(
    running: &mut RunningJobs,
    job_id: &CrawlJobId,
    r: (),
)
    requires
        call_ensures(RunningJobs::remove_and_cancel, (running, job_id), r),
    ensures
        final(running)@.entries == old(running)@.entries.remove(job_id.raw@),
        signalled(job_id.raw@, old(running)@, final(running)@),
{
}

/// Whether a request was turned away as if there were no such job.
pub open spec fn not_there<T, E>(answer: Result<T, Failure<E>>, job_id: CrawlJobId) -> bool {
    answer matches Err(Failure::Refused(CrawlError::JobNotFound(text))) && text@ == job_id.raw@
}

/// Starting a job is for its owner, whatever else the job holds, and takes its
/// slot if it is free. Anybody else is answered as if there were no such job, and
/// nothing changes.
pub proof fn owner_starts_the_job<S, R, E>(
    running: &mut RunningJobs,
    user_id: &UserId,
    job_id: &CrawlJobId,
    lookup: Result<Option<CrawlJob<S, R>>, E>,
    r: Result<StartRun<S, R>, Failure<E>>,
)
    requires
        call_ensures(StartRun::<S, R>::begin::<E>, (running, user_id, job_id, lookup), r),
    ensures
        match lookup {
            Ok(Some(job)) => if job.user_id.raw@ == user_id.raw@ {
                match r {
                    Ok(run) => {
                        &&& run.job == job
                        &&& run.phase matches StartPhase::Seeding { next } && next == 0
                        &&& !old(running)@.entries.contains_key(job_id.raw@)
                        &&& took_the_slot(
                            run.lease,
                            job_id.raw@,
                            old(running)@,
                            final(running)@,
                        )
                    },
                    Err(Failure::Refused(error)) => {
                        &&& old(running)@.entries.contains_key(job_id.raw@)
                        &&& is_conflict(error, job_id.raw@, old(running)@, final(running)@)
                    },
                    Err(Failure::Passed(_)) => false,
                }
            } else {
                not_there(r, *job_id) && final(running)@ == old(running)@
            },
            Ok(None) => not_there(r, *job_id) && final(running)@ == old(running)@,
            Err(error) => r == Err::<StartRun<S, R>, Failure<E>>(Failure::Passed(error))
                && final(running)@ == old(running)@,
        },
{
    if let Ok(run) = r {
        assert forall|i: int| 0 <= i < old(running)@.made.len() implies #[trigger] old(
            running,
        )@.made[i] != run.lease.cancel by {
            assert(old(running)@.made.contains(old(running)@.made[i]));
        }
    }
}

/// A step of a start is one that [`start_step`] allows. Where it ends the start
/// with an error, the start's own run ends and its slot is free again; any other
/// step leaves the slots alone. No step signals a run.
pub proof fn step_leaves_the_slots_or_ends_its_run<
    S,
    R,
    P,
    E,
    M,
    N: Fn(&str) -> Result<NormalizedUrl, E>,
    C: Fn(&S, &Vec<String>) -> Result<M, E>,
>(
    run: StartRun<S, R>,
    running: &mut RunningJobs,
    reply: StartReply<S, R, P, E>,
    normalize: N,
    compile_scope: C,
    r: (StartRun<S, R>, StartAction<S, R, P, E, M>),
)
    requires
        call_ensures(
            StartRun::<S, R>::step::<P, E, M, N, C>,
            (run, running, reply, normalize, compile_scope),
            r,
        ),
    ensures
        start_step::<S, R, P, E, M, N, C>(normalize, compile_scope, run, reply, r.0, r.1),
        r.1 is Abort ==> ended(
            run.lease.job_id@,
            run.lease.run_id,
            old(running)@,
            final(running)@,
        ),
        !(r.1 is Abort) ==> final(running)@ == old(running)@,
{
}

/// Cancelling a job is for its owner, whatever state the job is in: its run is
/// signalled if it has one, and else it is parked as cancelled. Anybody else is
/// answered as if there were no such job, and nothing changes.
pub proof fn owner_cancels_the_job<S, R, E>(
    running: &mut RunningJobs,
    user_id: &UserId,
    job_id: &CrawlJobId,
    lookup: Result<Option<CrawlJob<S, R>>, E>,
    r: Result<CancelOutcome, Failure<E>>,
)
    requires
        call_ensures(cancel_job::<S, R, E>, (running, user_id, job_id, lookup), r),
    ensures
        final(running)@.entries == old(running)@.entries,
        match lookup {
            Ok(Some(job)) => if job.user_id.raw@ == user_id.raw@ {
                &&& signalled(job_id.raw@, old(running)@, final(running)@)
                &&& match r {
                    Ok(CancelOutcome::Signalled) => old(running)@.entries.contains_key(
                        job_id.raw@,
                    ),
                    Ok(CancelOutcome::Park(status)) => status is Cancelled && !old(
                        running,
                    )@.entries.contains_key(job_id.raw@),
                    Err(_) => false,
                }
            } else {
                not_there(r, *job_id) && final(running)@ == old(running)@
            },
            Ok(None) => not_there(r, *job_id) && final(running)@ == old(running)@,
            Err(error) => r == Err::<CancelOutcome, Failure<E>>(Failure::Passed(error))
                && final(running)@ == old(running)@,
        },
{
}

/// Deleting a job is for its owner, whatever state the job is in: its slot is
/// freed, and its run is signalled if it has one. Anybody else is answered as if
/// there were no such job, and nothing changes.
pub proof fn owner_deletes_the_job<S, R, E>(
    running: &mut RunningJobs,
    user_id: &UserId,
    job_id: &CrawlJobId,
    lookup: Result<Option<CrawlJob<S, R>>, E>,
    r: Result<(), Failure<E>>,
)
    requires
        call_ensures(delete_job::<S, R, E>, (running, user_id, job_id, lookup), r),
    ensures
        match lookup {
            Ok(Some(job)) => if job.user_id.raw@ == user_id.raw@ {
                &&& r is Ok
                &&& final(running)@.entries == old(running)@.entries.remove(job_id.raw@)
                &&& signalled(job_id.raw@, old(running)@, final(running)@)
            } else {
                not_there(r, *job_id) && final(running)@ == old(running)@
            },
            Ok(None) => not_there(r, *job_id) && final(running)@ == old(running)@,
            Err(error) => r == Err::<(), Failure<E>>(Failure::Passed(error)) && final(running)@
                == old(running)@,
        },
{
}

} // verus!
