//! What holds of the slots, whatever calls are made on them.
use tokio_util::sync::CancellationToken;
use vstd::prelude::*;

use crate::running::{already_running, RunTable, RunningJob};

verus! {

/// One call on the slots.
pub enum RunOp {
    Reserve { job: Seq<char>, cancel: CancellationToken },
    Release { job: Seq<char>, run_id: u64 },
    Cancel { job: Seq<char> },
    Remove { job: Seq<char> },
}

impl RunTable {
    /// The slots after one call.
    pub open spec fn step(self, op: RunOp) -> RunTable {
        match op {
            RunOp::Reserve { job, cancel } => self.reserve(job, cancel),
            RunOp::Release { job, run_id } => self.release(job, run_id),
            RunOp::Cancel { job } => self.cancel(job),
            RunOp::Remove { job } => self.remove(job),
        }
    }

    /// The slots after a sequence of calls.
    pub open spec fn after(self, ops: Seq<RunOp>) -> RunTable
        decreases ops.len(),
    {
        if ops.len() == 0 {
            self
        } else {
            self.after(ops.drop_last()).step(ops.last())
        }
    }
}

proof fn push_adds_one(signals: Seq<CancellationToken>, cancel: CancellationToken)
    ensures
        forall|other: CancellationToken| #[trigger]
            signals.push(cancel).contains(other) <==> other == cancel || signals.contains(other),
{
    broadcast use vstd::seq_lib::group_seq_properties;

}

/// A request for a slot, slot by slot: where no run holds the job's slot, a run
/// takes it, with the next number and the signal; every other slot stays as it
/// is. A slot that is held stays with its run. The number is used up either way,
/// the signal counts as made, and none is given.
pub proof fn reserve_slot_by_slot(table: RunTable, job: Seq<char>, cancel: CancellationToken)
    ensures
        table.holds(job) <==> table.entries.contains_key(job),
        ({
            let next = table.reserve(job, cancel);
            &&& next.entries.contains_key(job)
            &&& next.entries[job] == (if table.entries.contains_key(job) {
                table.entries[job]
            } else {
                RunningJob { run_id: table.next_run_id, cancel }
            })
            &&& forall|other: Seq<char>|
                #![trigger next.entries.contains_key(other)]
                other != job ==> next.entries.contains_key(other) == table.entries.contains_key(
                    other,
                ) && next.entries[other] == table.entries[other]
            &&& next.next_run_id as int == (table.next_run_id + 1) % (u64::MAX + 1)
            &&& next.made == table.made.push(cancel)
            &&& next.given == table.given
        }),
        table.is_new(cancel) <==> forall|i: int|
            0 <= i < table.made.len() ==> #[trigger] table.made[i] != cancel,
{
}

/// The other calls, slot by slot. The end of a run frees the job's slot if the
/// run of that number holds it, and gives no signal. Cancelling frees no slot and
/// gives the signal of the job's run. Removing frees the job's slot and gives the
/// signal of the run that held it. No other slot changes, and no number is used
/// up.
pub proof fn other_calls_slot_by_slot(
    table: RunTable,
    job: Seq<char>,
    run_id: u64,
    other: Seq<char>,
)
    ensures
        ({
            let held = table.entries.contains_key(job);
            let ended = table.release(job, run_id);
            let cancelled = table.cancel(job);
            let removed = table.remove(job);
            &&& ended.entries.contains_key(job) <==> held && table.entries[job].run_id != run_id
            &&& !removed.entries.contains_key(job)
            &&& cancelled.entries == table.entries
            &&& other != job || !(held && table.entries[job].run_id == run_id)
                ==> ended.entries.contains_key(other) == table.entries.contains_key(other)
                && ended.entries[other] == table.entries[other]
            &&& other != job ==> removed.entries.contains_key(other)
                == table.entries.contains_key(other) && removed.entries[other]
                == table.entries[other]
            &&& ended.next_run_id == table.next_run_id
            &&& cancelled.next_run_id == table.next_run_id
            &&& removed.next_run_id == table.next_run_id
            &&& ended.made == table.made
            &&& cancelled.made == table.made
            &&& removed.made == table.made
            &&& ended.given == table.given
            &&& held ==> cancelled.given == table.given.push(table.entries[job].cancel)
            &&& !held ==> cancelled.given == table.given
            &&& removed.given == cancelled.given
        }),
{
}

/// A request for a slot that is held is answered with the job's id.
pub proof fn conflict_names_the_running_job(job: Seq<char>)
    ensures
        already_running(job) == "crawl job "@ + job + " is already running"@,
{
}

/// Whether the call can be made on the slots: a request for a slot comes with a
/// new signal.
pub open spec fn can_follow(table: RunTable, op: RunOp) -> bool {
    op matches RunOp::Reserve { cancel, .. } ==> table.is_new(cancel)
}

/// Every call leaves each run with a signal of its own.
pub proof fn soundness_is_kept(table: RunTable, op: RunOp)
    requires
        table.is_sound(),
        can_follow(table, op),
    ensures
        table.step(op).is_sound(),
{
    let next = table.step(op);
    match op {
        RunOp::Reserve { job, cancel } => {
            push_adds_one(table.made, cancel);
            assert forall|a: Seq<char>| #[trigger] next.holds(a) implies next.made.contains(
                next.entries[a].cancel,
            ) by {
                assert(table.holds(a) || a == job);
            }
            assert forall|a: Seq<char>, b: Seq<char>| #[trigger]
                next.holds(a) && #[trigger] next.holds(b) && a
                    != b implies next.entries[a].cancel != next.entries[b].cancel by {
                assert(table.holds(a) || a == job);
                assert(table.holds(b) || b == job);
            }
        },
        _ => {
            assert forall|a: Seq<char>| #[trigger] next.holds(a) implies table.holds(a)
                && next.entries[a] == table.entries[a] by {}
            if next.given != table.given {
                push_adds_one(table.given, next.given.last());
            }
        },
    }
}

/// Whether the calls can be made on the slots, one behind the other.
pub open spec fn are_calls(table: RunTable, ops: Seq<RunOp>) -> bool
    decreases ops.len(),
{
    ops.len() > 0 ==> {
        &&& are_calls(table, ops.drop_last())
        &&& can_follow(table.after(ops.drop_last()), ops.last())
    }
}

/// Whatever calls are made, each run has a signal of its own.
pub proof fn calls_keep_signals_apart(table: RunTable, ops: Seq<RunOp>)
    requires
        table.is_sound(),
        are_calls(table, ops),
    ensures
        table.after(ops).is_sound(),
    decreases ops.len(),
{
    if ops.len() > 0 {
        calls_keep_signals_apart(table, ops.drop_last());
        soundness_is_kept(table.after(ops.drop_last()), ops.last());
    }
}

proof fn signals_are_remembered(table: RunTable, ops: Seq<RunOp>)
    ensures
        forall|cancel: CancellationToken| #[trigger]
            table.made.contains(cancel) ==> table.after(ops).made.contains(cancel),
        forall|cancel: CancellationToken| #[trigger]
            table.given.contains(cancel) ==> table.after(ops).given.contains(cancel),
    decreases ops.len(),
{
    if ops.len() > 0 {
        let front = table.after(ops.drop_last());
        let next = table.after(ops);
        signals_are_remembered(table, ops.drop_last());
        assert forall|cancel: CancellationToken| #[trigger]
            table.made.contains(cancel) implies next.made.contains(cancel) by {
            push_adds_one(front.made, next.made.last());
        }
        assert forall|cancel: CancellationToken| #[trigger]
            table.given.contains(cancel) implies next.given.contains(cancel) by {
            push_adds_one(front.given, next.given.last());
        }
    }
}

/// A new signal is not the signal of any run, and has not been given.
pub proof fn new_signal_is_nobodys(table: RunTable, cancel: CancellationToken)
    requires
        table.is_sound(),
        table.is_new(cancel),
    ensures
        forall|job: Seq<char>| #[trigger]
            table.holds(job) ==> table.entries[job].cancel != cancel,
        !table.given.contains(cancel),
{
}

/// Two runs never share a signal, whether they are runs of one job or of two,
/// and whatever calls lie between them: not even a run that has ended, or that
/// was removed, leaves its signal to another.
pub proof fn two_runs_have_two_signals(
    before: RunTable,
    job: Seq<char>,
    first: CancellationToken,
    between: Seq<RunOp>,
    second: CancellationToken,
)
    requires
        before.reserve(job, first).after(between).is_new(second),
    ensures
        first != second,
{
    push_adds_one(before.made, first);
    assert(before.reserve(job, first).made.contains(first));
    signals_are_remembered(before.reserve(job, first), between);
}

/// Once a signal is given it stays given, whatever calls follow.
pub proof fn given_signal_stays_given(
    table: RunTable,
    cancel: CancellationToken,
    ops: Seq<RunOp>,
)
    requires
        table.given.contains(cancel),
    ensures
        table.after(ops).given.contains(cancel),
{
    signals_are_remembered(table, ops);
}

/// Asking for a slot and ending a run give no signal. Cancelling or removing a
/// job gives exactly one, that of the job's run, and none where the job does not
/// run.
pub proof fn only_stopping_a_job_gives_a_signal(table: RunTable, op: RunOp)
    ensures
        match op {
            RunOp::Reserve { .. } => table.step(op).given == table.given,
            RunOp::Release { .. } => table.step(op).given == table.given,
            RunOp::Cancel { job } | RunOp::Remove { job } => if table.holds(job) {
                table.step(op).given == table.given.push(table.entries[job].cancel)
            } else {
                table.step(op).given == table.given
            },
        },
{
}

/// Cancelling or removing a job does not signal the run of another.
pub proof fn stopping_a_job_spares_the_others(
    table: RunTable,
    job: Seq<char>,
    other: Seq<char>,
)
    requires
        table.is_sound(),
        table.holds(other),
        job != other,
    ensures
        table.cancel(job).given.contains(table.entries[other].cancel) == table.given.contains(
            table.entries[other].cancel,
        ),
        table.remove(job).given == table.cancel(job).given,
{
    push_adds_one(table.given, table.entries[job].cancel);
}

/// Whether the call tells the job's run to stop.
pub open spec fn stops(op: RunOp, job: Seq<char>) -> bool {
    ||| op == RunOp::Cancel { job }
    ||| op == RunOp::Remove { job }
}

/// A run starts with a signal that has not been given, and nothing but a call
/// that cancels or removes its job gives it: no call on another job, no request
/// for a slot, and no end of a run, however often and in whatever order.
pub proof fn signal_is_given_by_stopping_its_job(
    before: RunTable,
    job: Seq<char>,
    cancel: CancellationToken,
    ops: Seq<RunOp>,
)
    requires
        before.is_sound(),
        !before.holds(job),
        before.is_new(cancel),
        are_calls(before.reserve(job, cancel), ops),
        forall|i: int| 0 <= i < ops.len() ==> !stops(#[trigger] ops[i], job),
    ensures
        !before.reserve(job, cancel).after(ops).given.contains(cancel),
{
    signal_stays_with_its_job(before, job, cancel, ops);
}

proof fn signal_stays_with_its_job(
    before: RunTable,
    job: Seq<char>,
    cancel: CancellationToken,
    ops: Seq<RunOp>,
)
    requires
        before.is_sound(),
        !before.holds(job),
        before.is_new(cancel),
        are_calls(before.reserve(job, cancel), ops),
        forall|i: int| 0 <= i < ops.len() ==> !stops(#[trigger] ops[i], job),
    ensures
        ({
            let table = before.reserve(job, cancel).after(ops);
            &&& !table.given.contains(cancel)
            &&& table.made.contains(cancel)
            &&& forall|other: Seq<char>| #[trigger]
                table.holds(other) && other != job ==> table.entries[other].cancel != cancel
        }),
    decreases ops.len(),
{
    let start = before.reserve(job, cancel);
    push_adds_one(before.made, cancel);
    if ops.len() == 0 {
        assert forall|other: Seq<char>| #[trigger]
            start.holds(other) && other != job implies start.entries[other].cancel != cancel by {
            assert(before.holds(other));
        }
    } else {
        let front = ops.drop_last();
        let table = start.after(front);
        let next = start.after(ops);
        assert forall|i: int| 0 <= i < front.len() implies !stops(#[trigger] front[i], job) by {
            assert(front[i] == ops[i]);
        }
        signal_stays_with_its_job(before, job, cancel, front);
        assert(!stops(ops[ops.len() - 1], job));
        push_adds_one(table.made, next.made.last());
        push_adds_one(table.given, next.given.last());
        assert forall|other: Seq<char>| #[trigger]
            next.holds(other) && other != job implies next.entries[other].cancel != cancel by {
            assert(can_follow(table, ops.last()));
            if table.holds(other) {
                assert(next.entries[other] == table.entries[other]);
            }
        }
    }
}

/// A job that was removed and starts again gets a signal that has not been
/// given and that is not the one that stopped the run before.
pub proof fn restarted_job_is_not_stopped(
    table: RunTable,
    job: Seq<char>,
    cancel: CancellationToken,
)
    requires
        table.is_sound(),
        table.holds(job),
        table.remove(job).is_new(cancel),
    ensures
        table.remove(job).reserve(job, cancel).holds(job),
        table.remove(job).reserve(job, cancel).entries[job].cancel == cancel,
        table.remove(job).given.contains(table.entries[job].cancel),
        !table.remove(job).reserve(job, cancel).given.contains(cancel),
        cancel != table.entries[job].cancel,
{
    push_adds_one(table.given, table.entries[job].cancel);
}

/// The end of a run frees its job's slot if that very run holds it, and changes
/// nothing else: no other job's slot, no number, no signal. Reported twice, it
/// changes nothing the second time.
pub proof fn release_changes_one_slot_at_most(table: RunTable, job: Seq<char>, run_id: u64)
    ensures
        table.release(job, run_id).entries == (if table.holds(job) && table.entries[job].run_id
            == run_id {
            table.entries.remove(job)
        } else {
            table.entries
        }),
        table.release(job, run_id).next_run_id == table.next_run_id,
        table.release(job, run_id).made == table.made,
        table.release(job, run_id).given == table.given,
        table.release(job, run_id).release(job, run_id) == table.release(job, run_id),
{
}

/// How many of the calls ask for a slot.
pub open spec fn reservations(ops: Seq<RunOp>) -> nat
    decreases ops.len(),
{
    if ops.len() == 0 {
        0
    } else {
        reservations(ops.drop_last()) + if ops.last() is Reserve {
            1nat
        } else {
            0nat
        }
    }
}

/// Whether the call can end the given run of the job.
pub open spec fn ends_run(op: RunOp, job: Seq<char>, run_id: u64) -> bool {
    ||| op == RunOp::Remove { job }
    ||| op == RunOp::Release { job, run_id }
}

/// A run that has ended makes its job startable again, and leaves every slot as
/// it was before the run.
pub proof fn released_job_can_start_again(
    before: RunTable,
    job: Seq<char>,
    cancel: CancellationToken,
)
    requires
        !before.holds(job),
    ensures
        before.reserve(job, cancel).release(job, before.next_run_id).entries == before.entries,
        !before.reserve(job, cancel).release(job, before.next_run_id).holds(job),
{
    assert(before.entries.insert(
        job,
        RunningJob { run_id: before.next_run_id, cancel },
    ).remove(job) =~= before.entries);
}

/// A run keeps its job's slot through any calls, as long as none of them ends
/// that run. Requests to start the job and to cancel it are among the calls that
/// do not: the former are refused, the latter only signal.
pub proof fn run_keeps_slot(table: RunTable, job: Seq<char>, ops: Seq<RunOp>)
    requires
        table.holds(job),
        forall|i: int|
            0 <= i < ops.len() ==> !ends_run(#[trigger] ops[i], job, table.entries[job].run_id),
    ensures
        table.after(ops).holds(job),
        table.after(ops).entries[job] == table.entries[job],
    decreases ops.len(),
{
    if ops.len() > 0 {
        let front = ops.drop_last();
        assert forall|i: int| 0 <= i < front.len() implies !ends_run(
            #[trigger] front[i],
            job,
            table.entries[job].run_id,
        ) by {
            assert(front[i] == ops[i]);
        }
        run_keeps_slot(table, job, front);
        assert(!ends_run(ops[ops.len() - 1], job, table.entries[job].run_id));
    }
}

/// As long as a run has not ended, cancelling its job gives the very signal that
/// the run's lease carries.
pub proof fn cancel_reaches_the_lease(
    before: RunTable,
    job: Seq<char>,
    cancel: CancellationToken,
    between: Seq<RunOp>,
)
    requires
        !before.holds(job),
        forall|i: int|
            0 <= i < between.len() ==> !ends_run(#[trigger] between[i], job, before.next_run_id),
    ensures
        before.reserve(job, cancel).after(between).holds(job),
        before.reserve(job, cancel).after(between).entries[job].cancel == cancel,
        before.reserve(job, cancel).after(between).cancel(job).given
            == before.reserve(job, cancel).after(between).given.push(cancel),
{
    run_keeps_slot(before.reserve(job, cancel), job, between);
}

/// Whatever else happened meanwhile, the end of a run frees its job's slot, so
/// that the job can start again. A start that fails ends its run like any other.
pub proof fn ended_run_frees_slot(
    before: RunTable,
    job: Seq<char>,
    cancel: CancellationToken,
    between: Seq<RunOp>,
)
    requires
        !before.holds(job),
        forall|i: int|
            0 <= i < between.len() ==> !ends_run(#[trigger] between[i], job, before.next_run_id),
    ensures
        !before.reserve(job, cancel).after(between).release(job, before.next_run_id).holds(job),
{
    run_keeps_slot(before.reserve(job, cancel), job, between);
}

/// Of any number of requests to start a job that is not running, in a row and
/// mixed with requests on other jobs, exactly the first gets the slot: once it
/// has it, the slot is held and stays with that run.
pub proof fn one_reservation_wins(
    before: RunTable,
    job: Seq<char>,
    cancel: CancellationToken,
    others: Seq<RunOp>,
)
    requires
        !before.holds(job),
        forall|i: int| 0 <= i < others.len() ==> (#[trigger] others[i]) is Reserve,
    ensures
        before.reserve(job, cancel).after(others).holds(job),
        before.reserve(job, cancel).after(others).entries[job] == (RunningJob {
            run_id: before.next_run_id,
            cancel,
        }),
{
    run_keeps_slot(before.reserve(job, cancel), job, others);
}

proof fn run_numbers_advance(table: RunTable, ops: Seq<RunOp>)
    ensures
        table.after(ops).next_run_id == (table.next_run_id + reservations(ops)) % (u64::MAX + 1),
    decreases ops.len(),
{
    if ops.len() > 0 {
        run_numbers_advance(table, ops.drop_last());
    }
}

/// Whether a run that starts behind the calls gets the number of the run that
/// started before them: numbers repeat after `u64::MAX + 1` reservations.
pub open spec fn numbers_meet(between: Seq<RunOp>) -> bool {
    (reservations(between) as int + 1) % (u64::MAX + 1) == 0
}

/// Two runs have two numbers, whatever calls lie between them, unless so many
/// reservations lie between that the numbers have come round.
pub proof fn two_runs_have_two_numbers(
    before: RunTable,
    job: Seq<char>,
    first: CancellationToken,
    between: Seq<RunOp>,
)
    ensures
        before.reserve(job, first).after(between).next_run_id == before.next_run_id
            <==> numbers_meet(between),
        reservations(between) < u64::MAX ==> !numbers_meet(between),
{
    run_numbers_advance(before.reserve(job, first), between);
}

/// The end of an old run, however late it is reported, does not free the slot
/// that a newer run of the same job has taken, unless the two runs have the same
/// number.
pub proof fn late_release_spares_newer_run(
    before: RunTable,
    job: Seq<char>,
    first: CancellationToken,
    between: Seq<RunOp>,
    second: CancellationToken,
)
    requires
        !before.holds(job),
        !before.reserve(job, first).after(between).holds(job),
        !numbers_meet(between),
    ensures
        ({
            let newer = before.reserve(job, first).after(between).reserve(job, second);
            newer.release(job, before.next_run_id) == newer
        }),
{
    two_runs_have_two_numbers(before, job, first, between);
}

/// A call on one job leaves every other job's slot as it is.
pub proof fn other_jobs_are_untouched(table: RunTable, op: RunOp, other: Seq<char>)
    requires
        match op {
            RunOp::Reserve { job, .. } => job != other,
            RunOp::Release { job, .. } => job != other,
            RunOp::Cancel { job } => job != other,
            RunOp::Remove { job } => job != other,
        },
    ensures
        table.step(op).holds(other) == table.holds(other),
        table.holds(other) ==> table.step(op).entries[other] == table.entries[other],
{
}

} // verus!
