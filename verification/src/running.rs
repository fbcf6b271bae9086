//! The runs that are under way: at most one per job.
use dashmap::mapref::entry::Entry;
use dashmap::DashMap;
use tokio_util::sync::CancellationToken;
use vstd::prelude::*;

use crate::model::{AppError, CrawlError, CrawlJobId};
use crate::running_laws::{soundness_is_kept, RunOp};
use crate::text::joined;
use crate::token::{give_signal, new_signal, SignalLog};

verus! {

/// The concurrent map that holds the runs.
#[verifier::external_type_specification]
#[verifier::external_body]
#[verifier::reject_recursive_types(K)]
#[verifier::reject_recursive_types(V)]
#[verifier::reject_recursive_types(S)]
pub struct ExDashMap<K, V, S>(DashMap<K, V, S>);

/// A run that holds a job's slot.
#[derive(Debug)]
pub struct RunningJob {
    pub run_id: u64,
    pub cancel: CancellationToken,
}

impl RunningJob {
    /// Whether this is the run of that number.
    pub fn is_run(&self, run_id: u64) -> (r: bool)
        ensures
            r == (self.run_id == run_id),
    {
        self.run_id == run_id
    }
}

/// Handed to whoever starts a run: names the run and carries its signal.
#[derive(Debug)]
pub struct RunLease {
    pub job_id: String,
    pub run_id: u64,
    pub cancel: CancellationToken,
}

/// The slots as a mathematical value: the run that holds each job's slot, the
/// number of the next run, the signals that were made for runs, and the signals
/// that were given, in order.
#[verifier::ext_equal]
pub struct RunTable {
    pub entries: Map<Seq<char>, RunningJob>,
    pub next_run_id: u64,
    pub made: Seq<CancellationToken>,
    pub given: Seq<CancellationToken>,
}

/// No slot is held.
pub open spec fn no_runs() -> Map<Seq<char>, RunningJob> {
    Map::empty()
}

/// The number that follows; after the last one, zero.
pub open spec fn following(run_id: u64) -> u64 {
    if run_id == u64::MAX {
        0
    } else {
        (run_id + 1) as u64
    }
}

impl RunTable {
    pub open spec fn holds(self, job: Seq<char>) -> bool {
        self.entries.contains_key(job)
    }

    /// Whether no run has or had this signal.
    pub open spec fn is_new(self, cancel: CancellationToken) -> bool {
        !self.made.contains(cancel)
    }

    /// What every call keeps: each run has a signal of its own, one of those that
    /// were made, and nothing but signals that were made was given.
    pub open spec fn is_sound(self) -> bool {
        &&& forall|job: Seq<char>| #[trigger]
            self.holds(job) ==> self.made.contains(self.entries[job].cancel)
        &&& forall|job: Seq<char>, other: Seq<char>| #[trigger]
            self.holds(job) && #[trigger] self.holds(other) && job != other
                ==> self.entries[job].cancel != self.entries[other].cancel
        &&& forall|cancel: CancellationToken| #[trigger]
            self.given.contains(cancel) ==> self.made.contains(cancel)
    }

    /// A request for the job's slot. It always uses up a number and a signal;
    /// where the slot is free, the run of that number and signal takes it.
    pub open spec fn reserve(self, job: Seq<char>, cancel: CancellationToken) -> RunTable {
        RunTable {
            entries: if self.holds(job) {
                self.entries
            } else {
                self.entries.insert(job, RunningJob { run_id: self.next_run_id, cancel })
            },
            next_run_id: following(self.next_run_id),
            made: self.made.push(cancel),
            given: self.given,
        }
    }

    /// The end of a run: frees the job's slot if that very run holds it.
    pub open spec fn release(self, job: Seq<char>, run_id: u64) -> RunTable {
        if self.holds(job) && self.entries[job].run_id == run_id {
            RunTable { entries: self.entries.remove(job), ..self }
        } else {
            self
        }
    }

    /// Gives the signal of the job's run, if there is one.
    pub open spec fn cancel(self, job: Seq<char>) -> RunTable {
        if self.holds(job) {
            RunTable { given: self.given.push(self.entries[job].cancel), ..self }
        } else {
            self
        }
    }

    /// Frees the job's slot, whoever holds it, and gives that run's signal.
    pub open spec fn remove(self, job: Seq<char>) -> RunTable {
        RunTable { entries: self.entries.remove(job), ..self.cancel(job) }
    }
}

/// What a request for a slot that is held is answered.
pub open spec fn already_running(job: Seq<char>) -> Seq<char> {
    "crawl job "@ + job + " is already running"@
}

/// What the map holds: under each job's id, the run that holds its slot.
pub uninterp spec fn running_entries(map: DashMap<String, RunningJob>) -> Map<Seq<char>, RunningJob>;

/// `DashMap::default`: a map that holds nothing.
#[verifier::external_body]
fn empty_map() -> (map: DashMap<String, RunningJob>)
    ensures
        running_entries(map) == no_runs(),
{
    DashMap::default()
}

/// `DashMap::entry`: the run is put under the key where the key is vacant; an
/// occupied key keeps what it holds. Tells whether the run went in.
#[verifier::external_body]
fn insert_if_vacant(map: &mut DashMap<String, RunningJob>, key: String, run: RunningJob) -> (went_in:
    bool)
    ensures
        went_in == !running_entries(*old(map)).contains_key(key@),
        went_in ==> running_entries(*final(map)) == running_entries(*old(map)).insert(key@, run),
        !went_in ==> running_entries(*final(map)) == running_entries(*old(map)),
{
    match map.entry(key) {
        Entry::Vacant(entry) => {
            entry.insert(run);
            true
        },
        Entry::Occupied(_) => false,
    }
}

/// `DashMap::remove_if`: what the key holds goes if it is the run of that
/// number; otherwise the map stays as it is.
#[verifier::external_body]
fn remove_run(map: &mut DashMap<String, RunningJob>, key: &str, run_id: u64)
    ensures
        running_entries(*final(map)) == (if running_entries(*old(map)).contains_key(key@)
            && running_entries(*old(map))[key@].run_id == run_id {
            running_entries(*old(map)).remove(key@)
        } else {
            running_entries(*old(map))
        }),
{
    map.remove_if(key, |_, run| run.is_run(run_id));
}

/// `DashMap::get`: a handle of the signal of the run that the key holds, if it
/// holds one.
#[verifier::external_body]
fn signal_of(map: &DashMap<String, RunningJob>, key: &str) -> (r: Option<CancellationToken>)
    ensures
        r == (if running_entries(*map).contains_key(key@) {
            Some(running_entries(*map)[key@].cancel)
        } else {
            None
        }),
{
    map.get(key).map(|run| run.cancel.clone())
}

/// `DashMap::remove`: what the key holds goes, and comes back.
#[verifier::external_body]
fn take_run(map: &mut DashMap<String, RunningJob>, key: &str) -> (r: Option<RunningJob>)
    ensures
        running_entries(*final(map)) == running_entries(*old(map)).remove(key@),
        r == (if running_entries(*old(map)).contains_key(key@) {
            Some(running_entries(*old(map))[key@])
        } else {
            None
        }),
{
    map.remove(key).map(|entry| entry.1)
}

/// Which job is being run, and by which run.
pub struct RunningJobs {
    entries: DashMap<String, RunningJob>,
    next_run_id: u64,
    signals: SignalLog,
}

impl View for RunningJobs {
    type V = RunTable;

    closed spec fn view(&self) -> RunTable {
        RunTable {
            entries: running_entries(self.entries),
            next_run_id: self.next_run_id,
            made: self.signals.made(),
            given: self.signals.given(),
        }
    }
}

impl Default for RunningJobs {
    fn default() -> (r: Self)
        ensures
            r@.is_sound(),
            r@ == (RunTable {
                entries: no_runs(),
                next_run_id: 0,
                made: Seq::empty(),
                given: Seq::empty(),
            }),
    {
        RunningJobs { entries: empty_map(), next_run_id: 0, signals: SignalLog::empty() }
    }
}

impl RunningJobs {
    /// Takes the job's slot for a new run with a signal of its own; refused while
    /// another run holds the slot.
    pub fn reserve(&mut self, job_id: &CrawlJobId) -> (r: Result<RunLease, CrawlError>)
        requires
            old(self)@.is_sound(),
        ensures
            final(self)@.is_sound(),
            r is Ok <==> !old(self)@.holds(job_id@),
            r matches Ok(lease) ==> {
                &&& lease.job_id@ == job_id@
                &&& lease.run_id == old(self)@.next_run_id
                &&& old(self)@.is_new(lease.cancel)
                &&& final(self)@ == old(self)@.reserve(job_id@, lease.cancel)
            },
            r matches Err(error) ==> {
                &&& error matches CrawlError::App(AppError::Conflict(text)) && text@
                    == already_running(job_id@)
                &&& old(self)@.is_new(final(self)@.made.last())
                &&& final(self)@ == old(self)@.reserve(job_id@, final(self)@.made.last())
            },
    {
        let key = job_id.as_str().to_string();
        let run_id = self.next_run_id;
        self.next_run_id = run_id.wrapping_add(1);
        let cancel = new_signal(&mut self.signals);
        proof {
            soundness_is_kept(old(self)@, RunOp::Reserve { job: job_id@, cancel });
        }
        let run = RunningJob { run_id, cancel: cancel.clone() };
        if insert_if_vacant(&mut self.entries, key.clone(), run) {
            Ok(RunLease { job_id: key, run_id, cancel })
        } else {
            let mut text = joined("crawl job ", job_id.as_str());
            text.append(" is already running");
            Err(CrawlError::App(AppError::Conflict(text)))
        }
    }

    /// Frees the slot that the lease stands for. A slot that a later run of the
    /// same job has taken since stays with that run.
    pub fn release(&mut self, lease: &RunLease)
        requires
            old(self)@.is_sound(),
        ensures
            final(self)@.is_sound(),
            final(self)@ == old(self)@.release(lease.job_id@, lease.run_id),
    {
        proof {
            let ended = RunOp::Release { job: lease.job_id@, run_id: lease.run_id };
            soundness_is_kept(self@, ended);
        }
        remove_run(&mut self.entries, lease.job_id.as_str(), lease.run_id);
    }

    /// Signals the job's run to stop, and tells whether there is one. The run
    /// keeps its slot until it has stopped.
    pub fn cancel(&mut self, job_id: &CrawlJobId) -> (r: bool)
        requires
            old(self)@.is_sound(),
        ensures
            final(self)@.is_sound(),
            r == old(self)@.holds(job_id@),
            final(self)@ == old(self)@.cancel(job_id@),
    {
        proof {
            soundness_is_kept(self@, RunOp::Cancel { job: job_id@ });
        }
        match signal_of(&self.entries, job_id.as_str()) {
            Some(token) => {
                assert(self@.holds(job_id@));
                give_signal(&mut self.signals, &token);
                true
            },
            None => false,
        }
    }

    /// Frees the job's slot and signals the run that held it to stop.
    pub fn remove_and_cancel(&mut self, job_id: &CrawlJobId)
        requires
            old(self)@.is_sound(),
        ensures
            final(self)@.is_sound(),
            final(self)@ == old(self)@.remove(job_id@),
    {
        proof {
            soundness_is_kept(self@, RunOp::Remove { job: job_id@ });
        }
        if let Some(run) = take_run(&mut self.entries, job_id.as_str()) {
            assert(old(self)@.holds(job_id@));
            give_signal(&mut self.signals, &run.cancel);
        }
    }
}

} // verus!
