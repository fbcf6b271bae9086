//! Starting a job: seed the frontier, compile the scope, prepare the workers,
//! mark the job as running, and hand it over. The work itself is done by the
//! caller, one action at a time; what to do next, and how to back out, is decided
//! here.
use vstd::prelude::*;

use crate::model::{
    AppError, CrawlError, CrawlJob, CrawlJobId, DiscoveredUrl, Failure, JobStatus, NormalizedUrl,
    UrlText, UserId,
};
use crate::running::{already_running, RunLease, RunningJobs};
use crate::service::{
    compiles, normalizes, owned_job, owns, says_not_found, CRAWLER_USER_AGENT,
};
use crate::text::{lowered, to_lower_text};

verus! {

/// Seeds outrank discovered links so a restart re-crawls them first.
pub const SEED_PRIORITY: i64 = 100;

/// How far a start is.
#[derive(Debug, Clone)]
pub enum StartPhase<S, R> {
    /// The seeds before `next` are in the frontier.
    Seeding { next: usize },
    /// The workers are being prepared.
    Preparing,
    /// The job is being marked as running.
    Marking,
    /// The job is marked as running and is being read again.
    Loading,
    /// The tasks of the job are being counted.
    Counting { job: CrawlJob<S, R> },
    /// The start has ended, one way or the other.
    Over,
}

/// A start that is under way.
#[derive(Debug)]
pub struct StartRun<S, R> {
    pub job: CrawlJob<S, R>,
    pub lease: RunLease,
    pub phase: StartPhase<S, R>,
}

/// What the caller did about the last action. The counters are `P`, and `E` is
/// what its own work fails with.
#[derive(Debug, Clone)]
pub enum StartReply<S, R, P, E> {
    /// Nothing was asked yet, or it was done and there is nothing to report.
    Ready,
    Loaded(CrawlJob<S, R>),
    Counted(P),
    /// It failed; `detail` is the error in words.
    Failed { error: E, detail: String },
}

/// What the caller is to do next. `M` is a scope that was compiled.
#[derive(Debug, Clone)]
pub enum StartAction<S, R, P, E, M> {
    /// Put the URL into the job's frontier.
    Enqueue { url: DiscoveredUrl, priority: i64 },
    /// Build the workers. They follow the links that `matcher` lets through.
    Prepare { matcher: M, user_agent: String, respect_robots: bool, delay_ms: u64 },
    /// Store that the job runs.
    MarkRunning,
    /// Read the job again.
    LoadJob,
    /// Count the job's tasks.
    CountTasks,
    /// Let the workers run, and answer with the view of the job.
    Launch { job: CrawlJob<S, R>, progress: P },
    /// Answer with the error. Where there is something to record, store the job
    /// with that state and those words first.
    Abort { error: E, record: Option<(JobStatus, String)> },
    /// The reply does not fit the last action.
    OutOfTurn,
}

/// Whether `normalize` may answer the text with a URL that has no host.
pub open spec fn hostless<E, N: Fn(&str) -> Result<NormalizedUrl, E>>(
    normalize: N,
    text: Seq<char>,
) -> bool {
    exists|url: NormalizedUrl|
        #![trigger normalizes::<E, N>(normalize, text, Ok(url))]
        normalizes::<E, N>(normalize, text, Ok(url)) && url.host is None
}

/// Whether the URL enters the frontier as this.
pub open spec fn is_seed_of(entry: DiscoveredUrl, url: UrlText) -> bool {
    &&& url.host is Some
    &&& entry.fingerprint@ == url.fingerprint
    &&& entry.host@ == lowered(url.host->0)
    &&& entry.url@ == url.text
    &&& entry.depth == 0
    &&& entry.redirect_hops == 0
}

/// A URL that was given as a seed as it enters the frontier; one without a host
/// does not.
pub fn seed_entry(url: NormalizedUrl) -> (r: Option<DiscoveredUrl>)
    ensures
        r is Some <==> url.host is Some,
        r matches Some(entry) ==> is_seed_of(entry, url@),
{
    match url.host {
        Some(host) => Some(
            DiscoveredUrl {
                fingerprint: url.fingerprint,
                host: to_lower_text(host.as_str()),
                url: url.text,
                depth: 0,
                redirect_hops: 0,
            },
        ),
        None => None,
    }
}

/// Whether all seeds from `from` up to `to` can be passed over for want of a
/// host.
pub open spec fn passed_over<E, N: Fn(&str) -> Result<NormalizedUrl, E>>(
    normalize: N,
    seeds: Seq<String>,
    from: int,
    to: int,
) -> bool {
    forall|i: int| from <= i < to ==> hostless::<E, N>(normalize, (#[trigger] seeds[i])@)
}

/// Whether the search for the next seed with a host, from `from` on, may come to
/// `found`: the entry and the number of the seed behind it, nothing where no
/// seed is left, or the error of the first seed that is refused.
pub open spec fn next_seed_is<E, N: Fn(&str) -> Result<NormalizedUrl, E>>(
    normalize: N,
    seeds: Seq<String>,
    from: int,
    found: Result<Option<(DiscoveredUrl, usize)>, E>,
) -> bool {
    match found {
        Ok(Some((entry, next))) => {
            &&& from < next <= seeds.len()
            &&& passed_over::<E, N>(normalize, seeds, from, next - 1)
            &&& exists|url: NormalizedUrl|
                #![trigger normalizes::<E, N>(normalize, seeds[next - 1]@, Ok(url))]
                normalizes::<E, N>(normalize, seeds[next - 1]@, Ok(url))
                    && is_seed_of(entry, url@)
        },
        Ok(None) => passed_over::<E, N>(normalize, seeds, from, seeds.len() as int),
        Err(error) => exists|i: int|
            #![trigger passed_over::<E, N>(normalize, seeds, from, i)]
            {
                &&& from <= i < seeds.len()
                &&& passed_over::<E, N>(normalize, seeds, from, i)
                &&& normalizes::<E, N>(normalize, seeds[i]@, Err(error))
            },
    }
}

/// The next seed that has a host, from `from` on, and the number of the seed
/// behind it.
pub fn next_seed<E, N: Fn(&str) -> Result<NormalizedUrl, E>>(
    seeds: &Vec<String>,
    from: usize,
    normalize: &N,
) -> (r: Result<Option<(DiscoveredUrl, usize)>, E>)
    requires
        forall|raw: &str| call_requires(*normalize, (raw,)),
    ensures
        next_seed_is::<E, N>(*normalize, seeds@, from as int, r),
{
    let mut i: usize = from;
    while i < seeds.len()
        invariant
            from <= i,
            forall|raw: &str| call_requires(*normalize, (raw,)),
            passed_over::<E, N>(*normalize, seeds@, from as int, i as int),
        decreases seeds@.len() - i,
    {
        let answer = normalize(seeds[i].as_str());
        assert(normalizes::<E, N>(*normalize, seeds@[i as int]@, answer));
        match answer {
            Ok(url) => {
                let ghost taken = url;
                if let Some(entry) = seed_entry(url) {
                    let next: usize = i + 1;
                    assert(normalizes::<E, N>(*normalize, seeds@[next - 1]@, Ok(taken)));
                    return Ok(Some((entry, next)));
                }
                assert(hostless::<E, N>(*normalize, seeds@[i as int]@));
            },
            Err(error) => {
                return Err(error);
            },
        }
        i += 1;
    }
    Ok(None)
}

/// How the job introduces itself to the sites it visits.
pub open spec fn agent_of<S, R>(job: CrawlJob<S, R>) -> Seq<char> {
    match job.user_agent {
        Some(agent) => agent@,
        None => CRAWLER_USER_AGENT@,
    }
}

/// How the job introduces itself to the sites it visits.
pub fn user_agent<S, R>(job: &CrawlJob<S, R>) -> (r: String)
    ensures
        r@ == agent_of(*job),
{
    match &job.user_agent {
        Some(agent) => agent.clone(),
        None => CRAWLER_USER_AGENT.to_string(),
    }
}

/// Whether the job has been marked as running in this phase.
pub open spec fn marked_running<S, R>(phase: StartPhase<S, R>) -> bool {
    phase is Loading || phase is Counting
}

/// Whether the start ends with the error, and the failure is recorded if and
/// only if the job had been marked as running.
pub open spec fn backs_out<S, R, P, E, M>(
    run: StartRun<S, R>,
    error: E,
    detail: Option<Seq<char>>,
    next: StartRun<S, R>,
    action: StartAction<S, R, P, E, M>,
) -> bool {
    &&& next.phase is Over
    &&& match action {
        StartAction::Abort { error: answer, record } => {
            &&& answer == error
            &&& record is Some <==> marked_running(run.phase)
            &&& record matches Some((status, words)) ==> status is Failed && Some(words@) == detail
        },
        _ => false,
    }
}

/// Whether a reply may lead from one state of a start to the next and to the
/// action. The scope that the workers get is the one that `compile_scope` makes
/// of the job's own scope and seeds.
pub open spec fn start_step<
    S,
    R,
    P,
    E,
    M,
    N: Fn(&str) -> Result<NormalizedUrl, E>,
    C: Fn(&S, &Vec<String>) -> Result<M, E>,
>(
    normalize: N,
    compile_scope: C,
    run: StartRun<S, R>,
    reply: StartReply<S, R, P, E>,
    next: StartRun<S, R>,
    action: StartAction<S, R, P, E, M>,
) -> bool {
    &&& next.job == run.job
    &&& next.lease == run.lease
    &&& match (run.phase, reply) {
        (StartPhase::Over, _) => next == run && action is OutOfTurn,
        (_, StartReply::Failed { error, detail }) => backs_out(
            run,
            error,
            Some(detail@),
            next,
            action,
        ),
        (StartPhase::Seeding { next: from }, StartReply::Ready) => {
            ||| exists|url: DiscoveredUrl, to: usize|
                #![trigger next_seed_is::<E, N>(normalize, run.job.seeds@, from as int, Ok(Some((url, to))))]
                {
                    &&& next_seed_is::<E, N>(
                        normalize,
                        run.job.seeds@,
                        from as int,
                        Ok(Some((url, to))),
                    )
                    &&& next.phase == StartPhase::<S, R>::Seeding { next: to }
                    &&& action == StartAction::<S, R, P, E, M>::Enqueue {
                        url,
                        priority: SEED_PRIORITY,
                    }
                }
            ||| {
                &&& next_seed_is::<E, N>(normalize, run.job.seeds@, from as int, Ok(None))
                &&& next.phase is Preparing
                &&& action matches StartAction::Prepare {
                    matcher,
                    user_agent,
                    respect_robots,
                    delay_ms,
                } && {
                    &&& compiles::<S, M, E, C>(
                        compile_scope,
                        run.job.scope,
                        run.job.seeds@,
                        Ok(matcher),
                    )
                    &&& user_agent@ == agent_of(run.job)
                    &&& respect_robots == run.job.respect_robots
                    &&& delay_ms == run.job.delay_ms
                }
            }
            ||| exists|error: E|
                #![trigger compiles::<S, M, E, C>(compile_scope, run.job.scope, run.job.seeds@, Err(error))]
                {
                    &&& next_seed_is::<E, N>(normalize, run.job.seeds@, from as int, Ok(None))
                    &&& compiles::<S, M, E, C>(
                        compile_scope,
                        run.job.scope,
                        run.job.seeds@,
                        Err(error),
                    )
                    &&& backs_out(run, error, None, next, action)
                }
            ||| exists|error: E|
                #![trigger next_seed_is::<E, N>(normalize, run.job.seeds@, from as int, Err(error))]
                {
                    &&& next_seed_is::<E, N>(normalize, run.job.seeds@, from as int, Err(error))
                    &&& backs_out(run, error, None, next, action)
                }
        },
        (StartPhase::Preparing, StartReply::Ready) => next.phase is Marking && action is MarkRunning,
        (StartPhase::Marking, StartReply::Ready) => next.phase is Loading && action is LoadJob,
        (StartPhase::Loading, StartReply::Loaded(job)) => {
            &&& next.phase == StartPhase::Counting { job }
            &&& action is CountTasks
        },
        (StartPhase::Counting { job }, StartReply::Counted(progress)) => {
            &&& next.phase is Over
            &&& action == StartAction::<S, R, P, E, M>::Launch { job, progress }
        },
        _ => next == run && action is OutOfTurn,
    }
}

impl<S, R> StartRun<S, R> {
    /// Takes the slot of the user's job; refused while the job runs already. The
    /// first step is asked for with [`StartReply::Ready`].
    pub fn begin<E>(
        running: &mut RunningJobs,
        user_id: &UserId,
        job_id: &CrawlJobId,
        lookup: Result<Option<CrawlJob<S, R>>, E>,
    ) -> (r: Result<Self, Failure<E>>)
        requires
            old(running)@.is_sound(),
        ensures
            final(running)@.is_sound(),
            match lookup {
                Ok(found) => if !owns(*user_id, found) {
                    says_not_found(r, *job_id) && final(running)@ == old(running)@
                } else if old(running)@.holds(job_id@) {
                    &&& r matches Err(
                        Failure::Refused(CrawlError::App(AppError::Conflict(text))),
                    ) && text@ == already_running(job_id@)
                    &&& old(running)@.is_new(final(running)@.made.last())
                    &&& final(running)@ == old(running)@.reserve(
                        job_id@,
                        final(running)@.made.last(),
                    )
                } else {
                    r matches Ok(run) && {
                        &&& run.job == found->0
                        &&& run.phase == StartPhase::<S, R>::Seeding { next: 0 }
                        &&& run.lease.job_id@ == job_id@
                        &&& run.lease.run_id == old(running)@.next_run_id
                        &&& old(running)@.is_new(run.lease.cancel)
                        &&& final(running)@ == old(running)@.reserve(job_id@, run.lease.cancel)
                    }
                },
                Err(error) => {
                    &&& r == Err::<Self, Failure<E>>(Failure::Passed(error))
                    &&& final(running)@ == old(running)@
                },
            },
    {
        match owned_job(user_id, job_id, lookup) {
            Ok(job) => match running.reserve(job_id) {
                Ok(lease) => Ok(StartRun { job, lease, phase: StartPhase::Seeding { next: 0 } }),
                Err(error) => Err(Failure::Refused(error)),
            },
            Err(failure) => Err(failure),
        }
    }

    /// One step of the start. Where it backs out, the job's slot is freed.
    pub fn step<
        P,
        E,
        M,
        N: Fn(&str) -> Result<NormalizedUrl, E>,
        C: Fn(&S, &Vec<String>) -> Result<M, E>,
    >(
        self,
        running: &mut RunningJobs,
        reply: StartReply<S, R, P, E>,
        normalize: N,
        compile_scope: C,
    ) -> (r: (Self, StartAction<S, R, P, E, M>))
        requires
            old(running)@.is_sound(),
            forall|raw: &str| call_requires(normalize, (raw,)),
            forall|scope: &S, seeds: &Vec<String>| call_requires(compile_scope, (scope, seeds)),
        ensures
            final(running)@.is_sound(),
            start_step::<S, R, P, E, M, N, C>(normalize, compile_scope, self, reply, r.0, r.1),
            final(running)@ == (if r.1 is Abort {
                old(running)@.release(self.lease.job_id@, self.lease.run_id)
            } else {
                old(running)@
            }),
    {
        let StartRun { job, lease, phase } = self;
        match (phase, reply) {
            (StartPhase::Over, _) => (
                StartRun { job, lease, phase: StartPhase::Over },
                StartAction::OutOfTurn,
            ),
            (phase, StartReply::Failed { error, detail }) => {
                running.release(&lease);
                let record = match phase {
                    StartPhase::Loading => Some((JobStatus::Failed, detail)),
                    StartPhase::Counting { job: _ } => Some((JobStatus::Failed, detail)),
                    _ => None,
                };
                (
                    StartRun { job, lease, phase: StartPhase::Over },
                    StartAction::Abort { error, record },
                )
            },
            (StartPhase::Seeding { next }, StartReply::Ready) => {
                let found = next_seed(&job.seeds, next, &normalize);
                match found {
                    Ok(Some((url, to))) => (
                        StartRun { job, lease, phase: StartPhase::Seeding { next: to } },
                        StartAction::Enqueue { url, priority: SEED_PRIORITY },
                    ),
                    Ok(None) => {
                        let answer = compile_scope(&job.scope, &job.seeds);
                        assert(compiles::<S, M, E, C>(
                            compile_scope,
                            job.scope,
                            job.seeds@,
                            answer,
                        ));
                        match answer {
                            Ok(matcher) => {
                                let action = StartAction::Prepare {
                                    matcher,
                                    user_agent: user_agent(&job),
                                    respect_robots: job.respect_robots,
                                    delay_ms: job.delay_ms,
                                };
                                (StartRun { job, lease, phase: StartPhase::Preparing }, action)
                            },
                            Err(error) => {
                                running.release(&lease);
                                (
                                    StartRun { job, lease, phase: StartPhase::Over },
                                    StartAction::Abort { error, record: None },
                                )
                            },
                        }
                    },
                    Err(error) => {
                        running.release(&lease);
                        (
                            StartRun { job, lease, phase: StartPhase::Over },
                            StartAction::Abort { error, record: None },
                        )
                    },
                }
            },
            (StartPhase::Preparing, StartReply::Ready) => (
                StartRun { job, lease, phase: StartPhase::Marking },
                StartAction::MarkRunning,
            ),
            (StartPhase::Marking, StartReply::Ready) => (
                StartRun { job, lease, phase: StartPhase::Loading },
                StartAction::LoadJob,
            ),
            (StartPhase::Loading, StartReply::Loaded(loaded)) => (
                StartRun { job, lease, phase: StartPhase::Counting { job: loaded } },
                StartAction::CountTasks,
            ),
            (StartPhase::Counting { job: loaded }, StartReply::Counted(progress)) => (
                StartRun { job, lease, phase: StartPhase::Over },
                StartAction::Launch { job: loaded, progress },
            ),
            (phase, _) => (StartRun { job, lease, phase }, StartAction::OutOfTurn),
        }
    }
}

} // verus!
