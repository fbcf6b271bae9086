//! Requests on crawl jobs: create one, look at one, cancel one.
use vstd::prelude::*;

use crate::model::{CrawlError, CrawlJob, CrawlJobId, CrawlSink, CrawlTask, Failure, JobStatus};
use crate::model::{NormalizedUrl, TimestampMs, UserId};
use crate::running::{RunTable, RunningJobs};

verus! {

/// Identifies our traffic to site operators, per the compliance boundary.
pub const CRAWLER_USER_AGENT: &'static str = "NomiFun-Crawler/1.0 (+https://www.nomifun.com)";

/// Most pages of one job that are fetched at a time.
pub const MAX_CONCURRENCY: u32 = 64;

/// Most pages of one host that are fetched at a time.
pub const MAX_PER_HOST_CONCURRENCY: u32 = 16;

/// What a request to create a job asks for. The scope `S` and the render mode
/// `R` are carried and never looked into.
#[derive(Debug, Clone)]
pub struct NewJob<S, R> {
    pub name: String,
    pub seeds: Vec<String>,
    pub scope: S,
    pub max_depth: u32,
    pub max_urls: u32,
    pub render_mode: R,
    pub concurrency: u32,
    pub per_host_concurrency: u32,
    pub delay_ms: u64,
    pub respect_robots: bool,
    pub sink: CrawlSink,
}

/// How deep a job goes where the request does not say.
pub fn default_depth() -> (r: u32)
    ensures
        r == 3,
{
    3
}

/// How many URLs a job visits where the request does not say.
pub fn default_max_urls() -> (r: u32)
    ensures
        r == 10_000,
{
    10_000
}

/// How many pages are fetched at a time where the request does not say.
pub fn default_concurrency() -> (r: u32)
    ensures
        r == 4,
{
    4
}

/// How many pages of one host are fetched at a time where the request does not
/// say.
pub fn default_per_host() -> (r: u32)
    ensures
        r == 2,
{
    2
}

/// How long to wait between two fetches where the request does not say.
pub fn default_delay() -> (r: u64)
    ensures
        r == 500,
{
    500
}

/// Whether robots rules are kept where the request does not say.
pub fn default_true() -> (r: bool)
    ensures
        r,
{
    true
}

/// Job plus derived counters `P`, as returned to the UI.
#[derive(Debug, Clone)]
pub struct JobView<S, R, P> {
    pub job_id: String,
    pub name: String,
    pub seeds: Vec<String>,
    pub scope: S,
    pub max_depth: u32,
    pub max_urls: u32,
    pub render_mode: R,
    pub concurrency: u32,
    pub per_host_concurrency: u32,
    pub delay_ms: u64,
    pub respect_robots: bool,
    pub sink: CrawlSink,
    pub status: JobStatus,
    pub error_detail: Option<String>,
    pub started_at: Option<TimestampMs>,
    pub finished_at: Option<TimestampMs>,
    pub created_at: TimestampMs,
    pub progress: P,
}

/// The view of a job: what the job holds, without its owner, its user agent and
/// the time of its last change, and with the counters.
pub open spec fn job_view<S, R, P>(job: CrawlJob<S, R>, progress: P) -> JobView<S, R, P> {
    JobView {
        job_id: job.job_id.raw,
        name: job.name,
        seeds: job.seeds,
        scope: job.scope,
        max_depth: job.max_depth,
        max_urls: job.max_urls,
        render_mode: job.render_mode,
        concurrency: job.concurrency,
        per_host_concurrency: job.per_host_concurrency,
        delay_ms: job.delay_ms,
        respect_robots: job.respect_robots,
        sink: job.sink,
        status: job.status,
        error_detail: job.error_detail,
        started_at: job.started_at,
        finished_at: job.finished_at,
        created_at: job.created_at,
        progress,
    }
}

impl<S, R, P> JobView<S, R, P> {
    /// The job with its counters.
    pub fn new(job: CrawlJob<S, R>, progress: P) -> (r: Self)
        ensures
            r == job_view(job, progress),
    {
        JobView {
            job_id: job.job_id.raw,
            name: job.name,
            seeds: job.seeds,
            scope: job.scope,
            max_depth: job.max_depth,
            max_urls: job.max_urls,
            render_mode: job.render_mode,
            concurrency: job.concurrency,
            per_host_concurrency: job.per_host_concurrency,
            delay_ms: job.delay_ms,
            respect_robots: job.respect_robots,
            sink: job.sink,
            status: job.status,
            error_detail: job.error_detail,
            started_at: job.started_at,
            finished_at: job.finished_at,
            created_at: job.created_at,
            progress,
        }
    }
}

/// The jobs with their counters, in order.
pub fn job_views<S, R, P>(jobs: Vec<(CrawlJob<S, R>, P)>) -> (r: Vec<JobView<S, R, P>>)
    ensures
        r@ == jobs@.map_values(|entry: (CrawlJob<S, R>, P)| job_view(entry.0, entry.1)),
{
    let ghost all = jobs@;
    let mut out: Vec<JobView<S, R, P>> = Vec::new();
    for entry in it: jobs
        invariant
            it.seq() == all,
            out@ == all.take(it.index()).map_values(
                |entry: (CrawlJob<S, R>, P)| job_view(entry.0, entry.1),
            ),
    {
        out.push(JobView::new(entry.0, entry.1));
        assert(out@ =~= all.take(it.index() + 1).map_values(
            |entry: (CrawlJob<S, R>, P)| job_view(entry.0, entry.1),
        ));
    }
    assert(all.take(all.len() as int) == all);
    out
}

/// A page of a job, as returned to the UI.
#[derive(Debug, Clone)]
pub struct TaskView<T> {
    pub task_id: String,
    pub url: String,
    pub host: String,
    pub depth: u32,
    pub status: T,
    pub attempt_count: u32,
    pub http_status: Option<u16>,
    pub error_code: Option<String>,
    pub error_detail: Option<String>,
    pub completed_at: Option<TimestampMs>,
}

/// The view of a page: everything that is stored of it.
pub open spec fn task_view<T>(task: CrawlTask<T>) -> TaskView<T> {
    TaskView {
        task_id: task.task_id.raw,
        url: task.url,
        host: task.host,
        depth: task.depth,
        status: task.status,
        attempt_count: task.attempt_count,
        http_status: task.http_status,
        error_code: task.error_code,
        error_detail: task.error_detail,
        completed_at: task.completed_at,
    }
}

impl<T> From<CrawlTask<T>> for TaskView<T> {
    fn from(task: CrawlTask<T>) -> (r: Self) {
        TaskView {
            task_id: task.task_id.raw,
            url: task.url,
            host: task.host,
            depth: task.depth,
            status: task.status,
            attempt_count: task.attempt_count,
            http_status: task.http_status,
            error_code: task.error_code,
            error_detail: task.error_detail,
            completed_at: task.completed_at,
        }
    }
}

impl<T> vstd::std_specs::convert::FromSpecImpl<CrawlTask<T>> for TaskView<T> {
    open spec fn obeys_from_spec() -> bool {
        true
    }

    open spec fn from_spec(task: CrawlTask<T>) -> Self {
        task_view(task)
    }
}

/// The pages, in order.
pub fn task_views<T>(tasks: Vec<CrawlTask<T>>) -> (r: Vec<TaskView<T>>)
    ensures
        r@ == tasks@.map_values(|task: CrawlTask<T>| task_view(task)),
{
    let ghost all = tasks@;
    let mut out: Vec<TaskView<T>> = Vec::new();
    for task in it: tasks
        invariant
            it.seq() == all,
            out@ == all.take(it.index()).map_values(|task: CrawlTask<T>| task_view(task)),
    {
        out.push(TaskView::from(task));
        assert(out@ =~= all.take(it.index() + 1).map_values(
            |task: CrawlTask<T>| task_view(task),
        ));
    }
    assert(all.take(all.len() as int) == all);
    out
}

/// Whether `normalize` may answer the text with `answer`.
pub open spec fn normalizes<E, N: Fn(&str) -> Result<NormalizedUrl, E>>(
    normalize: N,
    text: Seq<char>,
    answer: Result<NormalizedUrl, E>,
) -> bool {
    exists|raw: &str|
        #![trigger call_ensures(normalize, (raw,), answer)]
        raw@ == text && call_ensures(normalize, (raw,), answer)
}

/// Whether `normalize` may take the text and make `out` of it.
pub open spec fn normal_form<E, N: Fn(&str) -> Result<NormalizedUrl, E>>(
    normalize: N,
    text: Seq<char>,
    out: String,
) -> bool {
    exists|url: NormalizedUrl|
        #![trigger normalizes::<E, N>(normalize, text, Ok(url))]
        normalizes::<E, N>(normalize, text, Ok(url)) && url.text == out
}

/// Whether `out` are normal forms of the seeds, in order.
pub open spec fn normal_forms<E, N: Fn(&str) -> Result<NormalizedUrl, E>>(
    normalize: N,
    seeds: Seq<String>,
    out: Seq<String>,
) -> bool {
    &&& out.len() == seeds.len()
    &&& forall|i: int|
        0 <= i < seeds.len() ==> normal_form::<E, N>(normalize, seeds[i]@, #[trigger] out[i])
}

/// Whether the first seed that `normalize` refuses is refused with `error`.
pub open spec fn first_refusal<E, N: Fn(&str) -> Result<NormalizedUrl, E>>(
    normalize: N,
    seeds: Seq<String>,
    error: E,
) -> bool {
    exists|i: int, front: Seq<String>|
        #![trigger normal_forms::<E, N>(normalize, seeds.take(i), front)]
        {
            &&& 0 <= i < seeds.len()
            &&& normal_forms::<E, N>(normalize, seeds.take(i), front)
            &&& normalizes::<E, N>(normalize, seeds[i]@, Err(error))
        }
}

/// The seeds in normal form; or why the first of them that is refused is
/// refused.
pub fn normalize_seeds<E, N: Fn(&str) -> Result<NormalizedUrl, E>>(
    seeds: &Vec<String>,
    normalize: &N,
) -> (r: Result<Vec<String>, E>)
    requires
        forall|raw: &str| call_requires(*normalize, (raw,)),
    ensures
        r matches Ok(out) ==> normal_forms::<E, N>(*normalize, seeds@, out@),
        r matches Err(error) ==> first_refusal::<E, N>(*normalize, seeds@, error),
{
    let mut out: Vec<String> = Vec::new();
    let mut i: usize = 0;
    while i < seeds.len()
        invariant
            0 <= i <= seeds@.len(),
            forall|raw: &str| call_requires(*normalize, (raw,)),
            normal_forms::<E, N>(*normalize, seeds@.take(i as int), out@),
        decreases seeds@.len() - i,
    {
        let answer = normalize(seeds[i].as_str());
        assert(normalizes::<E, N>(*normalize, seeds@[i as int]@, answer));
        match answer {
            Ok(url) => {
                assert(normal_form::<E, N>(*normalize, seeds@[i as int]@, url.text));
                out.push(url.text);
            },
            Err(error) => {
                return Err(error);
            },
        }
        i += 1;
    }
    assert(seeds@.take(i as int) == seeds@);
    Ok(out)
}

/// A number within bounds.
pub open spec fn within(value: u32, low: u32, high: u32) -> u32 {
    if value < low {
        low
    } else if value > high {
        high
    } else {
        value
    }
}

fn clamped(value: u32, low: u32, high: u32) -> (r: u32)
    ensures
        r == within(value, low, high),
{
    if value < low {
        low
    } else if value > high {
        high
    } else {
        value
    }
}

/// Whether the job is the draft of the request, with the seeds in normal form.
pub open spec fn is_draft<S, R>(
    job: CrawlJob<S, R>,
    user_id: UserId,
    req: NewJob<S, R>,
    seeds: Seq<String>,
    job_id: CrawlJobId,
    now: TimestampMs,
) -> bool {
    &&& job.job_id == job_id
    &&& job.user_id@ == user_id@
    &&& job.name == req.name
    &&& job.seeds@ == seeds
    &&& job.scope == req.scope
    &&& job.max_depth == req.max_depth
    &&& job.max_urls == within(req.max_urls, 1, u32::MAX)
    &&& job.render_mode == req.render_mode
    &&& job.concurrency == within(req.concurrency, 1, MAX_CONCURRENCY)
    &&& job.per_host_concurrency == within(req.per_host_concurrency, 1, MAX_PER_HOST_CONCURRENCY)
    &&& job.delay_ms == req.delay_ms
    &&& job.respect_robots == req.respect_robots
    &&& job.user_agent is None
    &&& job.sink == req.sink
    &&& job.status is Draft
    &&& job.error_detail is None
    &&& job.started_at is None
    &&& job.finished_at is None
    &&& job.created_at == now
    &&& job.updated_at == now
}

/// The job that a request asks for, with its seeds in normal form.
pub fn draft_job<S, R>(
    user_id: &UserId,
    req: NewJob<S, R>,
    seeds: Vec<String>,
    job_id: CrawlJobId,
    now: TimestampMs,
) -> (r: CrawlJob<S, R>)
    ensures
        is_draft(r, *user_id, req, seeds@, job_id, now),
{
    CrawlJob {
        job_id,
        user_id: UserId { raw: user_id.raw.clone() },
        name: req.name,
        seeds,
        scope: req.scope,
        max_depth: req.max_depth,
        max_urls: clamped(req.max_urls, 1, u32::MAX),
        render_mode: req.render_mode,
        concurrency: clamped(req.concurrency, 1, MAX_CONCURRENCY),
        per_host_concurrency: clamped(req.per_host_concurrency, 1, MAX_PER_HOST_CONCURRENCY),
        delay_ms: req.delay_ms,
        respect_robots: req.respect_robots,
        user_agent: None,
        sink: req.sink,
        status: JobStatus::Draft,
        error_detail: None,
        started_at: None,
        finished_at: None,
        created_at: now,
        updated_at: now,
    }
}

/// Whether `compile_scope` may answer the scope and the seeds with `answer`.
pub open spec fn compiles<S, M, E, C: Fn(&S, &Vec<String>) -> Result<M, E>>(
    compile_scope: C,
    scope: S,
    seeds: Seq<String>,
    answer: Result<M, E>,
) -> bool {
    exists|list: Vec<String>|
        #![trigger call_ensures(compile_scope, (&scope, &list), answer)]
        list@ == seeds && call_ensures(compile_scope, (&scope, &list), answer)
}

/// The job that a request asks for. A request without seeds is refused; so is
/// one with a seed that `normalize` refuses, and one whose scope `compile_scope`
/// refuses, so that a bad scope fails here and not on the first page fetched an
/// hour later.
pub fn create_job<
    S,
    R,
    M,
    E,
    N: Fn(&str) -> Result<NormalizedUrl, E>,
    C: Fn(&S, &Vec<String>) -> Result<M, E>,
>(
    user_id: &UserId,
    req: NewJob<S, R>,
    job_id: CrawlJobId,
    now: TimestampMs,
    normalize: N,
    compile_scope: C,
) -> (r: Result<CrawlJob<S, R>, Failure<E>>)
    requires
        forall|raw: &str| call_requires(normalize, (raw,)),
        forall|scope: &S, seeds: &Vec<String>| call_requires(compile_scope, (scope, seeds)),
    ensures
        (r matches Err(Failure::Refused(_))) <==> req.seeds@.len() == 0,
        r matches Err(Failure::Refused(error)) ==> {
            error matches CrawlError::UrlRejected(text) && text@
                == "a crawl job needs at least one seed"@
        },
        r matches Ok(job) ==> {
            &&& normal_forms::<E, N>(normalize, req.seeds@, job.seeds@)
            &&& exists|matcher: M|
                #![trigger compiles::<S, M, E, C>(compile_scope, req.scope, job.seeds@, Ok(matcher))]
                compiles::<S, M, E, C>(compile_scope, req.scope, job.seeds@, Ok(matcher))
            &&& is_draft(job, *user_id, req, job.seeds@, job_id, now)
        },
        r matches Err(Failure::Passed(error)) ==> {
            ||| first_refusal::<E, N>(normalize, req.seeds@, error)
            ||| exists|seeds: Seq<String>|
                #![trigger normal_forms::<E, N>(normalize, req.seeds@, seeds)]
                normal_forms::<E, N>(normalize, req.seeds@, seeds) && compiles::<S, M, E, C>(
                    compile_scope,
                    req.scope,
                    seeds,
                    Err(error),
                )
        },
{
    if req.seeds.len() == 0 {
        return Err(
            Failure::Refused(
                CrawlError::UrlRejected("a crawl job needs at least one seed".to_string()),
            ),
        );
    }
    match normalize_seeds(&req.seeds, &normalize) {
        Ok(seeds) => {
            let answer = compile_scope(&req.scope, &seeds);
            assert(compiles::<S, M, E, C>(compile_scope, req.scope, seeds@, answer));
            match answer {
                Ok(_) => Ok(draft_job(user_id, req, seeds, job_id, now)),
                Err(error) => Err(Failure::Passed(error)),
            }
        },
        Err(error) => Err(Failure::Passed(error)),
    }
}

/// Whether the lookup found a job of the user.
pub open spec fn owns<S, R>(user_id: UserId, found: Option<CrawlJob<S, R>>) -> bool {
    found matches Some(job) && job.user_id@ == user_id@
}

/// Whether `answer` tells that there is no job of that id.
pub open spec fn says_not_found<T, E>(answer: Result<T, Failure<E>>, job_id: CrawlJobId) -> bool {
    answer matches Err(Failure::Refused(CrawlError::JobNotFound(text))) && text@ == job_id@
}

/// Whether a request of the user on the job of that id is answered right, given
/// what the lookup of the job came back with.
pub open spec fn access_answer<S, R, E>(
    user_id: UserId,
    job_id: CrawlJobId,
    lookup: Result<Option<CrawlJob<S, R>>, E>,
    answer: Result<CrawlJob<S, R>, Failure<E>>,
) -> bool {
    match lookup {
        Ok(found) => if owns(user_id, found) {
            answer == Ok::<CrawlJob<S, R>, Failure<E>>(found->0)
        } else {
            says_not_found(answer, job_id)
        },
        Err(error) => answer == Err::<CrawlJob<S, R>, Failure<E>>(Failure::Passed(error)),
    }
}

/// The job, if it is the user's. Another user's job is answered like one that
/// does not exist: never confirm another user's ID.
pub fn owned_job<S, R, E>(
    user_id: &UserId,
    job_id: &CrawlJobId,
    lookup: Result<Option<CrawlJob<S, R>>, E>,
) -> (r: Result<CrawlJob<S, R>, Failure<E>>)
    ensures
        access_answer(*user_id, *job_id, lookup, r),
{
    match lookup {
        Ok(Some(job)) => {
            if job.user_id.is(user_id) {
                Ok(job)
            } else {
                Err(Failure::Refused(CrawlError::JobNotFound(job_id.as_str().to_string())))
            }
        },
        Ok(None) => Err(Failure::Refused(CrawlError::JobNotFound(job_id.as_str().to_string()))),
        Err(error) => Err(Failure::Passed(error)),
    }
}

/// Nobody can tell another user's job from one that does not exist: both are
/// answered alike.
pub proof fn foreign_job_looks_missing<S, R, E>(
    user_id: UserId,
    job_id: CrawlJobId,
    foreign: CrawlJob<S, R>,
    foreign_answer: Result<CrawlJob<S, R>, Failure<E>>,
    missing_answer: Result<CrawlJob<S, R>, Failure<E>>,
)
    requires
        foreign.user_id@ != user_id@,
        access_answer(user_id, job_id, Ok(Some(foreign)), foreign_answer),
        access_answer(user_id, job_id, Ok(None), missing_answer),
    ensures
        says_not_found(foreign_answer, job_id),
        says_not_found(missing_answer, job_id),
        foreign_answer->Err_0->Refused_0->JobNotFound_0@
            == missing_answer->Err_0->Refused_0->JobNotFound_0@,
{
}

/// What cancelling a job comes to.
#[derive(Debug)]
pub enum CancelOutcome {
    /// Its run was signalled to stop. In-flight tasks are discarded, not
    /// settled, so their leases lapse and they return to `pending`.
    Signalled,
    /// Not running: the job is to be stored with this state, so that the UI
    /// stops showing it as active.
    Park(JobStatus),
}

/// Whether this is what cancelling the job comes to.
pub open spec fn cancels(
    running: RunTable,
    job_id: CrawlJobId,
    outcome: CancelOutcome,
) -> bool {
    if running.holds(job_id@) {
        outcome is Signalled
    } else {
        outcome matches CancelOutcome::Park(status) && status is Cancelled
    }
}

/// Stops the run of the user's job if there is one. The run keeps its slot until
/// it has stopped. A request that is refused changes nothing.
pub fn cancel_job<S, R, E>(
    running: &mut RunningJobs,
    user_id: &UserId,
    job_id: &CrawlJobId,
    lookup: Result<Option<CrawlJob<S, R>>, E>,
) -> (r: Result<CancelOutcome, Failure<E>>)
    requires
        old(running)@.is_sound(),
    ensures
        final(running)@.is_sound(),
        match lookup {
            Ok(found) => if owns(*user_id, found) {
                &&& r matches Ok(outcome) && cancels(old(running)@, *job_id, outcome)
                &&& final(running)@ == old(running)@.cancel(job_id@)
            } else {
                says_not_found(r, *job_id) && final(running)@ == old(running)@
            },
            Err(error) => {
                &&& r == Err::<CancelOutcome, Failure<E>>(Failure::Passed(error))
                &&& final(running)@ == old(running)@
            },
        },
{
    match owned_job(user_id, job_id, lookup) {
        Ok(_) => if running.cancel(job_id) {
            Ok(CancelOutcome::Signalled)
        } else {
            Ok(CancelOutcome::Park(JobStatus::Cancelled))
        },
        Err(failure) => Err(failure),
    }
}

/// Takes the user's job out of the runs, so that it can be deleted from the
/// store: its slot is freed, and its run is signalled to stop if there is one. A
/// request that is refused changes nothing.
pub fn delete_job<S, R, E>(
    running: &mut RunningJobs,
    user_id: &UserId,
    job_id: &CrawlJobId,
    lookup: Result<Option<CrawlJob<S, R>>, E>,
) -> (r: Result<(), Failure<E>>)
    requires
        old(running)@.is_sound(),
    ensures
        final(running)@.is_sound(),
        match lookup {
            Ok(found) => if owns(*user_id, found) {
                &&& r is Ok
                &&& final(running)@ == old(running)@.remove(job_id@)
            } else {
                says_not_found(r, *job_id) && final(running)@ == old(running)@
            },
            Err(error) => {
                &&& r == Err::<(), Failure<E>>(Failure::Passed(error))
                &&& final(running)@ == old(running)@
            },
        },
{
    match owned_job(user_id, job_id, lookup) {
        Ok(_) => {
            running.remove_and_cancel(job_id);
            Ok(())
        },
        Err(failure) => Err(failure),
    }
}

} // verus!
