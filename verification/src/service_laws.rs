//! What holds of every request on a job, from what is asked to what is answered.
use vstd::prelude::*;

use crate::events::{job_finished, job_progress, task_settled, CrawlEvent, EventMessage};
use crate::model::{
    CrawlError, CrawlJob, CrawlJobId, CrawlTask, Failure, JobStatus, NormalizedUrl, TimestampMs, UserId,
};
use crate::running::RunTable;
use crate::service::{
    cancels, compiles, create_job, default_concurrency, default_delay, default_depth,
    default_max_urls, default_per_host, default_true, draft_job, first_refusal, job_views, normal_form,
    normal_forms, normalize_seeds, normalizes, owned_job, owns, says_not_found, task_views,
    CancelOutcome, JobView, NewJob, TaskView,
};

verus! {

/// An id is read and compared as it is written.
pub proof fn ids_are_taken_as_written(
    job_id: &CrawlJobId,
    shown: &str,
    text: &str,
    made: CrawlJobId,
    a: &UserId,
    b: &UserId,
    same: bool,
)
    requires
        call_ensures(CrawlJobId::as_str, (job_id,), shown),
        call_ensures(CrawlJobId::from_text, (text,), made),
        call_ensures(UserId::is, (a, b), same),
    ensures
        shown@ == job_id.raw@,
        job_id@ == job_id.raw@,
        made.raw@ == text@,
        same <==> a.raw@ == b.raw@,
        a@ == a.raw@,
{
}

/// A state goes by its name, and a stored one by the name it was stored under.
pub proof fn states_go_by_their_names(status: &JobStatus, shown: &str)
    requires
        call_ensures(JobStatus::as_str, (status,), shown),
    ensures
        shown@ == (match *status {
            JobStatus::Draft => "draft"@,
            JobStatus::Failed => "failed"@,
            JobStatus::Cancelled => "cancelled"@,
            JobStatus::Stored(name) => name@,
        }),
{
}

/// What a job gets where the request does not say.
pub proof fn defaults_where_nothing_is_said(
    depth: u32,
    max_urls: u32,
    concurrency: u32,
    per_host: u32,
    delay: u64,
    robots: bool,
)
    requires
        call_ensures(default_depth, (), depth),
        call_ensures(default_max_urls, (), max_urls),
        call_ensures(default_concurrency, (), concurrency),
        call_ensures(default_per_host, (), per_host),
        call_ensures(default_delay, (), delay),
        call_ensures(default_true, (), robots),
    ensures
        (depth, max_urls, concurrency, per_host, delay, robots) == (
            3u32,
            10_000u32,
            4u32,
            2u32,
            500u64,
            true,
        ),
{
}

/// Whether `normalize` may answer the seed with a URL that is written as `text`.
pub open spec fn is_normal<E, N: Fn(&str) -> Result<NormalizedUrl, E>>(
    normalize: N,
    seed: Seq<char>,
    text: Seq<char>,
) -> bool {
    exists|raw: &str, url: NormalizedUrl|
        #![trigger call_ensures(normalize, (raw,), Ok(url))]
        raw@ == seed && call_ensures(normalize, (raw,), Ok(url)) && url.text@ == text
}

/// Whether the list holds, for each seed and in order, a text that `normalize`
/// may answer the seed with.
pub open spec fn are_normal<E, N: Fn(&str) -> Result<NormalizedUrl, E>>(
    normalize: N,
    seeds: Seq<String>,
    list: Seq<String>,
) -> bool {
    &&& list.len() == seeds.len()
    &&& forall|i: int|
        0 <= i < seeds.len() ==> is_normal::<E, N>(normalize, seeds[i]@, (#[trigger] list[i])@)
}

proof fn normal_forms_are_normal<E, N: Fn(&str) -> Result<NormalizedUrl, E>>(
    normalize: N,
    seeds: Seq<String>,
    list: Seq<String>,
)
    requires
        normal_forms::<E, N>(normalize, seeds, list),
    ensures
        are_normal::<E, N>(normalize, seeds, list),
{
    assert forall|i: int| 0 <= i < seeds.len() implies is_normal::<E, N>(
        normalize,
        seeds[i]@,
        (#[trigger] list[i])@,
    ) by {
        assert(normal_form::<E, N>(normalize, seeds[i]@, list[i]));
        let url = choose|url: NormalizedUrl|
            #![trigger normalizes::<E, N>(normalize, seeds[i]@, Ok(url))]
            normalizes::<E, N>(normalize, seeds[i]@, Ok(url)) && url.text == list[i];
        assert(normalizes::<E, N>(normalize, seeds[i]@, Ok(url)));
        let raw = choose|raw: &str|
            #![trigger call_ensures(normalize, (raw,), Ok::<NormalizedUrl, E>(url))]
            raw@ == seeds[i]@ && call_ensures(normalize, (raw,), Ok(url));
        assert(call_ensures(normalize, (raw,), Ok(url)));
    }
}

/// Whether some seed is refused with the error, after every seed before it was
/// taken.
pub open spec fn is_refused<E, N: Fn(&str) -> Result<NormalizedUrl, E>>(
    normalize: N,
    seeds: Seq<String>,
    error: E,
) -> bool {
    exists|raw: &str, i: int, list: Seq<String>|
        #![trigger call_ensures(normalize, (raw,), Err(error)), are_normal::<E, N>(normalize, seeds.take(i), list)]
        {
            &&& 0 <= i < seeds.len()
            &&& raw@ == seeds[i]@
            &&& call_ensures(normalize, (raw,), Err(error))
            &&& are_normal::<E, N>(normalize, seeds.take(i), list)
        }
}

proof fn first_refusal_is_a_refusal<E, N: Fn(&str) -> Result<NormalizedUrl, E>>(
    normalize: N,
    seeds: Seq<String>,
    error: E,
)
    requires
        first_refusal::<E, N>(normalize, seeds, error),
    ensures
        is_refused::<E, N>(normalize, seeds, error),
{
    let (i, front) = choose|i: int, front: Seq<String>|
        #![trigger normal_forms::<E, N>(normalize, seeds.take(i), front)]
        {
            &&& 0 <= i < seeds.len()
            &&& normal_forms::<E, N>(normalize, seeds.take(i), front)
            &&& normalizes::<E, N>(normalize, seeds[i]@, Err(error))
        };
    normal_forms_are_normal::<E, N>(normalize, seeds.take(i), front);
    assert(normalizes::<E, N>(normalize, seeds[i]@, Err(error)));
    let raw = choose|raw: &str|
        #![trigger call_ensures(normalize, (raw,), Err::<NormalizedUrl, E>(error))]
        raw@ == seeds[i]@ && call_ensures(normalize, (raw,), Err(error));
    assert(call_ensures(normalize, (raw,), Err(error)));
    assert(are_normal::<E, N>(normalize, seeds.take(i), front));
}

/// The seeds in normal form are the texts that the normalizer gave for them, one
/// for each and in order; an error is that of the first seed that it refused.
pub proof fn seeds_are_normalized_in_order<E, N: Fn(&str) -> Result<NormalizedUrl, E>>(
    seeds: &Vec<String>,
    normalize: &N,
    r: Result<Vec<String>, E>,
)
    requires
        call_ensures(normalize_seeds::<E, N>, (seeds, normalize), r),
    ensures
        match r {
            Ok(list) => are_normal::<E, N>(*normalize, seeds@, list@),
            Err(error) => is_refused::<E, N>(*normalize, seeds@, error),
        },
{
    match r {
        Ok(list) => normal_forms_are_normal::<E, N>(*normalize, seeds@, list@),
        Err(error) => first_refusal_is_a_refusal::<E, N>(*normalize, seeds@, error),
    }
}

/// Whether the job is a new one that holds what the request asks for: every
/// limit as asked where it lies inside its bounds, and else the nearer bound;
/// nothing of a run yet.
pub open spec fn holds_what_was_asked<S, R>(
    job: CrawlJob<S, R>,
    user_id: UserId,
    req: NewJob<S, R>,
    job_id: CrawlJobId,
    now: TimestampMs,
) -> bool {
    &&& job.job_id.raw@ == job_id.raw@
    &&& job.user_id.raw@ == user_id.raw@
    &&& job.name@ == req.name@
    &&& job.scope == req.scope
    &&& job.max_depth == req.max_depth
    &&& req.max_urls >= 1 ==> job.max_urls == req.max_urls
    &&& req.max_urls < 1 ==> job.max_urls == 1
    &&& job.render_mode == req.render_mode
    &&& 1 <= req.concurrency <= 64 ==> job.concurrency == req.concurrency
    &&& req.concurrency < 1 ==> job.concurrency == 1
    &&& req.concurrency > 64 ==> job.concurrency == 64
    &&& 1 <= req.per_host_concurrency <= 16 ==> job.per_host_concurrency == req.per_host_concurrency
    &&& req.per_host_concurrency < 1 ==> job.per_host_concurrency == 1
    &&& req.per_host_concurrency > 16 ==> job.per_host_concurrency == 16
    &&& job.delay_ms == req.delay_ms
    &&& job.respect_robots == req.respect_robots
    &&& job.user_agent is None
    &&& job.sink == req.sink
    &&& job.status is Draft
    &&& job.error_detail is None
    &&& job.started_at is None
    &&& job.finished_at is None
    &&& job.created_at == now
    &&& job.updated_at == now
}

/// A draft holds what was asked for, with the seeds that it was handed.
pub proof fn draft_holds_what_was_asked<S, R>(
    user_id: &UserId,
    req: NewJob<S, R>,
    seeds: Vec<String>,
    job_id: CrawlJobId,
    now: TimestampMs,
    r: CrawlJob<S, R>,
)
    requires
        call_ensures(draft_job::<S, R>, (user_id, req, seeds, job_id, now), r),
    ensures
        holds_what_was_asked(r, *user_id, req, job_id, now),
        r.seeds@ == seeds@,
{
}

/// Creating a job: a request without seeds, and no other, is refused, in these
/// words. A job that comes back holds what was asked for, its seeds are the
/// normal forms of the seeds asked for, and its scope was compiled with those
/// seeds. Any other error is that of a seed that the normalizer refused, or of
/// the scope, compiled with the seeds in normal form.
pub proof fn created_job_holds_what_was_asked<
    S,
    R,
    M,
    E,
    N: Fn(&str) -> Result<NormalizedUrl, E>,
    C: Fn(&S, &Vec<String>) -> Result<M, E>,
>(
    user_id: &UserId,
    req: NewJob<S, R>,
    job_id: CrawlJobId,
    now: TimestampMs,
    normalize: N,
    compile_scope: C,
    r: Result<CrawlJob<S, R>, Failure<E>>,
)
    requires
        call_ensures(
            create_job::<S, R, M, E, N, C>,
            (user_id, req, job_id, now, normalize, compile_scope),
            r,
        ),
    ensures
        match r {
            Ok(job) => {
                &&& req.seeds@.len() > 0
                &&& holds_what_was_asked(job, *user_id, req, job_id, now)
                &&& are_normal::<E, N>(normalize, req.seeds@, job.seeds@)
                &&& exists|list: Vec<String>, matcher: M|
                    #![trigger call_ensures(compile_scope, (&req.scope, &list), Ok(matcher))]
                    list@ == job.seeds@ && call_ensures(
                        compile_scope,
                        (&req.scope, &list),
                        Ok(matcher),
                    )
            },
            Err(Failure::Refused(error)) => {
                &&& req.seeds@.len() == 0
                &&& error matches CrawlError::UrlRejected(text) && text@
                    == "a crawl job needs at least one seed"@
            },
            Err(Failure::Passed(error)) => {
                &&& req.seeds@.len() > 0
                &&& is_refused::<E, N>(normalize, req.seeds@, error) || exists|list: Vec<String>|
                    #![trigger call_ensures(compile_scope, (&req.scope, &list), Err(error))]
                    are_normal::<E, N>(normalize, req.seeds@, list@) && call_ensures(
                        compile_scope,
                        (&req.scope, &list),
                        Err(error),
                    )
            },
        },
{
    match r {
        Ok(job) => {
            normal_forms_are_normal::<E, N>(normalize, req.seeds@, job.seeds@);
            let matcher = choose|matcher: M|
                #![trigger compiles::<S, M, E, C>(compile_scope, req.scope, job.seeds@, Ok(matcher))]
                compiles::<S, M, E, C>(compile_scope, req.scope, job.seeds@, Ok(matcher));
            assert(compiles::<S, M, E, C>(compile_scope, req.scope, job.seeds@, Ok(matcher)));
            let list = choose|list: Vec<String>|
                #![trigger call_ensures(compile_scope, (&req.scope, &list), Ok::<M, E>(matcher))]
                list@ == job.seeds@ && call_ensures(
                    compile_scope,
                    (&req.scope, &list),
                    Ok(matcher),
                );
            assert(call_ensures(compile_scope, (&req.scope, &list), Ok(matcher)));
        },
        Err(Failure::Refused(_)) => {},
        Err(Failure::Passed(error)) => {
            if first_refusal::<E, N>(normalize, req.seeds@, error) {
                first_refusal_is_a_refusal::<E, N>(normalize, req.seeds@, error);
            } else {
                let seeds = choose|seeds: Seq<String>|
                    #![trigger normal_forms::<E, N>(normalize, req.seeds@, seeds)]
                    normal_forms::<E, N>(normalize, req.seeds@, seeds) && compiles::<S, M, E, C>(
                        compile_scope,
                        req.scope,
                        seeds,
                        Err(error),
                    );
                normal_forms_are_normal::<E, N>(normalize, req.seeds@, seeds);
                let list = choose|list: Vec<String>|
                    #![trigger call_ensures(compile_scope, (&req.scope, &list), Err::<M, E>(error))]
                    list@ == seeds && call_ensures(
                        compile_scope,
                        (&req.scope, &list),
                        Err(error),
                    );
                assert(call_ensures(compile_scope, (&req.scope, &list), Err::<M, E>(error)));
            }
        },
    }
}

/// A request whose seeds and scope nobody refuses is taken.
pub proof fn good_request_is_taken<
    S,
    R,
    M,
    E,
    N: Fn(&str) -> Result<NormalizedUrl, E>,
    C: Fn(&S, &Vec<String>) -> Result<M, E>,
>(
    user_id: &UserId,
    req: NewJob<S, R>,
    job_id: CrawlJobId,
    now: TimestampMs,
    normalize: N,
    compile_scope: C,
    r: Result<CrawlJob<S, R>, Failure<E>>,
)
    requires
        call_ensures(
            create_job::<S, R, M, E, N, C>,
            (user_id, req, job_id, now, normalize, compile_scope),
            r,
        ),
        req.seeds@.len() > 0,
        forall|raw: &str, error: E| !call_ensures(normalize, (raw,), Err(error)),
        forall|list: Vec<String>, error: E|
            !#[trigger] call_ensures(compile_scope, (&req.scope, &list), Err::<M, E>(error)),
    ensures
        r is Ok,
{
    created_job_holds_what_was_asked::<S, R, M, E, N, C>(
        user_id,
        req,
        job_id,
        now,
        normalize,
        compile_scope,
        r,
    );
}

/// Access to a job depends on nothing of it but its owner. A user gets their own
/// job, that very one, in whatever state it is. Another user's job is answered
/// like one that is not there, with the id that was asked for; and an error of
/// the store is passed on.
pub proof fn access_depends_on_the_owner_alone<S, R, E>(
    user_id: &UserId,
    job_id: &CrawlJobId,
    lookup: Result<Option<CrawlJob<S, R>>, E>,
    r: Result<CrawlJob<S, R>, Failure<E>>,
)
    requires
        call_ensures(owned_job::<S, R, E>, (user_id, job_id, lookup), r),
    ensures
        match lookup {
            Ok(Some(job)) => if job.user_id.raw@ == user_id.raw@ {
                r == Ok::<CrawlJob<S, R>, Failure<E>>(job)
            } else {
                r matches Err(Failure::Refused(CrawlError::JobNotFound(text))) && text@
                    == job_id.raw@
            },
            Ok(None) => r matches Err(Failure::Refused(CrawlError::JobNotFound(text))) && text@
                == job_id.raw@,
            Err(error) => r == Err::<CrawlJob<S, R>, Failure<E>>(Failure::Passed(error)),
        },
{
}

/// The same holds of starting, cancelling and deleting a job: each asks whether
/// the job that was found has the user as its owner, and nothing else of it.
pub proof fn requests_ask_for_the_owner_alone<S, R>(
    user_id: UserId,
    found: Option<CrawlJob<S, R>>,
)
    ensures
        owns(user_id, found) <==> (found matches Some(job) && job.user_id.raw@ == user_id.raw@),
{
}

/// A refused request names the job that was asked for.
pub proof fn refusal_names_the_job<T, E>(answer: Result<T, Failure<E>>, job_id: CrawlJobId)
    ensures
        says_not_found(answer, job_id) <==> (answer matches Err(
            Failure::Refused(CrawlError::JobNotFound(text)),
        ) && text@ == job_id.raw@),
{
}

/// Cancelling parks a job that does not run, as cancelled, and no other.
pub proof fn only_idle_jobs_are_parked(
    running: RunTable,
    job_id: CrawlJobId,
    outcome: CancelOutcome,
)
    requires
        cancels(running, job_id, outcome),
    ensures
        running.entries.contains_key(job_id.raw@) <==> outcome is Signalled,
        outcome matches CancelOutcome::Park(status) ==> status is Cancelled,
{
}

/// Whether the view shows the job as it is stored, with the counters.
pub open spec fn shows<S, R, P>(
    view: JobView<S, R, P>,
    job: CrawlJob<S, R>,
    progress: P,
) -> bool {
    &&& view.job_id@ == job.job_id.raw@
    &&& view.name == job.name
    &&& view.seeds == job.seeds
    &&& view.scope == job.scope
    &&& view.max_depth == job.max_depth
    &&& view.max_urls == job.max_urls
    &&& view.render_mode == job.render_mode
    &&& view.concurrency == job.concurrency
    &&& view.per_host_concurrency == job.per_host_concurrency
    &&& view.delay_ms == job.delay_ms
    &&& view.respect_robots == job.respect_robots
    &&& view.sink == job.sink
    &&& view.status == job.status
    &&& view.error_detail == job.error_detail
    &&& view.started_at == job.started_at
    &&& view.finished_at == job.finished_at
    &&& view.created_at == job.created_at
    &&& view.progress == progress
}

/// A view shows the job as it is stored.
pub proof fn view_shows_the_job<S, R, P>(
    job: CrawlJob<S, R>,
    progress: P,
    r: JobView<S, R, P>,
)
    requires
        call_ensures(JobView::<S, R, P>::new, (job, progress), r),
    ensures
        shows(r, job, progress),
{
}

/// A list of views shows the jobs as they are stored, each once and in order.
pub proof fn views_show_the_jobs<S, R, P>(
    jobs: Vec<(CrawlJob<S, R>, P)>,
    r: Vec<JobView<S, R, P>>,
)
    requires
        call_ensures(job_views::<S, R, P>, (jobs,), r),
    ensures
        r@.len() == jobs@.len(),
        forall|i: int| 0 <= i < jobs@.len() ==> shows(#[trigger] r@[i], jobs@[i].0, jobs@[i].1),
{
}

/// Whether the view shows the page as it is stored.
pub open spec fn shows_page<T>(view: TaskView<T>, task: CrawlTask<T>) -> bool {
    &&& view.task_id@ == task.task_id.raw@
    &&& view.url == task.url
    &&& view.host == task.host
    &&& view.depth == task.depth
    &&& view.status == task.status
    &&& view.attempt_count == task.attempt_count
    &&& view.http_status == task.http_status
    &&& view.error_code == task.error_code
    &&& view.error_detail == task.error_detail
    &&& view.completed_at == task.completed_at
}

/// A view shows the page as it is stored.
pub proof fn view_shows_the_page<T>(task: CrawlTask<T>, r: TaskView<T>)
    requires
        call_ensures(TaskView::<T>::from, (task,), r),
    ensures
        shows_page(r, task),
{
}

/// A list of views shows the pages as they are stored, each once and in order.
pub proof fn views_show_the_pages<T>(tasks: Vec<CrawlTask<T>>, r: Vec<TaskView<T>>)
    requires
        call_ensures(task_views::<T>, (tasks,), r),
    ensures
        r@.len() == tasks@.len(),
        forall|i: int| 0 <= i < tasks@.len() ==> shows_page(#[trigger] r@[i], tasks@[i]),
{
}

/// What is told of a job carries its id, its counters and the name of its state;
/// each kind of event goes by a name of its own.
pub proof fn events_tell_what_happened<P, T>(
    job_id: &CrawlJobId,
    status: &JobStatus,
    state: &str,
    progress: P,
    report: T,
    on_the_way: EventMessage<P, T>,
    settled: EventMessage<P, T>,
    at_the_end: EventMessage<P, T>,
)
    requires
        call_ensures(JobStatus::as_str, (status,), state),
        call_ensures(job_progress::<P, T>, (job_id, progress), on_the_way),
        call_ensures(task_settled::<P, T>, (report,), settled),
        call_ensures(job_finished::<P, T>, (job_id, status, progress), at_the_end),
    ensures
        on_the_way.name@ == "crawl.progress"@,
        on_the_way.event matches CrawlEvent::Progress { job_id: id, progress: counters } && id@
            == job_id.raw@ && counters == progress,
        settled.name@ == "crawl.task"@,
        settled.event == CrawlEvent::<P, T>::Task(report),
        at_the_end.name@ == "crawl.finished"@,
        at_the_end.event matches CrawlEvent::Finished {
            job_id: id,
            status: name,
            progress: counters,
        } && id@ == job_id.raw@ && name@ == state@ && counters == progress,
{
}

} // verus!
