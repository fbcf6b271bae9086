//! What each step of a start does, from its inputs to its results.
use vstd::prelude::*;

use crate::model::{CrawlJob, DiscoveredUrl, NormalizedUrl};
use crate::service::{compiles, normalizes};
use crate::start::{
    hostless, is_seed_of, next_seed, next_seed_is, passed_over, seed_entry, start_step, user_agent,
    StartAction, StartPhase, StartReply, StartRun,
};
use crate::start_laws::is_lower_of;

verus! {

/// A seed enters the frontier if it has a host, and then as it is: with its whole
/// text, character for character, its fingerprint and its host in lower case, at
/// the top of the crawl.
pub proof fn seed_enters_as_it_is(url: NormalizedUrl, r: Option<DiscoveredUrl>)
    requires
        call_ensures(seed_entry, (url,), r),
    ensures
        r is Some <==> url.host is Some,
        r matches Some(entry) ==> {
            &&& entry.url@ == url.text@
            &&& entry.fingerprint@ == url.fingerprint@
            &&& is_lower_of(entry.host@, url.host->0@)
            &&& entry.depth == 0
            &&& entry.redirect_hops == 0
        },
{
}

/// Two seeds with different texts enter the frontier as different URLs, and two
/// with different fingerprints under different fingerprints.
pub proof fn different_seeds_enter_apart(
    a: NormalizedUrl,
    b: NormalizedUrl,
    entry_a: DiscoveredUrl,
    entry_b: DiscoveredUrl,
)
    requires
        call_ensures(seed_entry, (a,), Some(entry_a)),
        call_ensures(seed_entry, (b,), Some(entry_b)),
    ensures
        a.text@ != b.text@ <==> entry_a.url@ != entry_b.url@,
        a.fingerprint@ != b.fingerprint@ <==> entry_a.fingerprint@ != entry_b.fingerprint@,
{
    seed_enters_as_it_is(a, Some(entry_a));
    seed_enters_as_it_is(b, Some(entry_b));
}

/// Whether `normalize` may answer the seed with a URL that has no host.
pub open spec fn may_lack_a_host<E, N: Fn(&str) -> Result<NormalizedUrl, E>>(
    normalize: N,
    seed: Seq<char>,
) -> bool {
    exists|raw: &str, url: NormalizedUrl|
        #![trigger call_ensures(normalize, (raw,), Ok(url))]
        raw@ == seed && call_ensures(normalize, (raw,), Ok(url)) && url.host is None
}

/// Whether `normalize` may answer the seed with a URL that the entry is: the same
/// text at full length, the same fingerprint, and the host in lower case.
pub open spec fn may_enter_as<E, N: Fn(&str) -> Result<NormalizedUrl, E>>(
    normalize: N,
    seed: Seq<char>,
    entry: DiscoveredUrl,
) -> bool {
    exists|raw: &str, url: NormalizedUrl|
        #![trigger call_ensures(normalize, (raw,), Ok(url))]
        {
            &&& raw@ == seed
            &&& call_ensures(normalize, (raw,), Ok(url))
            &&& entry.url@ == url.text@
            &&& entry.fingerprint@ == url.fingerprint@
            &&& url.host matches Some(host) && is_lower_of(entry.host@, host@)
            &&& entry.depth == 0
            &&& entry.redirect_hops == 0
        }
}

/// Whether `normalize` may refuse the seed with the error.
pub open spec fn may_be_refused<E, N: Fn(&str) -> Result<NormalizedUrl, E>>(
    normalize: N,
    seed: Seq<char>,
    error: E,
) -> bool {
    exists|raw: &str|
        #![trigger call_ensures(normalize, (raw,), Err::<NormalizedUrl, E>(error))]
        raw@ == seed && call_ensures(normalize, (raw,), Err(error))
}

/// Whether the seed at `found` is the first, from `from` on, that is not passed
/// over for want of a host.
pub open spec fn comes_next<E, N: Fn(&str) -> Result<NormalizedUrl, E>>(
    normalize: N,
    seeds: Seq<String>,
    from: int,
    found: int,
) -> bool {
    &&& from <= found <= seeds.len()
    &&& forall|i: int|
        from <= i < found ==> may_lack_a_host::<E, N>(normalize, (#[trigger] seeds[i])@)
}

proof fn passed_seeds_lack_a_host<E, N: Fn(&str) -> Result<NormalizedUrl, E>>(
    normalize: N,
    seeds: Seq<String>,
    from: int,
    to: int,
)
    requires
        passed_over::<E, N>(normalize, seeds, from, to),
        from <= to <= seeds.len(),
    ensures
        comes_next::<E, N>(normalize, seeds, from, to),
{
    assert forall|i: int| from <= i < to implies may_lack_a_host::<E, N>(
        normalize,
        (#[trigger] seeds[i])@,
    ) by {
        assert(hostless::<E, N>(normalize, seeds[i]@));
        let url = choose|url: NormalizedUrl|
            #![trigger normalizes::<E, N>(normalize, seeds[i]@, Ok(url))]
            normalizes::<E, N>(normalize, seeds[i]@, Ok(url)) && url.host is None;
        assert(normalizes::<E, N>(normalize, seeds[i]@, Ok(url)));
        let raw = choose|raw: &str|
            #![trigger call_ensures(normalize, (raw,), Ok::<NormalizedUrl, E>(url))]
            raw@ == seeds[i]@ && call_ensures(normalize, (raw,), Ok(url));
        assert(call_ensures(normalize, (raw,), Ok(url)));
    }
}

/// Whether the search from `from` on may come to `found`.
pub open spec fn finds<E, N: Fn(&str) -> Result<NormalizedUrl, E>>(
    normalize: N,
    seeds: Seq<String>,
    from: int,
    found: Result<Option<(DiscoveredUrl, usize)>, E>,
) -> bool {
    match found {
        Ok(Some((entry, next))) => {
            &&& from < next <= seeds.len()
            &&& comes_next::<E, N>(normalize, seeds, from, next - 1)
            &&& may_enter_as::<E, N>(normalize, seeds[next - 1]@, entry)
        },
        Ok(None) => forall|i: int|
            from <= i < seeds.len() ==> may_lack_a_host::<E, N>(normalize, (#[trigger] seeds[i])@),
        Err(error) => exists|at: int|
            #![trigger comes_next::<E, N>(normalize, seeds, from, at)]
            {
                &&& comes_next::<E, N>(normalize, seeds, from, at)
                &&& at < seeds.len()
                &&& may_be_refused::<E, N>(normalize, seeds[at]@, error)
            },
    }
}

proof fn search_finds<E, N: Fn(&str) -> Result<NormalizedUrl, E>>(
    normalize: N,
    seeds: Seq<String>,
    from: int,
    found: Result<Option<(DiscoveredUrl, usize)>, E>,
)
    requires
        next_seed_is::<E, N>(normalize, seeds, from, found),
    ensures
        finds::<E, N>(normalize, seeds, from, found),
{
    match found {
        Ok(Some((entry, next))) => {
            passed_seeds_lack_a_host::<E, N>(normalize, seeds, from, next - 1);
            let seed = seeds[next - 1]@;
            let url = choose|url: NormalizedUrl|
                #![trigger normalizes::<E, N>(normalize, seed, Ok(url))]
                normalizes::<E, N>(normalize, seed, Ok(url)) && is_seed_of(entry, url@);
            assert(normalizes::<E, N>(normalize, seed, Ok(url)));
            let raw = choose|raw: &str|
                #![trigger call_ensures(normalize, (raw,), Ok::<NormalizedUrl, E>(url))]
                raw@ == seed && call_ensures(normalize, (raw,), Ok(url));
            assert(call_ensures(normalize, (raw,), Ok(url)));
            assert(is_lower_of(entry.host@, url.host->0@));
        },
        Ok(None) => {
            if from <= seeds.len() {
                passed_seeds_lack_a_host::<E, N>(normalize, seeds, from, seeds.len() as int);
            }
        },
        Err(error) => {
            let at = choose|at: int|
                #![trigger passed_over::<E, N>(normalize, seeds, from, at)]
                {
                    &&& from <= at < seeds.len()
                    &&& passed_over::<E, N>(normalize, seeds, from, at)
                    &&& normalizes::<E, N>(normalize, seeds[at]@, Err(error))
                };
            passed_seeds_lack_a_host::<E, N>(normalize, seeds, from, at);
            let raw = choose|raw: &str|
                #![trigger call_ensures(normalize, (raw,), Err::<NormalizedUrl, E>(error))]
                raw@ == seeds[at]@ && call_ensures(normalize, (raw,), Err(error));
            assert(call_ensures(normalize, (raw,), Err(error)));
            assert(may_be_refused::<E, N>(normalize, seeds[at]@, error));
        },
    }
}

/// The next seed is the first that has a host, and enters as it is; none is
/// passed over but for want of a host; and an error is that of the first seed
/// that is refused.
pub proof fn next_seed_is_the_first_with_a_host<E, N: Fn(&str) -> Result<NormalizedUrl, E>>(
    seeds: &Vec<String>,
    from: usize,
    normalize: &N,
    r: Result<Option<(DiscoveredUrl, usize)>, E>,
)
    requires
        call_ensures(next_seed::<E, N>, (seeds, from, normalize), r),
    ensures
        finds::<E, N>(*normalize, seeds@, from as int, r),
{
    search_finds::<E, N>(*normalize, seeds@, from as int, r);
}

/// A job introduces itself by its own user agent, or by the crawler's where it
/// has none.
pub proof fn job_introduces_itself<S, R>(job: &CrawlJob<S, R>, r: String)
    requires
        call_ensures(user_agent::<S, R>, (job,), r),
    ensures
        r@ == (match job.user_agent {
            Some(agent) => agent@,
            None => "NomiFun-Crawler/1.0 (+https://www.nomifun.com)"@,
        }),
{
}

/// Whether `compile_scope` may make `answer` of the scope and the seeds.
pub open spec fn may_compile_to<S, M, E, C: Fn(&S, &Vec<String>) -> Result<M, E>>(
    compile_scope: C,
    scope: S,
    seeds: Seq<String>,
    answer: Result<M, E>,
) -> bool {
    exists|list: Vec<String>|
        #![trigger call_ensures(compile_scope, (&scope, &list), answer)]
        list@ == seeds && call_ensures(compile_scope, (&scope, &list), answer)
}

/// A step that asks for a URL to be queued comes of the seeding and goes on with
/// it: the URL is the first seed that has a host and was not asked for yet, as it
/// is, and it outranks every link, with the priority of seeds.
pub proof fn step_queues_the_next_seed<
    S,
    R,
    P,
    E,
    M,
    N: Fn(&str) -> Result<NormalizedUrl, E>,
    C: Fn(&S, &Vec<String>) -> Result<M, E>,
>(
    normalize: N,
    compile_scope: C,
    run: StartRun<S, R>,
    reply: StartReply<S, R, P, E>,
    next: StartRun<S, R>,
    action: StartAction<S, R, P, E, M>,
    url: DiscoveredUrl,
    priority: i64,
)
    requires
        start_step::<S, R, P, E, M, N, C>(normalize, compile_scope, run, reply, next, action),
        action == (StartAction::<S, R, P, E, M>::Enqueue { url, priority }),
    ensures
        priority == 100,
        reply is Ready,
        run.phase matches StartPhase::Seeding { next: from } && next.phase matches StartPhase::Seeding {
            next: to,
        } && {
            &&& from < to <= run.job.seeds@.len()
            &&& comes_next::<E, N>(normalize, run.job.seeds@, from as int, to - 1)
            &&& may_enter_as::<E, N>(normalize, run.job.seeds@[to - 1]@, url)
        },
{
    let from = run.phase->next;
    let to = next.phase->Seeding_next;
    search_finds::<E, N>(normalize, run.job.seeds@, from as int, Ok(Some((url, to))));
}

/// A step that asks for the workers comes when no seed with a host is left, and
/// hands over the job's own settings: the scope compiled from its scope and its
/// seeds, its user agent or the crawler's, and its robots rule and delay.
pub proof fn step_prepares_workers_for_the_job<
    S,
    R,
    P,
    E,
    M,
    N: Fn(&str) -> Result<NormalizedUrl, E>,
    C: Fn(&S, &Vec<String>) -> Result<M, E>,
>(
    normalize: N,
    compile_scope: C,
    run: StartRun<S, R>,
    reply: StartReply<S, R, P, E>,
    next: StartRun<S, R>,
    action: StartAction<S, R, P, E, M>,
)
    requires
        start_step::<S, R, P, E, M, N, C>(normalize, compile_scope, run, reply, next, action),
    ensures
        action matches StartAction::Prepare { matcher, user_agent, respect_robots, delay_ms } ==> {
            &&& reply is Ready
            &&& next.phase is Preparing
            &&& run.phase matches StartPhase::Seeding { next: from } && forall|i: int|
                from <= i < run.job.seeds@.len() ==> may_lack_a_host::<E, N>(
                    normalize,
                    (#[trigger] run.job.seeds@[i])@,
                )
            &&& may_compile_to::<S, M, E, C>(
                compile_scope,
                run.job.scope,
                run.job.seeds@,
                Ok(matcher),
            )
            &&& user_agent@ == (match run.job.user_agent {
                Some(agent) => agent@,
                None => "NomiFun-Crawler/1.0 (+https://www.nomifun.com)"@,
            })
            &&& respect_robots == run.job.respect_robots
            &&& delay_ms == run.job.delay_ms
        },
{
    if let StartAction::Prepare { matcher, .. } = action {
        let from = run.phase->next;
        search_finds::<E, N>(normalize, run.job.seeds@, from as int, Ok(None));
        assert(compiles::<S, M, E, C>(
            compile_scope,
            run.job.scope,
            run.job.seeds@,
            Ok(matcher),
        ));
        assert(may_compile_to::<S, M, E, C>(
            compile_scope,
            run.job.scope,
            run.job.seeds@,
            Ok(matcher),
        ));
    }
}

/// Behind the seeding every step is fixed by the reply: workers prepared, the job
/// is marked; marked, it is read; read, its tasks are counted; counted, it is
/// launched, as it was read and with the counts. None of these comes otherwise.
/// The job and the lease stay the same through all steps.
pub proof fn steps_come_in_order<
    S,
    R,
    P,
    E,
    M,
    N: Fn(&str) -> Result<NormalizedUrl, E>,
    C: Fn(&S, &Vec<String>) -> Result<M, E>,
>(
    normalize: N,
    compile_scope: C,
    run: StartRun<S, R>,
    reply: StartReply<S, R, P, E>,
    next: StartRun<S, R>,
    action: StartAction<S, R, P, E, M>,
)
    requires
        start_step::<S, R, P, E, M, N, C>(normalize, compile_scope, run, reply, next, action),
    ensures
        next.job == run.job,
        next.lease == run.lease,
        action is MarkRunning <==> run.phase is Preparing && reply is Ready,
        action is MarkRunning ==> next.phase is Marking,
        action is LoadJob <==> run.phase is Marking && reply is Ready,
        action is LoadJob ==> next.phase is Loading,
        action is CountTasks <==> run.phase is Loading && reply is Loaded,
        action is CountTasks ==> next.phase is Counting && next.phase->job == reply->Loaded_0,
        action is Launch <==> run.phase is Counting && reply is Counted,
        action matches StartAction::Launch { job, progress } ==> next.phase is Over && job
            == run.phase->job && progress == reply->Counted_0,
{
}

/// A step that does not fit changes nothing, and a step is out of turn only where
/// the start is over, or where the reply is none to the last action.
pub proof fn only_unfitting_replies_are_out_of_turn<
    S,
    R,
    P,
    E,
    M,
    N: Fn(&str) -> Result<NormalizedUrl, E>,
    C: Fn(&S, &Vec<String>) -> Result<M, E>,
>(
    normalize: N,
    compile_scope: C,
    run: StartRun<S, R>,
    reply: StartReply<S, R, P, E>,
    next: StartRun<S, R>,
    action: StartAction<S, R, P, E, M>,
)
    requires
        start_step::<S, R, P, E, M, N, C>(normalize, compile_scope, run, reply, next, action),
    ensures
        action is OutOfTurn ==> next == run,
        action is OutOfTurn <==> (run.phase is Over || !(reply is Failed) && !(match run.phase {
            StartPhase::Loading => reply is Loaded,
            StartPhase::Counting { .. } => reply is Counted,
            _ => reply is Ready,
        })),
{
}

/// Whether the step ends the start with this error. The failure is recorded if
/// the job was marked as running, in the words that came with it, and else not.
pub open spec fn ends_with_error<S, R, P, E, M>(
    run: StartRun<S, R>,
    error: E,
    words: Seq<char>,
    next: StartRun<S, R>,
    action: StartAction<S, R, P, E, M>,
) -> bool {
    &&& next.phase is Over
    &&& action matches StartAction::Abort { error: answer, record } && {
        &&& answer == error
        &&& if run.phase is Loading || run.phase is Counting {
            record matches Some((status, detail)) && status is Failed && detail@ == words
        } else {
            record is None
        }
    }
}

/// A step that fails ends the start with that very error; and a start ends with
/// an error only where a step failed, where a seed was refused, or where the
/// job's own scope did not compile with its own seeds.
pub proof fn failure_ends_the_start<
    S,
    R,
    P,
    E,
    M,
    N: Fn(&str) -> Result<NormalizedUrl, E>,
    C: Fn(&S, &Vec<String>) -> Result<M, E>,
>(
    normalize: N,
    compile_scope: C,
    run: StartRun<S, R>,
    reply: StartReply<S, R, P, E>,
    next: StartRun<S, R>,
    action: StartAction<S, R, P, E, M>,
)
    requires
        start_step::<S, R, P, E, M, N, C>(normalize, compile_scope, run, reply, next, action),
    ensures
        !(run.phase is Over) && reply is Failed ==> ends_with_error(
            run,
            reply->error,
            reply->detail@,
            next,
            action,
        ),
        !(reply is Failed) ==> (action matches StartAction::Abort { error, record } ==> {
            &&& reply is Ready
            &&& next.phase is Over
            &&& record is None
            &&& run.phase matches StartPhase::Seeding { next: from } && {
                ||| finds::<E, N>(normalize, run.job.seeds@, from as int, Err(error))
                ||| finds::<E, N>(normalize, run.job.seeds@, from as int, Ok(None))
                    && may_compile_to::<S, M, E, C>(
                    compile_scope,
                    run.job.scope,
                    run.job.seeds@,
                    Err(error),
                )
            }
        }),
        action is Abort ==> !(run.phase is Over),
{
    if let StartAction::Abort { error, .. } = action {
        if !(reply is Failed) {
            let from = run.phase->next;
            let seeds = run.job.seeds@;
            if next_seed_is::<E, N>(normalize, seeds, from as int, Err(error)) {
                search_finds::<E, N>(normalize, seeds, from as int, Err(error));
            } else {
                search_finds::<E, N>(normalize, seeds, from as int, Ok(None));
                assert(compiles::<S, M, E, C>(compile_scope, run.job.scope, seeds, Err(error)));
                assert(may_compile_to::<S, M, E, C>(
                    compile_scope,
                    run.job.scope,
                    seeds,
                    Err(error),
                ));
            }
        }
    }
}

} // verus!
