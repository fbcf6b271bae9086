//! What holds of every start of a job.
use vstd::prelude::*;

use crate::model::{DiscoveredUrl, NormalizedUrl, UrlText};
use crate::service::normalizes;
use crate::start::{
    hostless, marked_running, next_seed_is, passed_over, start_step, StartAction,
    StartPhase, StartReply, StartRun,
};

verus! {

/// How many steps a start can still take.
pub open spec fn steps_left<S, R>(run: StartRun<S, R>) -> nat {
    match run.phase {
        StartPhase::Seeding { next } => if next < run.job.seeds@.len() {
            (5 + run.job.seeds@.len() - next) as nat
        } else {
            5
        },
        StartPhase::Preparing => 4,
        StartPhase::Marking => 3,
        StartPhase::Loading => 2,
        StartPhase::Counting { .. } => 1,
        StartPhase::Over => 0,
    }
}

/// A start comes to an end: every reply that fits brings it at least one step
/// closer.
pub proof fn start_comes_to_an_end<
    S,
    R,
    P,
    E,
    M,
    N: Fn(&str) -> Result<NormalizedUrl, E>,
    C: Fn(&S, &Vec<String>) -> Result<M, E>,
>(
    normalize: N,
    compile_scope: C,
    run: StartRun<S, R>,
    reply: StartReply<S, R, P, E>,
    next: StartRun<S, R>,
    action: StartAction<S, R, P, E, M>,
)
    requires
        start_step::<S, R, P, E, M, N, C>(normalize, compile_scope, run, reply, next, action),
        !(action is OutOfTurn),
    ensures
        steps_left(next) < steps_left(run),
{
}

/// A failure is recorded only of a job that was marked as running: the one way
/// into the phases in which failures are recorded is that the mark was made.
pub proof fn only_the_mark_makes_failures_count<
    S,
    R,
    P,
    E,
    M,
    N: Fn(&str) -> Result<NormalizedUrl, E>,
    C: Fn(&S, &Vec<String>) -> Result<M, E>,
>(
    normalize: N,
    compile_scope: C,
    run: StartRun<S, R>,
    reply: StartReply<S, R, P, E>,
    next: StartRun<S, R>,
    action: StartAction<S, R, P, E, M>,
)
    requires
        start_step::<S, R, P, E, M, N, C>(normalize, compile_scope, run, reply, next, action),
        !marked_running(run.phase),
    ensures
        marked_running(next.phase) ==> run.phase is Marking && reply is Ready,
        action matches StartAction::Abort { record, .. } ==> record is None,
{
}

/// Whether no step has been taken yet.
pub open spec fn just_begun<S, R>(run: StartRun<S, R>) -> bool {
    run.phase matches StartPhase::Seeding { next } && next == 0
}

/// One step that was taken: the reply that asked for it, and what it came to.
pub struct StartMove<S, R, P, E, M> {
    pub reply: StartReply<S, R, P, E>,
    pub next: StartRun<S, R>,
    pub action: StartAction<S, R, P, E, M>,
}

/// Where a start is after the moves.
pub open spec fn run_after<S, R, P, E, M>(
    start: StartRun<S, R>,
    moves: Seq<StartMove<S, R, P, E, M>>,
) -> StartRun<S, R> {
    if moves.len() == 0 {
        start
    } else {
        moves.last().next
    }
}

/// Whether the moves are steps of the start, one behind the other.
pub open spec fn is_history<
    S,
    R,
    P,
    E,
    M,
    N: Fn(&str) -> Result<NormalizedUrl, E>,
    C: Fn(&S, &Vec<String>) -> Result<M, E>,
>(
    normalize: N,
    compile_scope: C,
    start: StartRun<S, R>,
    moves: Seq<StartMove<S, R, P, E, M>>,
) -> bool
    decreases moves.len(),
{
    moves.len() > 0 ==> {
        let front = moves.drop_last();
        let step = moves.last();
        &&& is_history::<S, R, P, E, M, N, C>(normalize, compile_scope, start, front)
        &&& start_step::<S, R, P, E, M, N, C>(
            normalize,
            compile_scope,
            run_after(start, front),
            step.reply,
            step.next,
            step.action,
        )
    }
}

/// What the moves put into the frontier, in order.
pub open spec fn queued<S, R, P, E, M>(moves: Seq<StartMove<S, R, P, E, M>>) -> Seq<DiscoveredUrl>
    decreases moves.len(),
{
    if moves.len() == 0 {
        Seq::empty()
    } else {
        match moves.last().action {
            StartAction::Enqueue { url, .. } => queued(moves.drop_last()).push(url),
            _ => queued(moves.drop_last()),
        }
    }
}

/// Whether `normalize` reads every text as `reads` says: it answers with a URL
/// that is written that way, or refuses the text, with whatever error, where
/// `reads` has nothing.
pub open spec fn answers_as<E, N: Fn(&str) -> Result<NormalizedUrl, E>>(
    normalize: N,
    reads: spec_fn(Seq<char>) -> Option<UrlText>,
) -> bool {
    forall|text: Seq<char>, answer: Result<NormalizedUrl, E>| #[trigger]
        normalizes::<E, N>(normalize, text, answer) ==> match answer {
            Ok(url) => reads(text) == Some(url@),
            Err(_) => reads(text) is None,
        }
}

/// The seeds that have a host, in order.
pub open spec fn with_host(
    seeds: Seq<String>,
    reads: spec_fn(Seq<char>) -> Option<UrlText>,
) -> Seq<UrlText>
    decreases seeds.len(),
{
    if seeds.len() == 0 {
        Seq::empty()
    } else {
        match reads(seeds.last()@) {
            Some(url) => if url.host is Some {
                with_host(seeds.drop_last(), reads).push(url)
            } else {
                with_host(seeds.drop_last(), reads)
            },
            None => with_host(seeds.drop_last(), reads),
        }
    }
}

/// Whether `out` is the text in lower case: the same characters, one for one,
/// with the capitals moved to the small letters.
pub open spec fn is_lower_of(out: Seq<char>, text: Seq<char>) -> bool {
    &&& out.len() == text.len()
    &&& forall|i: int|
        #![trigger out[i]]
        0 <= i < text.len() ==> if 65 <= text[i] as u32 <= 90 {
            out[i] as u32 == text[i] as u32 + 32
        } else {
            out[i] == text[i]
        }
}

/// Whether the entries stand for the URLs, one for one: each holds the whole text
/// and the fingerprint of its URL, and its host in lower case.
pub open spec fn stand_for(entries: Seq<DiscoveredUrl>, urls: Seq<UrlText>) -> bool {
    &&& entries.len() == urls.len()
    &&& forall|i: int|
        0 <= i < urls.len() ==> {
            &&& (#[trigger] entries[i]).url@ == urls[i].text
            &&& entries[i].fingerprint@ == urls[i].fingerprint
            &&& urls[i].host matches Some(host) && is_lower_of(entries[i].host@, host)
            &&& entries[i].depth == 0
            &&& entries[i].redirect_hops == 0
        }
}

proof fn hostless_seeds_add_nothing<E, N: Fn(&str) -> Result<NormalizedUrl, E>>(
    normalize: N,
    reads: spec_fn(Seq<char>) -> Option<UrlText>,
    seeds: Seq<String>,
    from: int,
    to: int,
)
    requires
        answers_as::<E, N>(normalize, reads),
        0 <= from <= to <= seeds.len(),
        passed_over::<E, N>(normalize, seeds, from, to),
    ensures
        with_host(seeds.take(to), reads) == with_host(seeds.take(from), reads),
        forall|i: int| from <= i < to ==> reads((#[trigger] seeds[i])@) is Some,
    decreases to - from,
{
    if from < to {
        hostless_seeds_add_nothing::<E, N>(normalize, reads, seeds, from, to - 1);
        assert(hostless::<E, N>(normalize, seeds[to - 1]@));
        assert(seeds.take(to).drop_last() == seeds.take(to - 1));
    }
}

proof fn history_queues_seeds<
    S,
    R,
    P,
    E,
    M,
    N: Fn(&str) -> Result<NormalizedUrl, E>,
    C: Fn(&S, &Vec<String>) -> Result<M, E>,
>(
    normalize: N,
    compile_scope: C,
    reads: spec_fn(Seq<char>) -> Option<UrlText>,
    start: StartRun<S, R>,
    moves: Seq<StartMove<S, R, P, E, M>>,
)
    requires
        answers_as::<E, N>(normalize, reads),
        just_begun(start),
        is_history::<S, R, P, E, M, N, C>(normalize, compile_scope, start, moves),
    ensures
        ({
            let seeds = start.job.seeds@;
            let end = run_after(start, moves);
            &&& end.job == start.job
            &&& match end.phase {
                StartPhase::Seeding { next } => {
                    &&& next <= seeds.len()
                    &&& stand_for(queued(moves), with_host(seeds.take(next as int), reads))
                    &&& forall|i: int| 0 <= i < next ==> reads((#[trigger] seeds[i])@) is Some
                },
                StartPhase::Over => moves.len() > 0 && moves.last().action is Launch ==> {
                    &&& stand_for(queued(moves), with_host(seeds, reads))
                    &&& forall|i: int| 0 <= i < seeds.len() ==> reads((#[trigger] seeds[i])@) is Some
                },
                _ => {
                    &&& stand_for(queued(moves), with_host(seeds, reads))
                    &&& forall|i: int| 0 <= i < seeds.len() ==> reads((#[trigger] seeds[i])@) is Some
                },
            }
        }),
    decreases moves.len(),
{
    let seeds = start.job.seeds@;
    if moves.len() == 0 {
        assert(with_host(seeds.take(0), reads) =~= Seq::empty());
    } else {
        let front = moves.drop_last();
        let step = moves.last();
        let run = run_after(start, front);
        history_queues_seeds::<S, R, P, E, M, N, C>(normalize, compile_scope, reads, start, front);
        if let StartPhase::Seeding { next: from } = run.phase {
            if let StartReply::Ready = step.reply {
                if let StartAction::Enqueue { url: entry, .. } = step.action {
                    let to = step.next.phase->next;
                    assert(next_seed_is::<E, N>(
                        normalize,
                        seeds,
                        from as int,
                        Ok(Some((entry, to))),
                    ));
                    hostless_seeds_add_nothing::<E, N>(
                        normalize,
                        reads,
                        seeds,
                        from as int,
                        to - 1,
                    );
                    assert(seeds.take(to as int).drop_last() == seeds.take(to - 1));
                    assert(seeds.take(to as int).last() == seeds[to - 1]);
                } else if let StartAction::Prepare { .. } = step.action {
                    hostless_seeds_add_nothing::<E, N>(
                        normalize,
                        reads,
                        seeds,
                        from as int,
                        seeds.len() as int,
                    );
                    assert(seeds.take(seeds.len() as int) == seeds);
                }
            }
        }
    }
}

/// A job is launched only when its frontier holds its seeds: every seed has a
/// normal form, and the start has put those that have a host into the frontier,
/// each once and in order, and nothing else.
pub proof fn seeds_are_queued_before_launch<
    S,
    R,
    P,
    E,
    M,
    N: Fn(&str) -> Result<NormalizedUrl, E>,
    C: Fn(&S, &Vec<String>) -> Result<M, E>,
>(
    normalize: N,
    compile_scope: C,
    reads: spec_fn(Seq<char>) -> Option<UrlText>,
    start: StartRun<S, R>,
    moves: Seq<StartMove<S, R, P, E, M>>,
)
    requires
        answers_as::<E, N>(normalize, reads),
        just_begun(start),
        is_history::<S, R, P, E, M, N, C>(normalize, compile_scope, start, moves),
        moves.len() > 0,
        moves.last().action is Launch,
    ensures
        forall|i: int|
            0 <= i < start.job.seeds@.len() ==> reads((#[trigger] start.job.seeds@[i])@) is Some,
        stand_for(queued(moves), with_host(start.job.seeds@, reads)),
{
    history_queues_seeds::<S, R, P, E, M, N, C>(normalize, compile_scope, reads, start, moves);
}

/// Whether the two lists hold the same texts.
pub open spec fn same_texts(a: Seq<String>, b: Seq<String>) -> bool {
    a.len() == b.len() && forall|i: int| 0 <= i < a.len() ==> (#[trigger] a[i])@ == b[i]@
}

/// Whether the frontier cannot tell the two URLs apart.
pub open spec fn same_entry(a: DiscoveredUrl, b: DiscoveredUrl) -> bool {
    &&& a.fingerprint@ == b.fingerprint@
    &&& a.host@ == b.host@
    &&& a.url@ == b.url@
    &&& a.depth == b.depth
    &&& a.redirect_hops == b.redirect_hops
}

proof fn same_texts_have_the_same_hosts(
    a: Seq<String>,
    b: Seq<String>,
    reads: spec_fn(Seq<char>) -> Option<UrlText>,
)
    requires
        same_texts(a, b),
    ensures
        with_host(a, reads) == with_host(b, reads),
    decreases a.len(),
{
    if a.len() > 0 {
        assert(same_texts(a.drop_last(), b.drop_last()));
        assert(a.last()@ == b.last()@) by {
            assert(a[a.len() - 1]@ == b[a.len() - 1]@);
        }
        same_texts_have_the_same_hosts(a.drop_last(), b.drop_last(), reads);
    }
}

/// Seeding is idempotent: a job that starts again with the same seeds asks for
/// the same URLs to be in the frontier, in the same order, and for no other. The
/// two starts need not share a normalizer, only what it reads.
pub proof fn starting_again_queues_the_same<
    S,
    R,
    P,
    E,
    M,
    N: Fn(&str) -> Result<NormalizedUrl, E>,
    C: Fn(&S, &Vec<String>) -> Result<M, E>,
    O: Fn(&str) -> Result<NormalizedUrl, E>,
    D: Fn(&S, &Vec<String>) -> Result<M, E>,
>(
    first_normalize: N,
    first_compile: C,
    second_normalize: O,
    second_compile: D,
    reads: spec_fn(Seq<char>) -> Option<UrlText>,
    first: StartRun<S, R>,
    first_moves: Seq<StartMove<S, R, P, E, M>>,
    second: StartRun<S, R>,
    second_moves: Seq<StartMove<S, R, P, E, M>>,
)
    requires
        answers_as::<E, N>(first_normalize, reads),
        answers_as::<E, O>(second_normalize, reads),
        same_texts(first.job.seeds@, second.job.seeds@),
        just_begun(first),
        is_history::<S, R, P, E, M, N, C>(first_normalize, first_compile, first, first_moves),
        first_moves.len() > 0,
        first_moves.last().action is Launch,
        just_begun(second),
        is_history::<S, R, P, E, M, O, D>(
            second_normalize,
            second_compile,
            second,
            second_moves,
        ),
        second_moves.len() > 0,
        second_moves.last().action is Launch,
    ensures
        queued(first_moves).len() == queued(second_moves).len(),
        forall|i: int|
            0 <= i < queued(first_moves).len() ==> same_entry(
                #[trigger] queued(first_moves)[i],
                queued(second_moves)[i],
            ),
{
    seeds_are_queued_before_launch::<S, R, P, E, M, N, C>(
        first_normalize,
        first_compile,
        reads,
        first,
        first_moves,
    );
    seeds_are_queued_before_launch::<S, R, P, E, M, O, D>(
        second_normalize,
        second_compile,
        reads,
        second,
        second_moves,
    );
    same_texts_have_the_same_hosts(first.job.seeds@, second.job.seeds@, reads);
    let urls = with_host(first.job.seeds@, reads);
    assert forall|i: int| 0 <= i < queued(first_moves).len() implies same_entry(
        #[trigger] queued(first_moves)[i],
        queued(second_moves)[i],
    ) by {
        let a = queued(first_moves)[i];
        let b = queued(second_moves)[i];
        assert(a.url@ == urls[i].text && b.url@ == urls[i].text);
        assert forall|j: int| 0 <= j < a.host@.len() implies a.host@[j] == b.host@[j] by {
            let host = urls[i].host->0;
            assert(is_lower_of(a.host@, host) && is_lower_of(b.host@, host));
            vstd::utf8::char_u32_cast(a.host@[j], a.host@[j] as u32);
            vstd::utf8::char_u32_cast(b.host@[j], b.host@[j] as u32);
        }
        assert(a.host@ =~= b.host@);
    }
}

/// Whether one of the seeds has a host and is written this way in normal form.
pub open spec fn is_text_of_a_seed(
    text: Seq<char>,
    seeds: Seq<String>,
    reads: spec_fn(Seq<char>) -> Option<UrlText>,
) -> bool {
    exists|i: int|
        0 <= i < seeds.len() && (reads((#[trigger] seeds[i])@) matches Some(url) && url.host is Some
            && url.text == text)
}

/// A job is launched only when its frontier holds every seed that has a host,
/// with the whole text that the normalizer gave for it, and holds no URL that is
/// none of its seeds'.
pub proof fn launch_finds_every_seed_queued<
    S,
    R,
    P,
    E,
    M,
    N: Fn(&str) -> Result<NormalizedUrl, E>,
    C: Fn(&S, &Vec<String>) -> Result<M, E>,
>(
    normalize: N,
    compile_scope: C,
    reads: spec_fn(Seq<char>) -> Option<UrlText>,
    start: StartRun<S, R>,
    moves: Seq<StartMove<S, R, P, E, M>>,
)
    requires
        answers_as::<E, N>(normalize, reads),
        just_begun(start),
        is_history::<S, R, P, E, M, N, C>(normalize, compile_scope, start, moves),
        moves.len() > 0,
        moves.last().action is Launch,
    ensures
        forall|i: int|
            0 <= i < start.job.seeds@.len() ==> match reads((#[trigger] start.job.seeds@[i])@) {
                Some(url) => url.host is Some ==> exists|k: int|
                    0 <= k < queued(moves).len() && (#[trigger] queued(moves)[k]).url@ == url.text
                        && queued(moves)[k].fingerprint@ == url.fingerprint,
                None => false,
            },
        forall|k: int|
            0 <= k < queued(moves).len() ==> is_text_of_a_seed(
                (#[trigger] queued(moves)[k]).url@,
                start.job.seeds@,
                reads,
            ),
{
    seeds_are_queued_before_launch::<S, R, P, E, M, N, C>(
        normalize,
        compile_scope,
        reads,
        start,
        moves,
    );
    let seeds = start.job.seeds@;
    let urls = with_host(seeds, reads);
    assert forall|i: int| 0 <= i < seeds.len() implies match reads((#[trigger] seeds[i])@) {
        Some(url) => url.host is Some ==> exists|k: int|
            0 <= k < queued(moves).len() && (#[trigger] queued(moves)[k]).url@ == url.text
                && queued(moves)[k].fingerprint@ == url.fingerprint,
        None => false,
    } by {
        let url = reads(seeds[i]@)->0;
        if url.host is Some {
            seed_is_among(seeds, reads, i);
            let k = choose|k: int| 0 <= k < urls.len() && urls[k] == url;
            assert(queued(moves)[k].url@ == url.text);
        }
    }
    assert forall|k: int| 0 <= k < queued(moves).len() implies is_text_of_a_seed(
        (#[trigger] queued(moves)[k]).url@,
        seeds,
        reads,
    ) by {
        comes_from_a_seed(seeds, reads, k);
        assert(queued(moves)[k].url@ == urls[k].text);
    }
}

proof fn seed_is_among(
    seeds: Seq<String>,
    reads: spec_fn(Seq<char>) -> Option<UrlText>,
    i: int,
)
    requires
        0 <= i < seeds.len(),
        reads(seeds[i]@) matches Some(url) && url.host is Some,
    ensures
        exists|k: int|
            0 <= k < with_host(seeds, reads).len() && Some(#[trigger] with_host(seeds, reads)[k])
                == reads(seeds[i]@),
    decreases seeds.len(),
{
    let urls = with_host(seeds, reads);
    let front = with_host(seeds.drop_last(), reads);
    if i == seeds.len() - 1 {
        assert(Some(urls[urls.len() - 1]) == reads(seeds[i]@));
    } else {
        assert(seeds.drop_last()[i] == seeds[i]);
        seed_is_among(seeds.drop_last(), reads, i);
        let k = choose|k: int|
            0 <= k < front.len() && Some(#[trigger] front[k]) == reads(seeds[i]@);
        assert(urls[k] == front[k]);
    }
}

proof fn comes_from_a_seed(
    seeds: Seq<String>,
    reads: spec_fn(Seq<char>) -> Option<UrlText>,
    k: int,
)
    requires
        0 <= k < with_host(seeds, reads).len(),
    ensures
        exists|i: int|
            0 <= i < seeds.len() && reads((#[trigger] seeds[i])@) == Some(with_host(seeds, reads)[k])
                && with_host(seeds, reads)[k].host is Some,
    decreases seeds.len(),
{
    let urls = with_host(seeds, reads);
    let front = with_host(seeds.drop_last(), reads);
    if k < front.len() {
        assert(urls[k] == front[k]);
        comes_from_a_seed(seeds.drop_last(), reads, k);
        let i = choose|i: int|
            0 <= i < seeds.drop_last().len() && reads((#[trigger] seeds.drop_last()[i])@) == Some(
                front[k],
            ) && front[k].host is Some;
        assert(seeds.drop_last()[i] == seeds[i]);
    } else {
        assert(reads(seeds[seeds.len() - 1]@) == Some(urls[k]));
    }
}

} // verus!
