use nomifun_crawl::events::{job_finished, job_progress, task_settled, CrawlEvent};
use nomifun_crawl::model::{
    CrawlError, CrawlJob, CrawlJobId, CrawlSink, CrawlTask, CrawlTaskId, Failure, JobStatus,
    NormalizedUrl, UserId,
};
use nomifun_crawl::running::RunningJobs;
use nomifun_crawl::service::{
    cancel_job, create_job, default_concurrency, default_delay, default_depth, default_max_urls,
    default_per_host, default_true, delete_job, job_views, owned_job, task_views, CancelOutcome,
    JobView, NewJob, TaskView, CRAWLER_USER_AGENT,
};

type Job = CrawlJob<String, u8>;

fn user(name: &str) -> UserId {
    UserId { raw: name.into() }
}

fn request(seeds: &[&str]) -> NewJob<String, u8> {
    NewJob {
        name: "Docs".into(),
        seeds: seeds.iter().map(|seed| seed.to_string()).collect(),
        scope: "same-host".into(),
        max_depth: default_depth(),
        max_urls: default_max_urls(),
        render_mode: 9,
        concurrency: default_concurrency(),
        per_host_concurrency: default_per_host(),
        delay_ms: default_delay(),
        respect_robots: default_true(),
        sink: CrawlSink::default(),
    }
}

fn normalize(seed: &str) -> Result<NormalizedUrl, String> {
    if seed.starts_with("http") {
        Ok(NormalizedUrl {
            text: format!("{seed}/"),
            host: Some("Host".into()),
            fingerprint: format!("fp-{seed}"),
        })
    } else {
        Err(format!("bad seed {seed}"))
    }
}

fn compile(scope: &String, seeds: &Vec<String>) -> Result<usize, String> {
    if scope == "[" {
        Err("bad scope".into())
    } else {
        Ok(seeds.len())
    }
}

fn create(req: NewJob<String, u8>) -> Result<Job, Failure<String>> {
    create_job(&user("u1"), req, CrawlJobId::from_text("j1"), 42, normalize, compile)
}

fn stored() -> Job {
    create(request(&["http://a"])).unwrap()
}

#[test]
fn defaults_have_their_values() {
    assert_eq!(default_depth(), 3);
    assert_eq!(default_max_urls(), 10_000);
    assert_eq!(default_concurrency(), 4);
    assert_eq!(default_per_host(), 2);
    assert_eq!(default_delay(), 500);
    assert!(default_true());
    assert!(CrawlSink::default().knowledge_base_id.is_none());
    assert_eq!(CRAWLER_USER_AGENT, "NomiFun-Crawler/1.0 (+https://www.nomifun.com)");
}

#[test]
fn job_without_seeds_is_refused() {
    match create(request(&[])) {
        Err(Failure::Refused(CrawlError::UrlRejected(text))) => {
            assert_eq!(text, "a crawl job needs at least one seed");
        }
        other => panic!("{other:?}"),
    }
}

#[test]
fn first_bad_seed_is_reported() {
    match create(request(&["http://a", "x", "y"])) {
        Err(Failure::Passed(text)) => assert_eq!(text, "bad seed x"),
        other => panic!("{other:?}"),
    }
}

#[test]
fn bad_scope_fails_at_creation() {
    let mut req = request(&["http://a"]);
    req.scope = "[".into();
    match create(req) {
        Err(Failure::Passed(text)) => assert_eq!(text, "bad scope"),
        other => panic!("{other:?}"),
    }
}

#[test]
fn created_job_is_a_draft_within_bounds() {
    let mut req = request(&["http://a", "http://b"]);
    req.max_urls = 0;
    req.concurrency = 1000;
    req.per_host_concurrency = 0;
    let job = create(req).unwrap();
    assert_eq!(job.job_id.as_str(), "j1");
    assert_eq!(job.user_id.raw, "u1");
    assert_eq!(job.name, "Docs");
    assert_eq!(job.seeds, vec!["http://a/".to_string(), "http://b/".to_string()]);
    assert_eq!(job.scope, "same-host");
    assert_eq!(job.max_depth, 3);
    assert_eq!(job.max_urls, 1);
    assert_eq!(job.render_mode, 9);
    assert_eq!(job.concurrency, 64);
    assert_eq!(job.per_host_concurrency, 1);
    assert_eq!(job.delay_ms, 500);
    assert!(job.respect_robots);
    assert!(job.user_agent.is_none());
    assert!(matches!(job.status, JobStatus::Draft));
    assert!(job.error_detail.is_none());
    assert!(job.started_at.is_none() && job.finished_at.is_none());
    assert_eq!((job.created_at, job.updated_at), (42, 42));

    let mut req = request(&["http://a"]);
    req.max_urls = u32::MAX;
    req.concurrency = 0;
    req.per_host_concurrency = 17;
    let job = create(req).unwrap();
    assert_eq!((job.max_urls, job.concurrency, job.per_host_concurrency), (u32::MAX, 1, 16));
}

#[test]
fn view_carries_the_job_over() {
    let view = JobView::new(stored(), 77u32);
    assert_eq!(view.job_id, "j1");
    assert_eq!(view.name, "Docs");
    assert_eq!(view.seeds, vec!["http://a/".to_string()]);
    assert_eq!(view.scope, "same-host");
    assert_eq!((view.max_depth, view.max_urls, view.render_mode), (3, 10_000, 9));
    assert_eq!((view.concurrency, view.per_host_concurrency, view.delay_ms), (4, 2, 500));
    assert!(view.respect_robots && view.sink.knowledge_base_id.is_none());
    assert_eq!(view.status.as_str(), "draft");
    assert!(view.error_detail.is_none() && view.started_at.is_none() && view.finished_at.is_none());
    assert_eq!((view.created_at, view.progress), (42, 77));
}

#[test]
fn views_keep_their_order() {
    let mut second = stored();
    second.job_id = CrawlJobId::from_text("j2");
    let views = job_views(vec![(stored(), 1u8), (second, 2u8)]);
    let seen: Vec<(String, u8)> = views.into_iter().map(|view| (view.job_id, view.progress)).collect();
    assert_eq!(seen, vec![("j1".to_string(), 1), ("j2".to_string(), 2)]);
}

fn task(id: &str) -> CrawlTask<u8> {
    CrawlTask {
        task_id: CrawlTaskId { raw: id.into() },
        url: "http://a/".into(),
        host: "a".into(),
        depth: 2,
        status: 5,
        attempt_count: 3,
        http_status: Some(404),
        error_code: Some("gone".into()),
        error_detail: None,
        completed_at: Some(8),
    }
}

#[test]
fn task_view_carries_the_task_over() {
    let view = TaskView::from(task("t1"));
    assert_eq!(view.task_id, "t1");
    assert_eq!((view.url.as_str(), view.host.as_str()), ("http://a/", "a"));
    assert_eq!((view.depth, view.status, view.attempt_count), (2, 5, 3));
    assert_eq!(view.http_status, Some(404));
    assert_eq!(view.error_code.as_deref(), Some("gone"));
    assert!(view.error_detail.is_none());
    assert_eq!(view.completed_at, Some(8));
    let ids: Vec<String> =
        task_views(vec![task("a"), task("b")]).into_iter().map(|view| view.task_id).collect();
    assert_eq!(ids, vec!["a".to_string(), "b".to_string()]);
}

#[test]
fn foreign_job_looks_like_a_missing_one() {
    let id = CrawlJobId::from_text("j1");
    let found: Result<Option<Job>, String> = Ok(Some(stored()));
    let foreign = owned_job(&user("u2"), &id, found);
    let nothing: Result<Option<Job>, String> = Ok(None);
    let missing = owned_job(&user("u1"), &id, nothing);
    for answer in [foreign, missing] {
        match answer {
            Err(Failure::Refused(CrawlError::JobNotFound(text))) => assert_eq!(text, "j1"),
            other => panic!("{other:?}"),
        }
    }
    let found: Result<Option<Job>, String> = Ok(Some(stored()));
    assert_eq!(owned_job(&user("u1"), &id, found).unwrap().name, "Docs");
    let broken: Result<Option<Job>, String> = Err("store is down".into());
    match owned_job(&user("u1"), &id, broken) {
        Err(Failure::Passed(text)) => assert_eq!(text, "store is down"),
        other => panic!("{other:?}"),
    }
}

#[test]
fn cancelling_parks_a_job_that_does_not_run() {
    let mut running = RunningJobs::default();
    let id = CrawlJobId::from_text("j1");
    let found: Result<Option<Job>, String> = Ok(Some(stored()));
    match cancel_job(&mut running, &user("u1"), &id, found) {
        Ok(CancelOutcome::Park(status)) => assert_eq!(status.as_str(), "cancelled"),
        other => panic!("{other:?}"),
    }
}

#[test]
fn cancelling_signals_the_run() {
    let mut running = RunningJobs::default();
    let id = CrawlJobId::from_text("j1");
    let lease = running.reserve(&id).unwrap();
    let found: Result<Option<Job>, String> = Ok(Some(stored()));
    assert!(cancel_job(&mut running, &user("u2"), &id, found.clone()).is_err());
    assert!(!lease.cancel.is_cancelled());
    assert!(matches!(
        cancel_job(&mut running, &user("u1"), &id, found),
        Ok(CancelOutcome::Signalled)
    ));
    assert!(lease.cancel.is_cancelled());
    assert!(running.reserve(&id).is_err());
}

#[test]
fn deleting_frees_the_slot_and_signals_the_run() {
    let mut running = RunningJobs::default();
    let id = CrawlJobId::from_text("j1");
    let lease = running.reserve(&id).unwrap();
    let found: Result<Option<Job>, String> = Ok(Some(stored()));
    assert!(delete_job(&mut running, &user("u2"), &id, found.clone()).is_err());
    assert!(!lease.cancel.is_cancelled());
    assert!(running.reserve(&id).is_err());
    assert!(delete_job(&mut running, &user("u1"), &id, found).is_ok());
    assert!(lease.cancel.is_cancelled());
    assert!(running.reserve(&id).is_ok());
}

#[test]
fn events_have_their_names() {
    let id = CrawlJobId::from_text("j1");
    let message = job_progress::<u8, u8>(&id, 4);
    assert_eq!(message.name, "crawl.progress");
    assert!(matches!(message.event, CrawlEvent::Progress { job_id, progress: 4 } if job_id == "j1"));
    let message = task_settled::<u8, u8>(6);
    assert_eq!(message.name, "crawl.task");
    assert!(matches!(message.event, CrawlEvent::Task(6)));
    let message = job_finished::<u8, u8>(&id, &JobStatus::Stored("completed".into()), 9);
    assert_eq!(message.name, "crawl.finished");
    match message.event {
        CrawlEvent::Finished { job_id, status, progress } => {
            assert_eq!((job_id.as_str(), status.as_str(), progress), ("j1", "completed", 9));
        }
        other => panic!("{other:?}"),
    }
    assert_eq!(JobStatus::Failed.as_str(), "failed");
}
