use nomifun_crawl::model::{
    AppError, CrawlError, CrawlJob, CrawlJobId, CrawlSink, Failure, JobStatus, NormalizedUrl,
    UserId,
};
use nomifun_crawl::running::RunningJobs;
use nomifun_crawl::start::{StartAction, StartPhase, StartReply, StartRun};

type Job = CrawlJob<u8, ()>;
type Run = StartRun<u8, ()>;
type Reply = StartReply<u8, (), u8, String>;
type Action = StartAction<u8, (), u8, String, String>;

fn id() -> CrawlJobId {
    CrawlJobId::from_text("j1")
}

fn owner() -> UserId {
    UserId { raw: "u1".into() }
}

fn job(seeds: &[&str]) -> Job {
    CrawlJob {
        job_id: id(),
        user_id: owner(),
        name: "Docs".into(),
        seeds: seeds.iter().map(|seed| seed.to_string()).collect(),
        scope: 7,
        max_depth: 3,
        max_urls: 10,
        render_mode: (),
        concurrency: 1,
        per_host_concurrency: 1,
        delay_ms: 250,
        respect_robots: true,
        user_agent: None,
        sink: CrawlSink { knowledge_base_id: None },
        status: JobStatus::Draft,
        error_detail: None,
        started_at: None,
        finished_at: None,
        created_at: 0,
        updated_at: 0,
    }
}

fn normalize(seed: &str) -> Result<NormalizedUrl, String> {
    if seed == "bad" {
        return Err("bad seed".into());
    }
    Ok(NormalizedUrl {
        text: format!("http://{seed}/"),
        host: if seed.starts_with("data") { None } else { Some(seed.to_string()) },
        fingerprint: format!("fp-{seed}"),
    })
}

fn compile_scope(scope: &u8, seeds: &Vec<String>) -> Result<String, String> {
    if *scope == 0 {
        return Err("bad scope".into());
    }
    Ok(format!("{scope}:{}", seeds.join(",")))
}

fn begin(running: &mut RunningJobs, seeds: &[&str]) -> Run {
    let found: Result<Option<Job>, String> = Ok(Some(job(seeds)));
    StartRun::begin(running, &owner(), &id(), found).unwrap()
}

fn step(run: Run, running: &mut RunningJobs, reply: Reply) -> (Run, Action) {
    run.step(running, reply, normalize, compile_scope)
}

fn failed(text: &str) -> Reply {
    StartReply::Failed { error: text.to_string(), detail: format!("detail of {text}") }
}

#[test]
fn start_goes_through_its_actions() {
    let mut running = RunningJobs::default();
    let run = begin(&mut running, &["data1", "A.Com", "data2", "b.com", "data3"]);
    let (run, action) = step(run, &mut running, StartReply::Ready);
    match action {
        StartAction::Enqueue { url, priority } => {
            assert_eq!(url.fingerprint, "fp-A.Com");
            assert_eq!(url.host, "a.com");
            assert_eq!(url.url, "http://A.Com/");
            assert_eq!((url.depth, url.redirect_hops, priority), (0, 0, 100));
        }
        other => panic!("{other:?}"),
    }
    let (run, action) = step(run, &mut running, StartReply::Ready);
    assert!(matches!(action, StartAction::Enqueue { url, .. } if url.host == "b.com"));
    let (run, action) = step(run, &mut running, StartReply::Ready);
    match action {
        StartAction::Prepare { matcher, user_agent, respect_robots, delay_ms } => {
            assert_eq!(matcher, "7:data1,A.Com,data2,b.com,data3");
            assert_eq!(user_agent, "NomiFun-Crawler/1.0 (+https://www.nomifun.com)");
            assert_eq!((respect_robots, delay_ms), (true, 250));
        }
        other => panic!("{other:?}"),
    }
    let (run, action) = step(run, &mut running, StartReply::Ready);
    assert!(matches!(action, StartAction::MarkRunning));
    let (run, action) = step(run, &mut running, StartReply::Ready);
    assert!(matches!(action, StartAction::LoadJob));
    let mut loaded = job(&["x"]);
    loaded.name = "Loaded".into();
    let (run, action) = step(run, &mut running, StartReply::Loaded(loaded));
    assert!(matches!(action, StartAction::CountTasks));
    let (run, action) = step(run, &mut running, StartReply::Counted(5));
    match action {
        StartAction::Launch { job, progress } => {
            assert_eq!((job.name.as_str(), progress), ("Loaded", 5));
        }
        other => panic!("{other:?}"),
    }
    assert!(running.reserve(&id()).is_err());
    running.release(&run.lease);
    assert!(running.reserve(&id()).is_ok());
}

#[test]
fn running_job_cannot_be_started() {
    let mut running = RunningJobs::default();
    let _run = begin(&mut running, &["a.com"]);
    let found: Result<Option<Job>, String> = Ok(Some(job(&["a.com"])));
    match StartRun::begin(&mut running, &owner(), &id(), found) {
        Err(Failure::Refused(CrawlError::App(AppError::Conflict(text)))) => {
            assert_eq!(text, "crawl job j1 is already running");
        }
        other => panic!("{other:?}"),
    }
}

#[test]
fn foreign_job_cannot_be_started() {
    let mut running = RunningJobs::default();
    let found: Result<Option<Job>, String> = Ok(Some(job(&["a.com"])));
    let stranger = UserId { raw: "u2".into() };
    match StartRun::begin(&mut running, &stranger, &id(), found) {
        Err(Failure::Refused(CrawlError::JobNotFound(text))) => assert_eq!(text, "j1"),
        other => panic!("{other:?}"),
    }
    assert!(running.reserve(&id()).is_ok());
}

#[test]
fn refused_seed_frees_the_job() {
    let mut running = RunningJobs::default();
    let run = begin(&mut running, &["a.com", "bad", "b.com"]);
    let (run, action) = step(run, &mut running, StartReply::Ready);
    assert!(matches!(action, StartAction::Enqueue { .. }));
    let (run, action) = step(run, &mut running, StartReply::Ready);
    match action {
        StartAction::Abort { error, record } => {
            assert_eq!(error, "bad seed");
            assert!(record.is_none());
        }
        other => panic!("{other:?}"),
    }
    assert!(matches!(run.phase, StartPhase::Over));
    assert!(running.reserve(&id()).is_ok());
}

#[test]
fn refused_scope_frees_the_job() {
    let mut running = RunningJobs::default();
    let mut stored = job(&["a.com"]);
    stored.scope = 0;
    let found: Result<Option<Job>, String> = Ok(Some(stored));
    let run: Run = StartRun::begin(&mut running, &owner(), &id(), found).unwrap();
    let (run, action) = step(run, &mut running, StartReply::Ready);
    assert!(matches!(action, StartAction::Enqueue { .. }));
    let (run, action) = step(run, &mut running, StartReply::Ready);
    match action {
        StartAction::Abort { error, record } => {
            assert_eq!(error, "bad scope");
            assert!(record.is_none());
        }
        other => panic!("{other:?}"),
    }
    assert!(matches!(run.phase, StartPhase::Over));
    assert!(!run.lease.cancel.is_cancelled());
    assert!(running.reserve(&id()).is_ok());
}

#[test]
fn starting_again_asks_for_the_same_urls() {
    let mut running = RunningJobs::default();
    let mut asked: Vec<Vec<(String, String, String)>> = Vec::new();
    for _ in 0..2 {
        let mut run = begin(&mut running, &["data1", "A.Com", "b.com"]);
        let mut urls = Vec::new();
        loop {
            let (next, action) = step(run, &mut running, StartReply::Ready);
            run = next;
            match action {
                StartAction::Enqueue { url, .. } => {
                    urls.push((url.fingerprint, url.host, url.url));
                }
                _ => break,
            }
        }
        running.release(&run.lease);
        asked.push(urls);
    }
    assert_eq!(asked[0].len(), 2);
    assert_eq!(asked[0], asked[1]);
}

#[test]
fn failure_before_the_mark_is_not_recorded() {
    for good_steps in 0..4 {
        let mut running = RunningJobs::default();
        let mut run = begin(&mut running, &["a.com"]);
        for _ in 0..good_steps {
            run = step(run, &mut running, StartReply::Ready).0;
        }
        match step(run, &mut running, failed("broken")).1 {
            StartAction::Abort { error, record } => {
                assert_eq!(error, "broken");
                assert!(record.is_none());
            }
            other => panic!("{other:?}"),
        }
        assert!(running.reserve(&id()).is_ok());
    }
}

#[test]
fn failure_after_the_mark_is_recorded() {
    for loaded in [false, true] {
        let mut running = RunningJobs::default();
        let mut run = begin(&mut running, &["a.com"]);
        for _ in 0..4 {
            run = step(run, &mut running, StartReply::Ready).0;
        }
        if loaded {
            run = step(run, &mut running, StartReply::Loaded(job(&[]))).0;
        }
        match step(run, &mut running, failed("broken")).1 {
            StartAction::Abort { error, record: Some((status, detail)) } => {
                assert_eq!(error, "broken");
                assert_eq!(status.as_str(), "failed");
                assert_eq!(detail, "detail of broken");
            }
            other => panic!("{other:?}"),
        }
        assert!(running.reserve(&id()).is_ok());
    }
}

#[test]
fn reply_out_of_turn_changes_nothing() {
    let mut running = RunningJobs::default();
    let run = begin(&mut running, &["a.com"]);
    let (run, action) = step(run, &mut running, StartReply::Counted(1));
    assert!(matches!(action, StartAction::OutOfTurn));
    assert!(matches!(run.phase, StartPhase::Seeding { next: 0 }));
    let (run, _) = step(run, &mut running, failed("broken"));
    let (run, action) = step(run, &mut running, StartReply::Ready);
    assert!(matches!(action, StartAction::OutOfTurn));
    assert!(matches!(run.phase, StartPhase::Over));
}

#[test]
fn own_user_agent_is_used() {
    let mut running = RunningJobs::default();
    let mut stored = job(&[]);
    stored.user_agent = Some("Mine/2".into());
    let found: Result<Option<Job>, String> = Ok(Some(stored));
    let run: Run = StartRun::begin(&mut running, &owner(), &id(), found).unwrap();
    assert!(matches!(
        step(run, &mut running, StartReply::Ready).1,
        StartAction::Prepare { user_agent, .. } if user_agent == "Mine/2"
    ));
}

#[test]
fn late_release_of_a_failed_start_spares_the_next_run() {
    let mut running = RunningJobs::default();
    let run = begin(&mut running, &["a.com"]);
    let (old, _) = step(run, &mut running, failed("broken"));
    let newer = begin(&mut running, &["a.com"]);
    running.release(&old.lease);
    assert!(running.reserve(&id()).is_err());
    assert!(running.cancel(&id()));
    assert!(newer.lease.cancel.is_cancelled());
    assert!(!old.lease.cancel.is_cancelled());
}
