use nomifun_crawl::model::{AppError, CrawlError, CrawlJobId};
use nomifun_crawl::running::RunningJobs;
use std::sync::{Arc, Mutex};

fn job(n: u64) -> CrawlJobId {
    CrawlJobId::from_text(&format!("019a8f3e-7c10-7d42-9b1e-{:012x}", 0x5b6a_7c8d_0000 + n))
}

#[test]
fn natural_completion_release_makes_job_restartable() {
    let mut running = RunningJobs::default();
    let job_id = job(1);

    let first = running.reserve(&job_id).expect("first run reserves the job");
    running.release(&first);

    let second = running.reserve(&job_id).expect("finished job can start again");
    running.release(&second);
}

#[test]
fn concurrent_reservations_allow_exactly_one_start() {
    const CALLERS: usize = 16;

    let runtime = tokio::runtime::Builder::new_multi_thread()
        .worker_threads(4)
        .build()
        .expect("runtime builds");
    runtime.block_on(async {
        let running = Arc::new(Mutex::new(RunningJobs::default()));
        let job_id = job(1);
        let barrier = Arc::new(tokio::sync::Barrier::new(CALLERS));
        let mut tasks = Vec::with_capacity(CALLERS);

        for _ in 0..CALLERS {
            let running = running.clone();
            let job_id = job_id.clone();
            let barrier = barrier.clone();
            tasks.push(tokio::spawn(async move {
                barrier.wait().await;
                running.lock().unwrap().reserve(&job_id)
            }));
        }

        let mut winner = None;
        let mut conflicts = 0;
        for task in tasks {
            match task.await.expect("reservation task joins") {
                Ok(lease) => {
                    assert!(winner.replace(lease).is_none(), "only one caller may reserve the job");
                }
                Err(CrawlError::App(AppError::Conflict(_))) => conflicts += 1,
                Err(err) => panic!("unexpected reservation error: {err:?}"),
            }
        }

        assert_eq!(conflicts, CALLERS - 1);
        running.lock().unwrap().release(&winner.expect("one caller wins the reservation"));
    });
}

#[test]
fn cancellation_keeps_job_reserved_until_runner_stops() {
    let mut running = RunningJobs::default();
    let job_id = job(1);
    let lease = running.reserve(&job_id).expect("run reserves the job");

    assert!(running.cancel(&job_id));
    assert!(lease.cancel.is_cancelled());
    assert!(matches!(
        running.reserve(&job_id),
        Err(CrawlError::App(AppError::Conflict(_)))
    ));

    running.release(&lease);
    let restarted = running.reserve(&job_id).expect("job restarts after runner exits");
    running.release(&restarted);
}

#[test]
fn delayed_cleanup_cannot_remove_a_newer_run() {
    let mut running = RunningJobs::default();
    let job_id = job(1);
    let old = running.reserve(&job_id).expect("old run reserves the job");
    running.remove_and_cancel(&job_id);
    let new = running.reserve(&job_id).expect("new run reserves the removed slot");

    running.release(&old);
    assert!(matches!(
        running.reserve(&job_id),
        Err(CrawlError::App(AppError::Conflict(_)))
    ));

    running.release(&new);
}

#[test]
fn conflict_names_the_job() {
    let mut running = RunningJobs::default();
    let job_id = CrawlJobId::from_text("j1");
    let _lease = running.reserve(&job_id).unwrap();
    match running.reserve(&job_id) {
        Err(CrawlError::App(AppError::Conflict(text))) => {
            assert_eq!(text, "crawl job j1 is already running");
        }
        other => panic!("{other:?}"),
    }
}

#[test]
fn every_request_for_a_slot_uses_up_a_number() {
    let mut running = RunningJobs::default();
    let a = running.reserve(&job(1)).unwrap();
    assert!(running.reserve(&job(1)).is_err());
    let b = running.reserve(&job(2)).unwrap();
    assert_eq!((a.run_id, b.run_id), (0, 2));
    assert_eq!(a.job_id, job(1).as_str());
}

#[test]
fn fresh_run_has_not_been_signalled() {
    let mut running = RunningJobs::default();
    let lease = running.reserve(&job(1)).unwrap();
    assert!(!lease.cancel.is_cancelled());
}

#[test]
fn removal_signals_the_run_and_frees_the_slot() {
    let mut running = RunningJobs::default();
    let lease = running.reserve(&job(1)).unwrap();
    running.remove_and_cancel(&job(1));
    assert!(lease.cancel.is_cancelled());
    running.remove_and_cancel(&job(1));
    let again = running.reserve(&job(1)).unwrap();
    assert!(!again.cancel.is_cancelled());
    assert!(again.cancel != lease.cancel);
}

#[test]
fn other_jobs_keep_their_slots() {
    let mut running = RunningJobs::default();
    let a = running.reserve(&job(1)).unwrap();
    let b = running.reserve(&job(2)).unwrap();
    running.release(&a);
    assert!(running.reserve(&job(2)).is_err());
    assert!(!running.cancel(&job(1)));
    assert!(running.cancel(&job(2)));
    assert!(b.cancel.is_cancelled());
    assert!(!a.cancel.is_cancelled());
}

#[test]
fn lease_holds_the_signal_of_its_run_alone() {
    let mut running = RunningJobs::default();
    let a = running.reserve(&job(1)).unwrap();
    let b = running.reserve(&job(2)).unwrap();
    assert!(a.cancel != b.cancel);
    assert!(running.cancel(&job(1)));
    assert!(running.cancel(&job(1)));
    assert!(a.cancel.is_cancelled());
    assert!(!b.cancel.is_cancelled());
    running.remove_and_cancel(&job(3));
    assert!(!b.cancel.is_cancelled());
}

#[test]
fn restart_after_release_gets_another_signal() {
    let mut running = RunningJobs::default();
    let old = running.reserve(&job(1)).unwrap();
    assert!(running.cancel(&job(1)));
    running.release(&old);
    let new = running.reserve(&job(1)).unwrap();
    assert!(new.run_id != old.run_id);
    assert!(new.cancel != old.cancel);
    assert!(!new.cancel.is_cancelled());
}

#[test]
fn release_gives_no_signal_and_can_be_repeated() {
    let mut running = RunningJobs::default();
    let old = running.reserve(&job(1)).unwrap();
    running.release(&old);
    running.release(&old);
    assert!(!old.cancel.is_cancelled());
    let new = running.reserve(&job(1)).unwrap();
    running.release(&old);
    assert!(!new.cancel.is_cancelled());
    assert!(running.reserve(&job(1)).is_err());
}
