//! What the installation owner is told while jobs run.
use vstd::prelude::*;

use crate::model::{CrawlJobId, JobStatus};

verus! {

/// Something that happened to a job. The counters `P` and the report `T` on one
/// page are carried and never looked into.
#[derive(Debug, Clone)]
pub enum CrawlEvent<P, T> {
    Progress { job_id: String, progress: P },
    Task(T),
    Finished { job_id: String, status: String, progress: P },
}

/// An event under the name that listeners know it by.
#[derive(Debug, Clone)]
pub struct EventMessage<P, T> {
    pub name: String,
    pub event: CrawlEvent<P, T>,
}

/// Tells how far a job is.
pub fn job_progress<P, T>(job_id: &CrawlJobId, progress: P) -> (r: EventMessage<P, T>)
    ensures
        r.name@ == "crawl.progress"@,
        r.event matches CrawlEvent::Progress { job_id: id, progress: counters } && id@ == job_id@
            && counters == progress,
{
    EventMessage {
        name: "crawl.progress".to_string(),
        event: CrawlEvent::Progress { job_id: job_id.as_str().to_string(), progress },
    }
}

/// Tells what became of a page.
pub fn task_settled<P, T>(report: T) -> (r: EventMessage<P, T>)
    ensures
        r.name@ == "crawl.task"@,
        r.event == CrawlEvent::<P, T>::Task(report),
{
    EventMessage { name: "crawl.task".to_string(), event: CrawlEvent::Task(report) }
}

/// Tells how a job ended.
pub fn job_finished<P, T>(job_id: &CrawlJobId, status: &JobStatus, progress: P) -> (r: EventMessage<
    P,
    T,
>)
    ensures
        r.name@ == "crawl.finished"@,
        r.event matches CrawlEvent::Finished { job_id: id, status: state, progress: counters }
            && id@ == job_id@ && state@ == status.text() && counters == progress,
{
    EventMessage {
        name: "crawl.finished".to_string(),
        event: CrawlEvent::Finished {
            job_id: job_id.as_str().to_string(),
            status: status.as_str().to_string(),
            progress,
        },
    }
}

} // verus!
