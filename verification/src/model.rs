//! Identifiers, errors and the records of a crawl.
use vstd::prelude::*;

verus! {

/// Milliseconds since the Unix epoch.
pub type TimestampMs = i64;

/// Identifies a crawl job.
#[derive(Debug, Clone)]
pub struct CrawlJobId {
    pub raw: String,
}

impl View for CrawlJobId {
    type V = Seq<char>;

    open spec fn view(&self) -> Seq<char> {
        self.raw@
    }
}

impl CrawlJobId {
    /// The identifier that is written this way.
    pub fn from_text(text: &str) -> (r: Self)
        ensures
            r@ == text@,
    {
        CrawlJobId { raw: text.to_string() }
    }

    /// The identifier as it is written.
    pub fn as_str(&self) -> (r: &str)
        ensures
            r@ == self@,
    {
        self.raw.as_str()
    }
}

/// Identifies a task of a crawl job.
#[derive(Debug, Clone)]
pub struct CrawlTaskId {
    pub raw: String,
}

/// Identifies a user.
#[derive(Debug, Clone)]
pub struct UserId {
    pub raw: String,
}

impl View for UserId {
    type V = Seq<char>;

    open spec fn view(&self) -> Seq<char> {
        self.raw@
    }
}

impl UserId {
    /// Whether both identify the same user.
    pub fn is(&self, other: &UserId) -> (r: bool)
        ensures
            r == (self@ == other@),
    {
        self.raw == other.raw
    }
}

/// What the rest of the application answers a request with when it fails.
#[derive(Debug, Clone)]
pub enum AppError {
    Conflict(String),
}

/// Why the crawler refuses a request.
#[derive(Debug, Clone)]
pub enum CrawlError {
    UrlRejected(String),
    JobNotFound(String),
    App(AppError),
}

/// A request fails because the crawler refuses it, or because something that it
/// was handed failed with an error of its own.
#[derive(Debug, Clone)]
pub enum Failure<E> {
    Refused(CrawlError),
    Passed(E),
}

/// Where a job stands. A job is created as a draft; a start that breaks off
/// leaves it failed; cancelling a job that does not run leaves it cancelled. Any
/// other state comes from the runner and is carried by its stored name.
#[derive(Debug, Clone)]
pub enum JobStatus {
    Draft,
    Failed,
    Cancelled,
    Stored(String),
}

impl JobStatus {
    pub open spec fn text(self) -> Seq<char> {
        match self {
            JobStatus::Draft => "draft"@,
            JobStatus::Failed => "failed"@,
            JobStatus::Cancelled => "cancelled"@,
            JobStatus::Stored(name) => name@,
        }
    }

    /// The state's name.
    pub fn as_str(&self) -> (r: &str)
        ensures
            r@ == self.text(),
    {
        match self {
            JobStatus::Draft => "draft",
            JobStatus::Failed => "failed",
            JobStatus::Cancelled => "cancelled",
            JobStatus::Stored(name) => name.as_str(),
        }
    }
}

/// Where a job's pages go.
#[derive(Debug, Clone)]
pub struct CrawlSink {
    pub knowledge_base_id: Option<String>,
}

impl Default for CrawlSink {
    fn default() -> (r: Self)
        ensures
            r.knowledge_base_id is None,
    {
        CrawlSink { knowledge_base_id: None }
    }
}

/// A crawl job as it is stored. The scope `S` and the render mode `R` are
/// carried and never looked into.
#[derive(Debug, Clone)]
pub struct CrawlJob<S, R> {
    pub job_id: CrawlJobId,
    pub user_id: UserId,
    pub name: String,
    pub seeds: Vec<String>,
    pub scope: S,
    pub max_depth: u32,
    pub max_urls: u32,
    pub render_mode: R,
    pub concurrency: u32,
    pub per_host_concurrency: u32,
    pub delay_ms: u64,
    pub respect_robots: bool,
    pub user_agent: Option<String>,
    pub sink: CrawlSink,
    pub status: JobStatus,
    pub error_detail: Option<String>,
    pub started_at: Option<TimestampMs>,
    pub finished_at: Option<TimestampMs>,
    pub created_at: TimestampMs,
    pub updated_at: TimestampMs,
}

/// A page to fetch as it is stored. The status `T` is carried and never looked
/// into.
#[derive(Debug, Clone)]
pub struct CrawlTask<T> {
    pub task_id: CrawlTaskId,
    pub url: String,
    pub host: String,
    pub depth: u32,
    pub status: T,
    pub attempt_count: u32,
    pub http_status: Option<u16>,
    pub error_code: Option<String>,
    pub error_detail: Option<String>,
    pub completed_at: Option<TimestampMs>,
}

/// A URL in normal form: how it is written, its host if it has one, and its
/// fingerprint.
#[derive(Debug, Clone)]
pub struct NormalizedUrl {
    pub text: String,
    pub host: Option<String>,
    pub fingerprint: String,
}

/// A URL in normal form as a mathematical value.
#[verifier::ext_equal]
pub struct UrlText {
    pub text: Seq<char>,
    pub host: Option<Seq<char>>,
    pub fingerprint: Seq<char>,
}

impl View for NormalizedUrl {
    type V = UrlText;

    open spec fn view(&self) -> UrlText {
        UrlText {
            text: self.text@,
            host: match self.host {
                Some(host) => Some(host@),
                None => None,
            },
            fingerprint: self.fingerprint@,
        }
    }
}

/// A URL that is to be crawled.
#[derive(Debug, Clone)]
pub struct DiscoveredUrl {
    pub fingerprint: String,
    pub host: String,
    pub url: String,
    pub depth: u32,
    pub redirect_hops: u32,
}

} // verus!
