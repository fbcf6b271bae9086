//! Crawl jobs: where crawled pages land, which jobs run, how a job is started,
//! and what a request on a job is answered.

pub mod call_laws;
pub mod document_laws;
pub mod events;
pub mod model;
pub mod naming_laws;
pub mod running;
pub mod running_laws;
pub mod service;
pub mod service_laws;
pub mod sink;
pub mod sink_laws;
pub mod start;
pub mod start_laws;
pub mod step_laws;
pub mod text;
pub mod text_laws;
pub mod token;
