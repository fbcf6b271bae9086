# nomifun-crawl

The crawl jobs of NomiFun as a verified library: executable Rust whose behaviour
is stated in contracts and proved with Verus.

- `src/running.rs`: the slots of running jobs, at most one run per job;
  `src/running_laws.rs` says what holds of them (`src/token.rs` holds the stop
  signal and the record of the signals made and given).
- `src/start.rs`: starting a job, one action at a time, and backing out of a
  start that fails; `src/start_laws.rs` says what holds of every start.
- `src/service.rs`: creating a job, ownership, cancelling, deleting, and the
  views that the UI gets.
- `src/sink.rs`: the path, the front matter and the text of the document that
  keeps a page; `src/sink_laws.rs` and `src/document_laws.rs` say what holds of
  all of them.
- `src/events.rs`: what the installation owner is told.
- `src/model.rs`, `src/text.rs`: records, and the handling of text.
- `app/`: the service around the library. Storage, workers, the knowledge base
  and the event channel are reached through traits.

What is taken on trust stands behind items with `external_body` or
`assume_specification`: `dashmap::DashMap`, `tokio_util`'s `CancellationToken`,
`url::Url::parse` and `String::push`. The map of running jobs is changed through
`&mut`, so callers on several threads share it behind a lock.
