//! A dead man's switch watchdog: external processes send heartbeats ("pings")
//! identified by a string key; when a key's heartbeat is not renewed within a
//! fixed grace period, an alert event is raised for that key, exactly once per
//! missed deadline.
//!
//! The crate holds the scheduling core: the epoch-based timer registry
//! (`engine`), the time-trace semantics it is proved to implement
//! (`schedule`), the bounded ingestion queue (`ingest`), the alert dispatcher
//! (`dispatch`), and notifier construction from settings (`notifier`).

pub mod dispatch;
pub mod engine;
pub mod ingest;
pub mod notifier;
pub mod schedule;
