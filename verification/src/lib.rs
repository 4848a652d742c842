//! Coordination core of a scheduled video-archiving service.
//!
//! Clients submit URLs for capture; background workers expand collection
//! URLs into single items, claim queued items under a lease, resolve
//! metadata, download media, and record the results, while a change-feed
//! fan-out pushes every queue mutation to connected live subscribers.
//!
//! This crate holds the verified heart of that system: the claim-with-lease
//! queue protocol, the retry/backoff policy, the URL classifier, the worker
//! state machines, and the subscriber registry. Database access, process
//! invocation and network transport live outside the crate and drive these
//! state machines through plain values.

pub mod api;
pub mod archiver;
pub mod config;
pub mod fanout;
pub mod queue;
pub mod records;
pub mod store;
pub mod strings;
pub mod tracker;
pub mod urls;
