//! A verified key-value store adapter for a sandboxed computation.
//!
//! A guest module with no direct access to persistent storage performs point
//! reads, prefix scans, and batched writes against state owned by a host
//! environment, through a narrow call interface.  The adapter enforces the
//! byte-length bound the host's backing stores require, translates abstract
//! write batches into the host's primitive operation list, and drives the
//! strict one-suspension-per-call protocol of every host round trip.

pub mod batch;
pub mod bytes;
pub mod context;
pub mod host;
pub mod kv;
pub mod memory;
pub mod policy;
pub mod store;
