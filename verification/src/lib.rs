//! Per-commit verification engine for pull-request branches.
//!
//! The library resolves which commits of a pull request must be checked
//! (including reconstructing a rebase onto the base branch), models the
//! provisioning of isolated repositories by content-addressed object
//! copying, expands declarative check descriptions into concrete jobs,
//! skips work already proven to have succeeded via per-commit cache
//! markers, and aggregates per-job outcomes while tolerating partial
//! failure. All decision logic lives here, verified; the surrounding
//! process (git access, subprocess invocation, thread pools) supplies
//! plain values and carries out the chosen actions.

pub mod cache;
pub mod cargo;
pub mod checks;
pub mod decode;
pub mod graph;
pub mod jobs;
pub mod json;
pub mod label;
pub mod objects;
pub mod plan;
pub mod rebase;
pub mod text;
