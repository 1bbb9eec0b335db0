//! Attribution of the lines added to a repository to AI agents or humans.
//!
//! Checkpoints of the working tree are appended to a working log, each tagged
//! with the agent responsible (`working_log`, `capture`). When a commit lands,
//! every line that the version-control diff reports as added (`diff`) is
//! classified against that log as AI, human or mixed (`classify`,
//! `reconcile`); amends and squashes re-derive the attribution of the new
//! commit from the persisted attribution of the commits it replaces
//! (`rewrite`). Per-commit summaries are written into a note block
//! (`notes`) and summed over ranges of commits (`stats`). `commit_hooks` and
//! `cli` hold the decisions of the commit wrapper and its command lines.

pub mod capture;
pub mod classify;
pub mod cli;
pub mod commit_hooks;
pub mod diff;
pub mod notes;
pub mod reconcile;
pub mod rewrite;
pub mod stats;
pub mod working_log;
