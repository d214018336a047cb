//! Finds generated build and cache directories in a project tree and decides,
//! conservatively, which of them may be deleted.
//!
//! The library holds the decisions; the program around it walks the
//! filesystem, runs Git, deletes and prints, asking the library what to do
//! at each step. Paths are absolute and held as their
//! components (`fspath`); the rules on what is safe are in `safety`, the
//! decisions of a walk in `scan` and `inspect`, the totals and the apply
//! plan in `report`, the display of sizes in `size` and the printed lines
//! in `lines`.

pub mod text;
pub mod classify;
pub mod fspath;
pub mod order;
pub mod model;
pub mod safety;
pub mod scan;
pub mod inspect;
pub mod report;
pub mod size;
pub mod lines;

pub use classify::{classify_candidate, CandidateKind};
pub use fspath::{path_from_git_bytes, FsPath};
pub use inspect::{InspectStep, InspectTally};
pub use model::{display_relative, ApplyReport, Candidate, CandidateStatus, GitCleanError, ScanReport};
pub use report::{finish_apply, plan_deletions};
pub use safety::{
    candidate_status, check_canonical_target, check_candidate_file_type,
    check_candidate_git_metadata, check_candidate_location, check_candidate_still_ignored,
    check_candidate_unindexed, check_git_root, check_requested_target, ignore_check_path,
    concat_paths, indexed_paths_from_listing,
    indexed_paths_from_output, interpret_check_ignore, needs_ignore_check,
    nested_worktree_probes, recheck, status_after_ignore_check, RecheckFacts, RecheckStep,
    StatusCheck,
};
pub use scan::{
    descend_after, finish_scan, sort_candidates, symlink_candidate, triage_entry, EntryAction,
    Scanner,
};
pub use text::trimmed_output_text;
pub use size::human_bytes;
pub use lines::{candidate_line, deleted_line};
