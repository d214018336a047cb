//! The data the library reports: candidates, scan and apply reports, errors.

use vstd::prelude::*;
use vstd::string::StringExecFns;
use crate::classify::CandidateKind;
use crate::fspath::{display_bytes, FsPath};
use crate::text::{decode_lossy, utf8_lossy};

verus! {

#[verifier::external_type_specification]
#[verifier::external_body]
pub struct ExIoError(std::io::Error);

/// Why a scan or an apply did not complete.
#[derive(Debug)]
pub enum GitCleanError {
    /// A filesystem operation failed.
    Io(std::io::Error),
    /// The target, or a candidate, is one that must never be touched.
    UnsafeTarget(String),
    /// `--apply` was asked for outside a Git worktree.
    GitRequired,
    /// A Git safety check could not be carried out.
    GitCommand(String),
}

impl From<std::io::Error> for GitCleanError {
    fn from(value: std::io::Error) -> (r: GitCleanError) {
        GitCleanError::Io(value)
    }
}

impl vstd::std_specs::convert::FromSpecImpl<std::io::Error> for GitCleanError {
    open spec fn obeys_from_spec() -> bool {
        true
    }

    open spec fn from_spec(value: std::io::Error) -> GitCleanError {
        GitCleanError::Io(value)
    }
}

/// Whether a candidate may be deleted.
#[derive(Debug, Clone, PartialEq, Eq)]
pub enum CandidateStatus {
    /// Passed every safety check.
    Safe,
    /// Failed a check; the reason says which.
    Skipped(String),
}

/// A directory (or a symlink with a candidate's name) found by a scan.
#[derive(Debug, Clone)]
pub struct Candidate {
    pub path: FsPath,
    pub size_bytes: u64,
    pub kind: CandidateKind,
    pub status: CandidateStatus,
}

/// What a scan found under its target.
#[derive(Debug, Clone)]
pub struct ScanReport {
    pub target: FsPath,
    pub git_root: Option<FsPath>,
    pub candidates: Vec<Candidate>,
}

/// What an apply deleted.
#[derive(Debug, Clone)]
pub struct ApplyReport {
    pub scan: ScanReport,
    pub deleted: Vec<FsPath>,
    pub freed_bytes: u64,
}

/// The status is `Skipped` for exactly the given reason.
pub open spec fn skipped_for(status: CandidateStatus, reason: Seq<char>) -> bool {
    status matches CandidateStatus::Skipped(s) && s@ == reason
}

/// The error is `UnsafeTarget` with exactly the given message.
pub open spec fn unsafe_target_with(e: GitCleanError, message: Seq<char>) -> bool {
    e matches GitCleanError::UnsafeTarget(s) && s@ == message
}

/// The error is `GitCommand` with exactly the given message.
pub open spec fn git_command_with(e: GitCleanError, message: Seq<char>) -> bool {
    e matches GitCleanError::GitCommand(s) && s@ == message
}

/// The result is an `UnsafeTarget` error with exactly the given message.
pub open spec fn fails_unsafe<T>(r: Result<T, GitCleanError>, message: Seq<char>) -> bool {
    r matches Err(e) && unsafe_target_with(e, message)
}

/// The result is a `GitCommand` error with exactly the given message.
pub open spec fn fails_git<T>(r: Result<T, GitCleanError>, message: Seq<char>) -> bool {
    r matches Err(e) && git_command_with(e, message)
}

/// The text a path is shown as in messages.
pub open spec fn shown_path(p: Seq<Seq<u8>>) -> Seq<char> {
    utf8_lossy(display_bytes(p))
}

/// A `Skipped` status with the given reason.
pub fn skipped(reason: &str) -> (r: CandidateStatus)
    ensures
        skipped_for(r, reason@),
{
    CandidateStatus::Skipped(String::from_str(reason))
}

/// An `UnsafeTarget` error with the given message.
pub fn unsafe_target(message: &str) -> (r: GitCleanError)
    ensures
        unsafe_target_with(r, message@),
{
    GitCleanError::UnsafeTarget(String::from_str(message))
}

/// A `GitCommand` error with the given message.
pub fn git_command(message: &str) -> (r: GitCleanError)
    ensures
        git_command_with(r, message@),
{
    GitCleanError::GitCommand(String::from_str(message))
}

/// An `UnsafeTarget` error whose message ends with the path as displayed.
pub fn unsafe_target_at(message: &str, path: &FsPath) -> (r: GitCleanError)
    ensures
        unsafe_target_with(r, message@ + shown_path(path@)),
{
    let mut text = String::from_str(message);
    let shown = decode_lossy(path.display_bytes().as_slice());
    text.append(shown.as_str());
    GitCleanError::UnsafeTarget(text)
}

/// The path shown relative to `root` when it lies under it, else in full.
pub open spec fn relative_display(root: Seq<Seq<u8>>, path: Seq<Seq<u8>>) -> Seq<char> {
    if crate::text::is_prefix_of(root, path) {
        utf8_lossy(crate::fspath::relative_display_bytes(path.skip(root.len() as int)))
    } else {
        shown_path(path)
    }
}

/// How a path is shown next to the target it was found under.
pub fn display_relative(root: &FsPath, path: &FsPath) -> (r: String)
    ensures
        r@ == relative_display(root@, path@),
{
    match path.strip_prefix(root) {
        Some(rest) => {
            let bytes = crate::fspath::slash_join(&rest);
            if rest.len() == 0 {
                let empty: Vec<u8> = Vec::new();
                assert(empty@ =~= crate::fspath::relative_display_bytes(path@.skip(root@.len() as int)));
                decode_lossy(empty.as_slice())
            } else {
                let mut tail: Vec<u8> = Vec::new();
                let mut i: usize = 1;
                proof {
                    assert(crate::fspath::parts_view(rest@).len() > 0);
                    reveal_with_fuel(crate::fspath::slash_joined, 1);
                }
                assert(bytes@.len() > 0) by {
                    let p = crate::fspath::parts_view(rest@);
                    assert(crate::fspath::slash_joined(p) == crate::fspath::slash_joined(p.drop_last())
                        + seq![47u8] + p.last());
                }
                while i < bytes.len()
                    invariant
                        1 <= i <= bytes@.len(),
                        tail@ == bytes@.subrange(1, i as int),
                    decreases bytes@.len() - i,
                {
                    tail.push(bytes[i]);
                    i = i + 1;
                    assert(tail@ =~= bytes@.subrange(1, i as int));
                }
                assert(tail@ =~= bytes@.drop_first());
                decode_lossy(tail.as_slice())
            }
        },
        None => decode_lossy(path.display_bytes().as_slice()),
    }
}

} // verus!
