//! The safety rules: which targets may be scanned, which candidates are safe
//! to delete, and the checks repeated just before a deletion.

use vstd::prelude::*;
use vstd::string::StringExecFns;
use crate::classify::CandidateKind;
use crate::fspath::{dot_git, fields, has_component, relative_components, FsPath, parts_view};
use crate::model::{shown_path, unsafe_target_at, Candidate, fails_git, fails_unsafe, git_command, git_command_with, skipped, skipped_for, unsafe_target, unsafe_target_with, CandidateStatus, GitCleanError};
use crate::text::{decimal, is_prefix_of, push_decimal, trim, trimmed_output_text, utf8_lossy};

verus! {

/// The views of a sequence of paths.
pub open spec fn paths_view(v: Seq<FsPath>) -> Seq<Seq<Seq<u8>>> {
    Seq::new(v.len(), |i: int| v[i]@)
}

/// Some path in the Git index lies at or under `path`.
pub open spec fn lies_under_any(indexed: Seq<Seq<Seq<u8>>>, path: Seq<Seq<u8>>) -> bool {
    exists|i: int| 0 <= i < indexed.len() && is_prefix_of(path, #[trigger] indexed[i])
}

/// The check settled the status as `Skipped` for exactly this reason.
pub open spec fn decided_skipped(r: StatusCheck, reason: Seq<char>) -> bool {
    r matches StatusCheck::Decided(s) && skipped_for(s, reason)
}

/// What the first checks on a candidate decide.
#[derive(Debug)]
pub enum StatusCheck {
    /// The status is settled.
    Decided(CandidateStatus),
    /// The candidate is safe only if Git reports it as ignored.
    NeedsIgnoreCheck,
}

/// Whether any of `indexed` lies at or under `path`.
pub fn any_lies_under(indexed: &Vec<FsPath>, path: &FsPath) -> (r: bool)
    ensures
        r == lies_under_any(paths_view(indexed@), path@),
{
    let mut i: usize = 0;
    while i < indexed.len()
        invariant
            i <= indexed@.len(),
            forall|j: int| 0 <= j < i ==> !is_prefix_of(path@, #[trigger] paths_view(indexed@)[j]),
        decreases indexed@.len() - i,
    {
        if indexed[i].starts_with(path) {
            assert(is_prefix_of(path@, paths_view(indexed@)[i as int]));
            return true;
        }
        i = i + 1;
    }
    false
}

/// The directories strictly between the worktree root and `path`: each may
/// hold a `.git` of its own and so be the root of a nested repository, whose
/// index the outer one does not show. Its files then count as indexed too.
pub open spec fn worktree_probes(git_root: Seq<Seq<u8>>, path: Seq<Seq<u8>>) -> Seq<Seq<Seq<u8>>> {
    if is_prefix_of(git_root, path) && path.len() > git_root.len() + 1 {
        Seq::new(
            (path.len() - git_root.len() - 1) as nat,
            |k: int| path.take(git_root.len() + 1 + k),
        )
    } else {
        seq![]
    }
}

/// The directories to look into for a nested repository whose index must be
/// consulted too before a candidate's status is decided.
pub fn nested_worktree_probes(git_root: &FsPath, path: &FsPath) -> (r: Vec<FsPath>)
    ensures
        paths_view(r@) == worktree_probes(git_root@, path@),
{
    let mut out: Vec<FsPath> = Vec::new();
    let n = path.components.len();
    let base = git_root.components.len();
    if !path.starts_with(git_root) || n - base <= 1 {
        assert(paths_view(out@) =~= worktree_probes(git_root@, path@));
        return out;
    }
    let mut k: usize = base + 1;
    while k < n
        invariant
            n == path@.len(),
            base == git_root@.len(),
            base + 1 <= k <= n,
            out@.len() == k - base - 1,
            forall|j: int|
                0 <= j < out@.len() ==> #[trigger] out@[j]@ == path@.take(base + 1 + j),
        decreases n - k,
    {
        out.push(path.prefix(k));
        k = k + 1;
    }
    assert(paths_view(out@) =~= worktree_probes(git_root@, path@));
    out
}

/// Decides a directory candidate's status from what is known of it, as far
/// as that can be done without asking Git whether the directory is ignored.
/// `indexed` holds the paths of the worktree's index, and of the index of
/// each nested repository that holds the candidate.
pub fn candidate_status(
    path: &FsPath,
    kind: CandidateKind,
    git_root: Option<&FsPath>,
    indexed: &Vec<FsPath>,
    contains_git: bool,
) -> (r: StatusCheck)
    ensures
        contains_git ==> decided_skipped(r, "contains .git metadata"@),
        !contains_git && git_root is None ==> decided_skipped(
            r,
            "not inside a Git worktree; tracked-file safety unavailable"@,
        ),
        !contains_git && git_root is Some && lies_under_any(paths_view(indexed@), path@)
            ==> decided_skipped(r, "contains Git-tracked files"@),
        !contains_git && git_root is Some && !lies_under_any(paths_view(indexed@), path@) ==> (r
            == if kind == CandidateKind::AmbiguousGenerated {
            StatusCheck::NeedsIgnoreCheck
        } else {
            StatusCheck::Decided(CandidateStatus::Safe)
        }),
        // No candidate gets past these checks unless every one of them passed.
        (r == StatusCheck::Decided(CandidateStatus::Safe) || r is NeedsIgnoreCheck) <==> (
        !contains_git && git_root is Some && !lies_under_any(paths_view(indexed@), path@)),
{
    if contains_git {
        return StatusCheck::Decided(skipped("contains .git metadata"));
    }
    if git_root.is_none() {
        return StatusCheck::Decided(
            skipped("not inside a Git worktree; tracked-file safety unavailable"),
        );
    }
    if any_lies_under(indexed, path) {
        return StatusCheck::Decided(skipped("contains Git-tracked files"));
    }
    if kind == CandidateKind::AmbiguousGenerated {
        StatusCheck::NeedsIgnoreCheck
    } else {
        StatusCheck::Decided(CandidateStatus::Safe)
    }
}

/// The two lists of paths one after the other.
pub fn concat_paths(a: &Vec<FsPath>, b: &Vec<FsPath>) -> (r: Vec<FsPath>)
    ensures
        paths_view(r@) == paths_view(a@) + paths_view(b@),
{
    let mut out: Vec<FsPath> = Vec::new();
    let mut i: usize = 0;
    while i < a.len()
        invariant
            i <= a@.len(),
            out@.len() == i,
            forall|j: int| 0 <= j < i ==> #[trigger] out@[j]@ == a@[j]@,
        decreases a@.len() - i,
    {
        out.push(a[i].duplicate());
        i = i + 1;
    }
    let mut k: usize = 0;
    while k < b.len()
        invariant
            k <= b@.len(),
            out@.len() == a@.len() + k,
            forall|j: int| 0 <= j < a@.len() ==> #[trigger] out@[j]@ == a@[j]@,
            forall|j: int| 0 <= j < k ==> #[trigger] out@[a@.len() + j]@ == b@[j]@,
        decreases b@.len() - k,
    {
        out.push(b[k].duplicate());
        k = k + 1;
    }
    assert(paths_view(out@) =~= paths_view(a@) + paths_view(b@)) by {
        assert forall|j: int| a@.len() <= j < out@.len() implies #[trigger] out@[j]@ == b@[j - a@.len()]@ by {
            assert(out@[a@.len() + (j - a@.len())]@ == b@[j - a@.len()]@);
        }
    }
    out
}

/// The status of an ambiguous candidate once Git has said whether it is ignored.
pub fn status_after_ignore_check(ignored: bool) -> (r: CandidateStatus)
    ensures
        ignored ==> r == CandidateStatus::Safe,
        !ignored ==> skipped_for(r, "ambiguous directory name and not ignored by Git"@),
{
    if ignored {
        CandidateStatus::Safe
    } else {
        skipped("ambiguous directory name and not ignored by Git")
    }
}

/// Whether a candidate of this kind is safe only when Git ignores it.
pub fn needs_ignore_check(kind: CandidateKind) -> (r: bool)
    ensures
        r == (kind == CandidateKind::AmbiguousGenerated),
{
    kind == CandidateKind::AmbiguousGenerated
}

/// The checks on the requested target before it is resolved: it must be a
/// directory and not a symlink.
pub fn check_requested_target(is_symlink: bool, is_dir: bool) -> (r: Result<(), GitCleanError>)
    ensures
        is_symlink ==> fails_unsafe(r, "the requested target is a symlink"@),
        !is_symlink && !is_dir ==> fails_unsafe(r, "the requested target is not a directory"@),
        !is_symlink && is_dir ==> r is Ok,
{
    if is_symlink {
        return Err(unsafe_target("the requested target is a symlink"));
    }
    if !is_dir {
        return Err(unsafe_target("the requested target is not a directory"));
    }
    Ok(())
}

/// `home` is known and is the path `p`.
pub open spec fn is_home(home: Option<&FsPath>, p: Seq<Seq<u8>>) -> bool {
    home matches Some(h) && h@ == p
}

/// The path of the home directory, when it is known.
pub open spec fn home_path(home: Option<&FsPath>) -> Option<Seq<Seq<u8>>> {
    match home {
        Some(h) => Some(h@),
        None => None,
    }
}

/// Why a resolved target is refused, if it is: the filesystem root, a path
/// with a `.git` component, or the home directory itself.
pub open spec fn target_refusal(canonical: Seq<Seq<u8>>, home: Option<Seq<Seq<u8>>>) -> Option<
    Seq<char>,
> {
    if canonical.len() == 0 {
        Some("filesystem root cannot be scanned"@)
    } else if has_component(canonical, dot_git()) {
        Some("paths inside .git are forbidden"@)
    } else if home == Some(canonical) {
        Some("the home directory cannot be scanned"@)
    } else {
        None
    }
}

/// The home directory is refused only as itself: for any target other than
/// the home directory (one inside it included), the verdict is what it would
/// be with no home directory known. A target that is not the root and has no
/// `.git` component is accepted unless it is the home directory.
pub proof fn law_home_refused_only_as_itself(
    canonical: Seq<Seq<u8>>,
    home: Seq<Seq<u8>>,
)
    ensures
        home != canonical ==> target_refusal(canonical, Some(home)) == target_refusal(
            canonical,
            None,
        ),
        canonical.len() > 0 && !has_component(canonical, dot_git()) ==> (target_refusal(
            canonical,
            Some(home),
        ) is None <==> home != canonical),
        target_refusal(canonical, None) is None <==> canonical.len() > 0 && !has_component(
            canonical,
            dot_git(),
        ),
{
}

/// `home` names the home directory at `p` exactly when it is known and is
/// that very path.
pub proof fn law_home_is_that_path(home: Option<&FsPath>, p: Seq<Seq<u8>>)
    ensures
        is_home(home, p) <==> home_path(home) == Some(p),
{
}

/// The checks on the resolved target: never the filesystem root, nothing
/// inside `.git`, never the home directory (`home`, when it is known).
pub fn check_canonical_target(canonical: FsPath, home: Option<&FsPath>) -> (r: Result<
    FsPath,
    GitCleanError,
>)
    ensures
        canonical@.len() == 0 ==> fails_unsafe(r, "filesystem root cannot be scanned"@),
        canonical@.len() > 0 && has_component(canonical@, dot_git()) ==> fails_unsafe(
            r,
            "paths inside .git are forbidden"@,
        ),
        canonical@.len() > 0 && !has_component(canonical@, dot_git()) && is_home(home, canonical@)
            ==> fails_unsafe(r, "the home directory cannot be scanned"@),
        canonical@.len() > 0 && !has_component(canonical@, dot_git()) && !is_home(home, canonical@)
            ==> (r matches Ok(t) && t@ == canonical@),
        target_refusal(canonical@, home_path(home)) matches Some(m) ==> fails_unsafe(r, m),
        target_refusal(canonical@, home_path(home)) is None ==> (r matches Ok(t) && t@
            == canonical@),
{
    if canonical.components.len() == 0 {
        return Err(unsafe_target("filesystem root cannot be scanned"));
    }
    if canonical.has_dot_git() {
        return Err(unsafe_target("paths inside .git are forbidden"));
    }
    match home {
        Some(h) => {
            if h.same_as(&canonical) {
                return Err(unsafe_target("the home directory cannot be scanned"));
            }
        },
        None => {},
    }
    Ok(canonical)
}

/// Accepts the worktree root that Git reported only if it contains the target.
pub fn check_git_root(target: &FsPath, root: FsPath) -> (r: Result<FsPath, GitCleanError>)
    ensures
        is_prefix_of(root@, target@) ==> (r matches Ok(p) && p@ == root@),
        !is_prefix_of(root@, target@) ==> fails_git(r, "Git reported a worktree root that does not contain the target"@),
{
    if target.starts_with(&root) {
        Ok(root)
    } else {
        Err(git_command("Git reported a worktree root that does not contain the target"))
    }
}

/// The path a record of the listing names when joined onto the root: a
/// record that begins with `/` is absolute and replaces the root, any other
/// is taken relative to it.
pub open spec fn joined_record(root: Seq<Seq<u8>>, rec: Seq<u8>) -> Seq<Seq<u8>> {
    if rec.len() > 0 && rec[0] == 47u8 {
        relative_components(rec)
    } else {
        root + relative_components(rec)
    }
}

/// The indexed paths named by a NUL-separated listing of paths relative to
/// the worktree root.
pub open spec fn listed_paths(root: Seq<Seq<u8>>, listing: Seq<u8>) -> Seq<Seq<Seq<u8>>> {
    fields(listing, 0u8, false).map_values(|rec: Seq<u8>| joined_record(root, rec))
}

/// The absolute indexed paths of a NUL-separated listing; empty records are
/// skipped.
pub fn indexed_paths_from_listing(root: &FsPath, listing: &[u8]) -> (r: Vec<FsPath>)
    ensures
        paths_view(r@) == listed_paths(root@, listing@),
{
    let records = crate::fspath::split_fields(listing, 0u8, false);
    let ghost recs = parts_view(records@);
    let mut out: Vec<FsPath> = Vec::new();
    let mut i: usize = 0;
    while i < records.len()
        invariant
            recs == parts_view(records@),
            recs == fields(listing@, 0u8, false),
            i <= records@.len(),
            out@.len() == i,
            forall|j: int| 0 <= j < i ==> #[trigger] out@[j]@ == joined_record(root@, recs[j]),
        decreases records@.len() - i,
    {
        let rec = records[i].as_slice();
        let rel = crate::fspath::path_from_git_bytes(rec);
        let p = if rec.len() > 0 && rec[0] == 47u8 {
            FsPath { components: rel }
        } else {
            root.join_parts(rel)
        };
        out.push(p);
        i = i + 1;
    }
    assert(paths_view(out@) =~= listed_paths(root@, listing@));
    out
}

/// The indexed paths, or the error Git reported when the listing failed.
pub fn indexed_paths_from_output(
    root: &FsPath,
    success: bool,
    listing: &[u8],
    error_output: &[u8],
) -> (r: Result<Vec<FsPath>, GitCleanError>)
    ensures
        success ==> (r matches Ok(v) && paths_view(v@) == listed_paths(root@, listing@)),
        !success ==> fails_git(r, trim(utf8_lossy(error_output@))),
{
    if success {
        Ok(indexed_paths_from_listing(root, listing))
    } else {
        Err(GitCleanError::GitCommand(trimmed_output_text(error_output)))
    }
}

/// The candidate's components below the worktree root, for asking Git
/// whether it is ignored.
pub fn ignore_check_path(git_root: &FsPath, path: &FsPath) -> (r: Result<
    Vec<Vec<u8>>,
    GitCleanError,
>)
    ensures
        is_prefix_of(git_root@, path@) ==> (r matches Ok(rest) && parts_view(rest@) == path@.skip(git_root@.len() as int)),
        !is_prefix_of(git_root@, path@) ==> fails_git(r, "candidate escaped the Git worktree"@),
{
    match path.strip_prefix(git_root) {
        Some(rest) => Ok(rest),
        None => Err(git_command("candidate escaped the Git worktree")),
    }
}

/// The decimal numeral of an integer, with a leading `-` when negative.
pub open spec fn signed_decimal(c: int) -> Seq<char> {
    if c < 0 {
        seq!['-'] + decimal((-c) as nat)
    } else {
        decimal(c as nat)
    }
}

/// What the exit code of `git check-ignore -q` says: `0` ignored, `1` not
/// ignored; any other outcome is an error.
pub fn interpret_check_ignore(code: Option<i32>) -> (r: Result<bool, GitCleanError>)
    ensures
        code == Some(0i32) ==> r == Ok::<bool, GitCleanError>(true),
        code == Some(1i32) ==> r == Ok::<bool, GitCleanError>(false),
        forall|c: i32|
            code == Some(c) && c != 0 && c != 1 ==> fails_git(
                r,
                "git check-ignore exited with status "@ + signed_decimal(c as int),
            ),
        code is None ==> fails_git(r, "git check-ignore terminated unexpectedly"@),
{
    match code {
        Some(0) => Ok(true),
        Some(1) => Ok(false),
        Some(c) => {
            let mut text = String::from_str("git check-ignore exited with status ");
            if c < 0 {
                proof {
                    reveal_strlit("-");
                }
                text.append("-");
                let magnitude: u64 = (0i64 - c as i64) as u64;
                push_decimal(&mut text, magnitude as u128);
            } else {
                push_decimal(&mut text, c as u128);
            }
            assert(text@ =~= "git check-ignore exited with status "@ + signed_decimal(c as int));
            Err(GitCleanError::GitCommand(text))
        },
        None => Err(git_command("git check-ignore terminated unexpectedly")),
    }
}

/// The first checks repeated just before a deletion: the candidate still
/// lies strictly inside the target and has no `.git` component.
pub fn check_candidate_location(target: &FsPath, candidate: &Candidate) -> (r: Result<
    (),
    GitCleanError,
>)
    ensures
        (!is_prefix_of(target@, candidate.path@) || candidate.path@ == target@) ==> fails_unsafe(
            r,
            "candidate escaped target: "@ + shown_path(candidate.path@),
        ),
        is_prefix_of(target@, candidate.path@) && candidate.path@ != target@ && has_component(
            candidate.path@,
            dot_git(),
        ) ==> fails_unsafe(r, "candidate path contains .git"@),
        is_prefix_of(target@, candidate.path@) && candidate.path@ != target@ && !has_component(
            candidate.path@,
            dot_git(),
        ) ==> r is Ok,
{
    if !candidate.path.starts_with(target) || candidate.path.same_as(target) {
        return Err(unsafe_target_at("candidate escaped target: ", &candidate.path));
    }
    if candidate.path.has_dot_git() {
        return Err(unsafe_target("candidate path contains .git"));
    }
    Ok(())
}

/// The candidate must still be a directory and not a symlink.
pub fn check_candidate_file_type(candidate: &Candidate, is_symlink: bool, is_dir: bool) -> (r:
    Result<(), GitCleanError>)
    ensures
        (is_symlink || !is_dir) ==> fails_unsafe(
            r,
            "candidate changed type before deletion: "@ + shown_path(candidate.path@),
        ),
        (!is_symlink && is_dir) ==> r is Ok,
{
    if is_symlink || !is_dir {
        return Err(
            unsafe_target_at("candidate changed type before deletion: ", &candidate.path),
        );
    }
    Ok(())
}

/// The candidate must still hold no `.git` metadata.
pub fn check_candidate_git_metadata(candidate: &Candidate, contains_git: bool) -> (r: Result<
    (),
    GitCleanError,
>)
    ensures
        contains_git ==> fails_unsafe(
            r,
            "candidate gained .git metadata before deletion: "@ + shown_path(candidate.path@),
        ),
        !contains_git ==> r is Ok,
{
    if contains_git {
        return Err(
            unsafe_target_at("candidate gained .git metadata before deletion: ", &candidate.path),
        );
    }
    Ok(())
}

/// No path in the Git index may lie at or under the candidate.
pub fn check_candidate_unindexed(candidate: &Candidate, indexed: &Vec<FsPath>) -> (r: Result<
    (),
    GitCleanError,
>)
    ensures
        lies_under_any(paths_view(indexed@), candidate.path@) ==> fails_unsafe(
            r,
            "candidate gained Git-tracked files before deletion: "@ + shown_path(candidate.path@),
        ),
        !lies_under_any(paths_view(indexed@), candidate.path@) ==> r is Ok,
{
    if any_lies_under(indexed, &candidate.path) {
        return Err(
            unsafe_target_at(
                "candidate gained Git-tracked files before deletion: ",
                &candidate.path,
            ),
        );
    }
    Ok(())
}

/// An ambiguous candidate must still be ignored by Git.
pub fn check_candidate_still_ignored(candidate: &Candidate, ignored: bool) -> (r: Result<
    (),
    GitCleanError,
>)
    ensures
        (candidate.kind == CandidateKind::AmbiguousGenerated && !ignored) ==> fails_unsafe(
            r,
            "ambiguous candidate is no longer ignored by Git: "@ + shown_path(candidate.path@),
        ),
        !(candidate.kind == CandidateKind::AmbiguousGenerated && !ignored) ==> r is Ok,
{
    if candidate.kind == CandidateKind::AmbiguousGenerated && !ignored {
        return Err(
            unsafe_target_at("ambiguous candidate is no longer ignored by Git: ", &candidate.path),
        );
    }
    Ok(())
}

/// What has been learned about a candidate just before its deletion. Each
/// fact is `None` until it has been looked up.
pub struct RecheckFacts {
    /// Whether the path is a symlink, and whether it is a directory.
    pub file_type: Option<(bool, bool)>,
    /// Whether a `.git` entry lies below the candidate.
    pub contains_git: Option<bool>,
    /// The paths in the Git index, and in the index of each nested
    /// repository that holds the candidate, as they stand now.
    pub indexed: Option<Vec<FsPath>>,
    /// Whether Git reports the candidate as ignored.
    pub ignored: Option<bool>,
}

impl RecheckFacts {
    /// Nothing looked up yet.
    pub fn new() -> (r: RecheckFacts)
        ensures
            r.file_type is None,
            r.contains_git is None,
            r.indexed is None,
            r.ignored is None,
    {
        RecheckFacts {
            file_type: None,
            contains_git: None,
            indexed: None,
            ignored: None,
        }
    }
}

/// The next step of the checks made just before a deletion.
#[derive(Debug, Clone, Copy, PartialEq, Eq, Structural)]
pub enum RecheckStep {
    /// Every check passed: the candidate may be deleted.
    Cleared,
    /// Look up the file type of the path.
    NeedFileType,
    /// Walk the candidate for `.git` entries.
    NeedGitMetadata,
    /// List the Git index again.
    NeedIndex,
    /// Ask Git whether the candidate is ignored.
    NeedIgnoreStatus,
}

/// Why the candidate may not be deleted, if a check on the location fails.
pub open spec fn location_fault(target: Seq<Seq<u8>>, path: Seq<Seq<u8>>) -> Option<Seq<char>> {
    if !is_prefix_of(target, path) || path == target {
        Some("candidate escaped target: "@ + shown_path(path))
    } else if has_component(path, dot_git()) {
        Some("candidate path contains .git"@)
    } else {
        None
    }
}

/// The checks made just before a deletion, in order, on the facts looked up
/// so far: the first check that fails gives its message, and the first fact
/// still missing is the next step.
pub open spec fn spec_recheck(
    target: Seq<Seq<u8>>,
    candidate: Candidate,
    facts: RecheckFacts,
) -> Result<RecheckStep, Seq<char>> {
    let path = candidate.path@;
    let shown = shown_path(path);
    if let Some(m) = location_fault(target, path) {
        Err(m)
    } else {
        match facts.file_type {
            None => Ok(RecheckStep::NeedFileType),
            Some((is_symlink, is_dir)) => if is_symlink || !is_dir {
                Err("candidate changed type before deletion: "@ + shown)
            } else {
                match facts.contains_git {
                    None => Ok(RecheckStep::NeedGitMetadata),
                    Some(g) => if g {
                        Err("candidate gained .git metadata before deletion: "@ + shown)
                    } else {
                        match facts.indexed {
                            None => Ok(RecheckStep::NeedIndex),
                            Some(v) => if lies_under_any(paths_view(v@), path) {
                                Err("candidate gained Git-tracked files before deletion: "@ + shown)
                            } else if candidate.kind == CandidateKind::AmbiguousGenerated {
                                match facts.ignored {
                                    None => Ok(RecheckStep::NeedIgnoreStatus),
                                    Some(i) => if !i {
                                        Err(
                                            "ambiguous candidate is no longer ignored by Git: "@
                                                + shown,
                                        )
                                    } else {
                                        Ok(RecheckStep::Cleared)
                                    },
                                }
                            } else {
                                Ok(RecheckStep::Cleared)
                            },
                        }
                    },
                }
            },
        }
    }
}

/// Every check made before a deletion passes on these facts.
pub open spec fn passes_every_recheck(
    target: Seq<Seq<u8>>,
    candidate: Candidate,
    facts: RecheckFacts,
) -> bool {
    let path = candidate.path@;
    &&& is_prefix_of(target, path) && path != target
    &&& !has_component(path, dot_git())
    &&& facts.file_type == Some((false, true))
    &&& facts.contains_git == Some(false)
    &&& facts.indexed matches Some(v) && !lies_under_any(paths_view(v@), path)
    &&& candidate.kind == CandidateKind::AmbiguousGenerated ==> facts.ignored == Some(true)
}

/// Runs the checks made just before a deletion on the facts looked up so
/// far. It fails at the first check that fails, asks for the first fact
/// still missing, and clears the candidate exactly when every check passes.
pub fn recheck(target: &FsPath, candidate: &Candidate, facts: &RecheckFacts) -> (r: Result<
    RecheckStep,
    GitCleanError,
>)
    ensures
        spec_recheck(target@, *candidate, *facts) matches Ok(step) ==> r == Ok::<
            RecheckStep,
            GitCleanError,
        >(step),
        spec_recheck(target@, *candidate, *facts) matches Err(m) ==> fails_unsafe(r, m),
        (r == Ok::<RecheckStep, GitCleanError>(RecheckStep::Cleared)) <==> passes_every_recheck(
            target@,
            *candidate,
            *facts,
        ),
{
    check_candidate_location(target, candidate)?;
    match facts.file_type {
        None => return Ok(RecheckStep::NeedFileType),
        Some((is_symlink, is_dir)) => {
            check_candidate_file_type(candidate, is_symlink, is_dir)?;
        },
    }
    match facts.contains_git {
        None => return Ok(RecheckStep::NeedGitMetadata),
        Some(g) => {
            check_candidate_git_metadata(candidate, g)?;
        },
    }
    match &facts.indexed {
        None => return Ok(RecheckStep::NeedIndex),
        Some(v) => {
            check_candidate_unindexed(candidate, v)?;
        },
    }
    if needs_ignore_check(candidate.kind) {
        match facts.ignored {
            None => return Ok(RecheckStep::NeedIgnoreStatus),
            Some(i) => {
                check_candidate_still_ignored(candidate, i)?;
            },
        }
    }
    Ok(RecheckStep::Cleared)
}

} // verus!
