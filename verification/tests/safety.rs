use gitclean::{
    candidate_status, check_canonical_target, check_requested_target, finish_apply,
    finish_scan, indexed_paths_from_listing, interpret_check_ignore, plan_deletions,
    status_after_ignore_check, symlink_candidate, triage_entry, Candidate, CandidateKind,
    CandidateStatus, EntryAction, FsPath, GitCleanError, InspectStep, InspectTally, ScanReport,
    StatusCheck,
};

fn path(text: &str) -> FsPath {
    FsPath {
        components: text
            .split('/')
            .filter(|c| !c.is_empty())
            .map(|c| c.as_bytes().to_vec())
            .collect(),
    }
}

fn repo() -> FsPath {
    path("/tmp/repo")
}

/// The status a scan gives a directory, from what the walk and Git report.
fn directory_status(
    dir: &FsPath,
    kind: CandidateKind,
    git_root: Option<&FsPath>,
    indexed: &Vec<FsPath>,
    contains_git: bool,
    ignore_exit_code: Option<i32>,
) -> CandidateStatus {
    match candidate_status(dir, kind, git_root, indexed, contains_git) {
        StatusCheck::Decided(status) => status,
        StatusCheck::NeedsIgnoreCheck => {
            status_after_ignore_check(interpret_check_ignore(ignore_exit_code).unwrap())
        }
    }
}

fn scan_of(candidates: Vec<Candidate>, git_root: Option<FsPath>) -> ScanReport {
    finish_scan(repo(), git_root, candidates)
}

#[test]
fn dry_run_never_deletes_candidates() {
    let target = repo().join_component(b"target");
    assert_eq!(
        triage_entry("target", true, false),
        EntryAction::InspectDirectory(CandidateKind::Generated)
    );
    let mut tally = InspectTally::new();
    assert_eq!(tally.observe(0, b"target", true, false), InspectStep::Pass);
    assert_eq!(tally.observe(1, b"artifact.bin", false, true), InspectStep::CountFile);
    tally.add_file(4096);
    let status = directory_status(
        &target,
        CandidateKind::Generated,
        Some(&repo()),
        &vec![],
        tally.contains_git,
        None,
    );
    let report = scan_of(
        vec![Candidate { path: target, size_bytes: tally.size, kind: CandidateKind::Generated, status }],
        Some(repo()),
    );
    assert_eq!(report.safe_count(), 1);
    assert!(report.reclaimable_bytes() >= 4096);
}

#[test]
fn apply_deletes_untracked_generated_directory() {
    let target = repo().join_component(b"target");
    let status =
        directory_status(&target, CandidateKind::Generated, Some(&repo()), &vec![], false, None);
    let report = scan_of(
        vec![Candidate { path: target.clone(), size_bytes: 1024, kind: CandidateKind::Generated, status }],
        Some(repo()),
    );
    assert_eq!(plan_deletions(&report).unwrap(), vec![0]);
    let applied = finish_apply(report);
    assert_eq!(applied.deleted, vec![target]);
    assert!(applied.freed_bytes >= 1024);
}

#[test]
fn apply_preserves_tracked_files_and_their_parent_candidate() {
    let target = repo().join_component(b"target");
    let indexed = indexed_paths_from_listing(&repo(), b"target/keep.txt\0");
    let status =
        directory_status(&target, CandidateKind::Generated, Some(&repo()), &indexed, false, None);
    assert_eq!(status, CandidateStatus::Skipped("contains Git-tracked files".into()));
    let report = scan_of(
        vec![Candidate { path: target, size_bytes: 9, kind: CandidateKind::Generated, status }],
        Some(repo()),
    );
    let applied = finish_apply(report);
    assert!(applied.deleted.is_empty());
}

#[test]
fn apply_never_deletes_candidate_containing_git_metadata() {
    let target = repo().join_component(b"target");
    let mut tally = InspectTally::new();
    assert_eq!(tally.observe(1, b".git", true, false), InspectStep::SkipDirectory);
    assert!(tally.contains_git);
    let status = directory_status(
        &target,
        CandidateKind::Generated,
        Some(&repo()),
        &vec![],
        tally.contains_git,
        None,
    );
    assert_eq!(status, CandidateStatus::Skipped("contains .git metadata".into()));
    let report = scan_of(
        vec![Candidate { path: target, size_bytes: tally.size, kind: CandidateKind::Generated, status }],
        Some(repo()),
    );
    let applied = finish_apply(report);
    assert!(applied.deleted.is_empty());
}

#[test]
fn symlink_candidate_is_not_followed_or_deleted() {
    let link = repo().join_component(b"node_modules");
    let action = triage_entry("node_modules", false, true);
    assert_eq!(action, EntryAction::RecordSymlink(CandidateKind::Generated));
    let candidate = symlink_candidate(link, CandidateKind::Generated);
    assert_eq!(candidate.size_bytes, 0);
    assert_eq!(candidate.status, CandidateStatus::Skipped("symlink (never followed)".into()));
    let applied = finish_apply(scan_of(vec![candidate], Some(repo())));
    assert!(applied.deleted.is_empty());
}

#[test]
fn symlink_inside_candidate_does_not_delete_external_target() {
    let target = repo().join_component(b"target");
    let mut tally = InspectTally::new();
    // A symlink below the candidate is neither a directory nor a regular file.
    assert_eq!(tally.observe(1, b"external-link", false, false), InspectStep::Pass);
    assert_eq!(tally.size, 0);
    let status = directory_status(
        &target,
        CandidateKind::Generated,
        Some(&repo()),
        &vec![],
        tally.contains_git,
        None,
    );
    let applied = finish_apply(scan_of(
        vec![Candidate { path: target.clone(), size_bytes: tally.size, kind: CandidateKind::Generated, status }],
        Some(repo()),
    ));
    assert_eq!(applied.deleted, vec![target]);
}

#[test]
fn apply_requires_git_worktree() {
    let target = repo().join_component(b"target");
    let status = directory_status(&target, CandidateKind::Generated, None, &vec![], false, None);
    assert_eq!(
        status,
        CandidateStatus::Skipped(
            "not inside a Git worktree; tracked-file safety unavailable".into()
        )
    );
    let report = scan_of(
        vec![Candidate { path: target, size_bytes: 0, kind: CandidateKind::Generated, status }],
        None,
    );
    let error = plan_deletions(&report).unwrap_err();
    assert!(matches!(error, GitCleanError::GitRequired));
}

#[test]
fn ambiguous_build_directory_requires_gitignore() {
    let build = repo().join_component(b"build");
    assert_eq!(
        triage_entry("build", true, false),
        EntryAction::InspectDirectory(CandidateKind::AmbiguousGenerated)
    );
    // `git check-ignore -q` exits with 1: not ignored.
    let first = directory_status(
        &build,
        CandidateKind::AmbiguousGenerated,
        Some(&repo()),
        &vec![],
        false,
        Some(1),
    );
    let first = finish_apply(scan_of(
        vec![Candidate { path: build.clone(), size_bytes: 9, kind: CandidateKind::AmbiguousGenerated, status: first }],
        Some(repo()),
    ));
    assert!(first.deleted.is_empty());

    // After `build/` is added to `.gitignore`, it exits with 0.
    let second = directory_status(
        &build,
        CandidateKind::AmbiguousGenerated,
        Some(&repo()),
        &vec![],
        false,
        Some(0),
    );
    let second = finish_apply(scan_of(
        vec![Candidate { path: build.clone(), size_bytes: 9, kind: CandidateKind::AmbiguousGenerated, status: second }],
        Some(repo()),
    ));
    assert_eq!(second.deleted, vec![build.clone()]);
}

#[test]
fn target_path_inside_dot_git_is_rejected() {
    let git_dir = repo().join_component(b".git");
    let error = check_canonical_target(git_dir, None).unwrap_err();
    assert!(matches!(error, GitCleanError::UnsafeTarget(_)));
}

#[test]
fn symlink_as_requested_target_is_rejected() {
    let error = check_requested_target(true, true).unwrap_err();
    assert!(matches!(error, GitCleanError::UnsafeTarget(_)));
}

#[test]
fn filesystem_root_is_rejected() {
    let error = check_canonical_target(FsPath::root(), None).unwrap_err();
    assert!(matches!(error, GitCleanError::UnsafeTarget(_)));
}

#[test]
fn home_directory_is_rejected() {
    let home = path("/home/alice");
    let error = check_canonical_target(home.clone(), Some(&home)).unwrap_err();
    assert!(matches!(error, GitCleanError::UnsafeTarget(_)));
}
