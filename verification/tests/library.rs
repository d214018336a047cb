use gitclean::{
    check_candidate_file_type, check_candidate_git_metadata, check_candidate_location,
    check_candidate_still_ignored, check_candidate_unindexed, check_git_root,
    check_requested_target, classify_candidate, descend_after, display_relative, finish_apply,
    finish_scan, human_bytes, ignore_check_path, indexed_paths_from_listing,
    indexed_paths_from_output, interpret_check_ignore, needs_ignore_check, path_from_git_bytes,
    plan_deletions, sort_candidates, triage_entry, Candidate, CandidateKind, CandidateStatus,
    EntryAction, FsPath, GitCleanError, InspectStep, InspectTally, ScanReport,
};

fn path(text: &str) -> FsPath {
    FsPath {
        components: text
            .split('/')
            .filter(|c| !c.is_empty())
            .map(|c| c.as_bytes().to_vec())
            .collect(),
    }
}

fn candidate(p: &str, size: u64, safe: bool) -> Candidate {
    Candidate {
        path: path(p),
        size_bytes: size,
        kind: CandidateKind::Generated,
        status: if safe { CandidateStatus::Safe } else { CandidateStatus::Skipped("x".into()) },
    }
}

fn report(candidates: Vec<Candidate>) -> ScanReport {
    ScanReport { target: path("/r"), git_root: Some(path("/r")), candidates }
}

fn unsafe_message(e: GitCleanError) -> String {
    match e {
        GitCleanError::UnsafeTarget(m) => m,
        other => panic!("expected UnsafeTarget, got {other:?}"),
    }
}

fn git_message(e: GitCleanError) -> String {
    match e {
        GitCleanError::GitCommand(m) => m,
        other => panic!("expected GitCommand, got {other:?}"),
    }
}

/// What the float formatting of sizes gives, for comparison.
fn float_human_bytes(bytes: u64) -> String {
    let units = ["B", "KiB", "MiB", "GiB", "TiB"];
    let mut value = bytes as f64;
    let mut unit = 0_usize;
    while value >= 1024.0 && unit < units.len() - 1 {
        value /= 1024.0;
        unit += 1;
    }
    if unit == 0 {
        format!("{bytes} {}", units[unit])
    } else {
        format!("{value:.1} {}", units[unit])
    }
}

#[test]
fn classify_known_names() {
    for name in [
        "target", "node_modules", "__pycache__", ".pytest_cache", ".mypy_cache", ".ruff_cache",
        ".tox", ".nox", ".next", ".nuxt", ".parcel-cache", ".turbo", ".vite", ".gradle",
        "cmake-build-debug", "cmake-build-",
    ] {
        assert_eq!(classify_candidate(name), Some(CandidateKind::Generated), "{name}");
    }
    for name in ["build", "dist", "out", "coverage"] {
        assert_eq!(classify_candidate(name), Some(CandidateKind::AmbiguousGenerated), "{name}");
    }
    for name in ["", "src", "Target", "targets", "cmake-build", "build2", ".git", "outs"] {
        assert_eq!(classify_candidate(name), None, "{name}");
    }
}

#[test]
fn triage_never_enters_dot_git() {
    assert_eq!(triage_entry(".git", true, false), EntryAction::SkipDirectory);
    assert_eq!(triage_entry(".git", false, false), EntryAction::Pass);
    assert_eq!(triage_entry("src", true, false), EntryAction::Pass);
    assert_eq!(triage_entry("target", false, false), EntryAction::Pass);
    assert_eq!(triage_entry("dist", true, true), EntryAction::RecordSymlink(CandidateKind::AmbiguousGenerated));
}

#[test]
fn walk_stops_below_safe_directories_only() {
    assert!(!descend_after(&CandidateStatus::Safe));
    assert!(descend_after(&CandidateStatus::Skipped("contains .git metadata".into())));
}

#[test]
fn human_bytes_exact_values() {
    assert_eq!(human_bytes(0), "0 B");
    assert_eq!(human_bytes(1023), "1023 B");
    assert_eq!(human_bytes(1024), "1.0 KiB");
    assert_eq!(human_bytes(1536), "1.5 KiB");
    assert_eq!(human_bytes(4096), "4.0 KiB");
    assert_eq!(human_bytes(1024 * 1024 - 1), "1024.0 KiB");
    assert_eq!(human_bytes(1024 * 1024), "1.0 MiB");
    assert_eq!(human_bytes(88_290_000), "84.2 MiB");
    assert_eq!(human_bytes(1 << 40), "1.0 TiB");
    assert_eq!(human_bytes(u64::MAX), "16777216.0 TiB");
}

#[test]
fn human_bytes_matches_float_formatting() {
    let mut samples: Vec<u64> = Vec::new();
    for b in 0..5000u64 {
        samples.push(b);
    }
    for k in 1..64u32 {
        let p = 1u64 << k;
        for d in 0..40u64 {
            samples.push(p.wrapping_add(d));
            samples.push(p.wrapping_sub(d));
            samples.push(p.wrapping_mul(10).wrapping_add(d * 1000));
        }
    }
    for m in [1u64, 3, 5, 7, 9, 11, 13, 15, 17, 19, 21, 25, 99, 101, 1001] {
        for shift in [8u32, 18, 28, 38] {
            samples.push(m << shift);
            samples.push((m << shift) + 1);
            samples.push((m << shift) - 1);
        }
    }
    let mut x: u64 = 0x9e37_79b9_7f4a_7c15;
    for _ in 0..200_000 {
        x ^= x << 13;
        x ^= x >> 7;
        x ^= x << 17;
        samples.push(x);
        samples.push(x >> (x % 64));
    }
    samples.push(u64::MAX);
    samples.push(u64::MAX - 1024);
    samples.push((1u64 << 53) + 1);
    samples.push((1u64 << 54) + 2);
    samples.push((1u64 << 54) + 6);
    for b in samples {
        assert_eq!(human_bytes(b), float_human_bytes(b), "{b}");
    }
}

#[test]
fn paths_sort_by_component() {
    let sorted = sort_candidates(vec![
        candidate("/r/a-b", 1, true),
        candidate("/r/b", 2, true),
        candidate("/r/a/b", 3, true),
        candidate("/r/a", 4, true),
    ]);
    let order: Vec<u64> = sorted.iter().map(|c| c.size_bytes).collect();
    assert_eq!(order, vec![4, 3, 1, 2]);
    let mut expected = vec![path("/r/a-b"), path("/r/b"), path("/r/a/b"), path("/r/a")];
    expected.sort_by(|l, r| {
        let lp: std::path::PathBuf = std::path::PathBuf::from(format!("/{}", l.components.iter().map(|c| String::from_utf8(c.clone()).unwrap()).collect::<Vec<_>>().join("/")));
        let rp: std::path::PathBuf = std::path::PathBuf::from(format!("/{}", r.components.iter().map(|c| String::from_utf8(c.clone()).unwrap()).collect::<Vec<_>>().join("/")));
        lp.cmp(&rp)
    });
    let got: Vec<FsPath> = sorted.into_iter().map(|c| c.path).collect();
    assert_eq!(got, expected);
}

#[test]
fn scan_report_is_sorted() {
    let report = finish_scan(
        path("/r"),
        None,
        vec![candidate("/r/z", 1, false), candidate("/r/m/target", 2, false), candidate("/r/m", 3, false)],
    );
    let sizes: Vec<u64> = report.candidates.iter().map(|c| c.size_bytes).collect();
    assert_eq!(sizes, vec![3, 2, 1]);
}

#[test]
fn totals_over_candidates() {
    let r = report(vec![candidate("/r/a", 10, true), candidate("/r/b", 20, false), candidate("/r/c", 30, true)]);
    assert_eq!(r.reclaimable_bytes(), 40);
    assert_eq!(r.try_reclaimable_bytes(), Some(40));
    assert_eq!(r.safe_count(), 2);
    assert_eq!(r.skipped_count(), 1);
    let empty = report(vec![]);
    assert_eq!(empty.reclaimable_bytes(), 0);
    assert_eq!(empty.safe_count(), 0);
}

#[test]
fn reclaimable_overflow_is_reported() {
    let r = report(vec![candidate("/r/a", u64::MAX, true), candidate("/r/b", 1, true)]);
    assert_eq!(r.try_reclaimable_bytes(), None);
    let applied = finish_apply(r);
    assert_eq!(applied.freed_bytes, u64::MAX);
}

#[test]
fn apply_deletes_exactly_the_safe_candidates() {
    let r = report(vec![candidate("/r/a", 10, true), candidate("/r/b", 20, false), candidate("/r/c", 30, true)]);
    assert_eq!(plan_deletions(&r).unwrap(), vec![0, 2]);
    let reclaimable = r.reclaimable_bytes();
    let safe = r.safe_count();
    let applied = finish_apply(r);
    assert_eq!(applied.deleted, vec![path("/r/a"), path("/r/c")]);
    assert_eq!(applied.freed_bytes, reclaimable);
    assert_eq!(applied.deleted.len(), safe);
}

#[test]
fn inspect_tally_counts_and_saturates() {
    let mut t = InspectTally::new();
    assert_eq!(t.observe(0, b".git", true, false), InspectStep::Pass);
    assert!(!t.contains_git);
    assert_eq!(t.observe(2, b"f", false, true), InspectStep::CountFile);
    t.add_file(u64::MAX - 5);
    t.add_file(10);
    assert_eq!(t.size, u64::MAX);
    assert_eq!(t.observe(3, b".git", false, true), InspectStep::Pass);
    assert!(t.contains_git);
}

#[test]
fn git_path_bytes_become_components() {
    let parts = path_from_git_bytes(b"a//./b/c.txt/");
    assert_eq!(parts, vec![b"a".to_vec(), b"b".to_vec(), b"c.txt".to_vec()]);
    assert!(path_from_git_bytes(b"").is_empty());
    let raw = path_from_git_bytes(&[0xff, b'/', b'x']);
    assert_eq!(raw, vec![vec![0xff], b"x".to_vec()]);
}

#[test]
fn index_listing_is_split_on_nul() {
    let root = path("/r");
    let listed = indexed_paths_from_listing(&root, b"a/b\0\0c\0");
    assert_eq!(listed, vec![path("/r/a/b"), path("/r/c")]);
    let failed = indexed_paths_from_output(&root, false, b"", b"fatal: not a git repository\n");
    assert_eq!(git_message(failed.unwrap_err()), "fatal: not a git repository");
    let ok = indexed_paths_from_output(&root, true, b"x", b"").unwrap();
    assert_eq!(ok, vec![path("/r/x")]);
}

#[test]
fn check_ignore_exit_codes() {
    assert_eq!(interpret_check_ignore(Some(0)).unwrap(), true);
    assert_eq!(interpret_check_ignore(Some(1)).unwrap(), false);
    assert_eq!(
        git_message(interpret_check_ignore(Some(128)).unwrap_err()),
        "git check-ignore exited with status 128"
    );
    assert_eq!(
        git_message(interpret_check_ignore(Some(-3)).unwrap_err()),
        "git check-ignore exited with status -3"
    );
    assert_eq!(
        git_message(interpret_check_ignore(Some(i32::MIN)).unwrap_err()),
        format!("git check-ignore exited with status {}", i32::MIN)
    );
    assert_eq!(
        git_message(interpret_check_ignore(None).unwrap_err()),
        "git check-ignore terminated unexpectedly"
    );
}

#[test]
fn ignore_check_needs_path_inside_worktree() {
    let rel = ignore_check_path(&path("/r"), &path("/r/x/build")).unwrap();
    assert_eq!(rel, vec![b"x".to_vec(), b"build".to_vec()]);
    assert_eq!(
        git_message(ignore_check_path(&path("/r"), &path("/s/build")).unwrap_err()),
        "candidate escaped the Git worktree"
    );
    assert!(needs_ignore_check(CandidateKind::AmbiguousGenerated));
    assert!(!needs_ignore_check(CandidateKind::Generated));
}

#[test]
fn git_root_must_contain_target() {
    assert_eq!(check_git_root(&path("/r/sub"), path("/r")).unwrap(), path("/r"));
    assert_eq!(
        git_message(check_git_root(&path("/rx"), path("/r")).unwrap_err()),
        "Git reported a worktree root that does not contain the target"
    );
}

#[test]
fn requested_target_must_be_a_directory() {
    assert!(check_requested_target(false, true).is_ok());
    assert_eq!(
        unsafe_message(check_requested_target(false, false).unwrap_err()),
        "the requested target is not a directory"
    );
    assert_eq!(
        unsafe_message(check_requested_target(true, false).unwrap_err()),
        "the requested target is a symlink"
    );
}

#[test]
fn revalidation_messages() {
    let target = path("/r");
    let c = candidate("/r/target", 1, true);
    assert!(check_candidate_location(&target, &c).is_ok());
    assert_eq!(
        unsafe_message(check_candidate_location(&target, &candidate("/s/target", 1, true)).unwrap_err()),
        "candidate escaped target: /s/target"
    );
    assert_eq!(
        unsafe_message(check_candidate_location(&target, &candidate("/r", 1, true)).unwrap_err()),
        "candidate escaped target: /r"
    );
    assert_eq!(
        unsafe_message(check_candidate_location(&target, &candidate("/r/.git/target", 1, true)).unwrap_err()),
        "candidate path contains .git"
    );
    assert_eq!(
        unsafe_message(check_candidate_file_type(&c, true, true).unwrap_err()),
        "candidate changed type before deletion: /r/target"
    );
    assert!(check_candidate_file_type(&c, false, true).is_ok());
    assert_eq!(
        unsafe_message(check_candidate_git_metadata(&c, true).unwrap_err()),
        "candidate gained .git metadata before deletion: /r/target"
    );
    assert!(check_candidate_git_metadata(&c, false).is_ok());
    assert_eq!(
        unsafe_message(check_candidate_unindexed(&c, &vec![path("/r/target/a")]).unwrap_err()),
        "candidate gained Git-tracked files before deletion: /r/target"
    );
    assert!(check_candidate_unindexed(&c, &vec![path("/r/targets/a"), path("/r")]).is_ok());
    let mut ambiguous = candidate("/r/build", 1, true);
    ambiguous.kind = CandidateKind::AmbiguousGenerated;
    assert_eq!(
        unsafe_message(check_candidate_still_ignored(&ambiguous, false).unwrap_err()),
        "ambiguous candidate is no longer ignored by Git: /r/build"
    );
    assert!(check_candidate_still_ignored(&ambiguous, true).is_ok());
    assert!(check_candidate_still_ignored(&c, false).is_ok());
}

#[test]
fn non_utf8_paths_are_shown_lossily() {
    let p = FsPath { components: vec![b"r".to_vec(), vec![b'a', 0xff]] };
    assert_eq!(
        unsafe_message(check_candidate_git_metadata(&Candidate { path: p, size_bytes: 0, kind: CandidateKind::Generated, status: CandidateStatus::Safe }, true).unwrap_err()),
        "candidate gained .git metadata before deletion: /r/a\u{fffd}"
    );
}

#[test]
fn relative_display_of_paths() {
    assert_eq!(display_relative(&path("/r"), &path("/r/a/target")), "a/target");
    assert_eq!(display_relative(&path("/r"), &path("/r")), "");
    assert_eq!(display_relative(&path("/r"), &path("/s/x")), "/s/x");
    assert_eq!(display_relative(&path("/"), &path("/x")), "x");
}
