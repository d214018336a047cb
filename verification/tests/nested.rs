use gitclean::{
    candidate_line, candidate_status, concat_paths, deleted_line, finish_apply,
    indexed_paths_from_listing, nested_worktree_probes, plan_deletions, recheck,
    trimmed_output_text, Candidate, CandidateKind, CandidateStatus, EntryAction, FsPath,
    GitCleanError, RecheckFacts, RecheckStep, Scanner, StatusCheck,
};

fn path(text: &str) -> FsPath {
    FsPath {
        components: text
            .split('/')
            .filter(|c| !c.is_empty())
            .map(|c| c.as_bytes().to_vec())
            .collect(),
    }
}

fn unsafe_message(e: GitCleanError) -> String {
    match e {
        GitCleanError::UnsafeTarget(m) => m,
        other => panic!("expected UnsafeTarget, got {other:?}"),
    }
}

#[test]
fn nested_repository_tracked_file_is_never_deleted() {
    // R is a repository; R/sub is a separate repository that tracks
    // sub/target/keep.txt. The outer index lists nothing under R/sub.
    let root = path("/tmp/r");
    let target = path("/tmp/r/sub/target");
    let outer = indexed_paths_from_listing(&root, b"README\0");
    let probes = nested_worktree_probes(&root, &target);
    assert_eq!(probes, vec![path("/tmp/r/sub")]);
    let nested = indexed_paths_from_listing(&path("/tmp/r/sub"), b"target/keep.txt\0");

    let mut scanner = Scanner::new(root.clone(), Some(root.clone()), outer);
    assert_eq!(scanner.worktree_probes(&target), probes);
    let action = scanner.triage(&target, true, false);
    assert_eq!(action, EntryAction::InspectDirectory(CandidateKind::Generated));
    match scanner.assess(&target, CandidateKind::Generated, &nested, false) {
        StatusCheck::Decided(status) => {
            assert_eq!(status, CandidateStatus::Skipped("contains Git-tracked files".into()))
        }
        StatusCheck::NeedsIgnoreCheck => panic!("decided without Git"),
    }
    let descend = scanner.record_directory(target.clone(), CandidateKind::Generated, 9, false, &nested, None);
    assert!(descend);
    let report = scanner.finish();
    assert!(plan_deletions(&report).unwrap().is_empty());
    assert!(finish_apply(report).deleted.is_empty());
}

#[test]
fn nested_repository_untracked_output_is_safe() {
    let root = path("/tmp/r");
    let target = path("/tmp/r/sub/target");
    let nested = indexed_paths_from_listing(&path("/tmp/r/sub"), b"src/main.rs\0");
    let mut scanner = Scanner::new(root.clone(), Some(root.clone()), vec![]);
    let descend = scanner.record_directory(target.clone(), CandidateKind::Generated, 9, false, &nested, None);
    assert!(!descend);
    let applied = finish_apply(scanner.finish());
    assert_eq!(applied.deleted, vec![target]);
}

#[test]
fn nested_tracked_file_found_at_deletion_time_stops_it() {
    let target = path("/tmp/r");
    let candidate = Candidate {
        path: path("/tmp/r/sub/target"),
        size_bytes: 1,
        kind: CandidateKind::Generated,
        status: CandidateStatus::Safe,
    };
    let mut facts = RecheckFacts::new();
    facts.file_type = Some((false, true));
    facts.contains_git = Some(false);
    let outer = vec![path("/tmp/r/README")];
    let nested = vec![path("/tmp/r/sub/target/keep.txt")];
    facts.indexed = Some(concat_paths(&outer, &nested));
    assert_eq!(
        unsafe_message(recheck(&target, &candidate, &facts).unwrap_err()),
        "candidate gained Git-tracked files before deletion: /tmp/r/sub/target"
    );
    facts.indexed = Some(outer);
    assert_eq!(recheck(&target, &candidate, &facts).unwrap(), RecheckStep::Cleared);
}

#[test]
fn probes_cover_the_directories_between_root_and_candidate() {
    let root = path("/r");
    assert_eq!(
        nested_worktree_probes(&root, &path("/r/a/b/target")),
        vec![path("/r/a"), path("/r/a/b")]
    );
    assert!(nested_worktree_probes(&root, &path("/r/target")).is_empty());
    assert!(nested_worktree_probes(&root, &path("/s/a/target")).is_empty());
    let no_root = Scanner::new(root.clone(), None, vec![]);
    assert!(no_root.worktree_probes(&path("/r/a/b/target")).is_empty());
}

#[test]
fn absolute_listing_records_are_not_placed_under_the_root() {
    let listed = indexed_paths_from_listing(&path("/r"), b"/abs/x\0rel/y\0");
    assert_eq!(listed, vec![path("/abs/x"), path("/r/rel/y")]);
    let joined = std::path::Path::new("/r").join("/abs/x");
    assert_eq!(joined, std::path::PathBuf::from("/abs/x"));
}

#[test]
fn status_checks_come_in_order() {
    let p = path("/r/target");
    let indexed = vec![path("/r/target/a")];
    match candidate_status(&p, CandidateKind::Generated, Some(&path("/r")), &indexed, true) {
        StatusCheck::Decided(s) => assert_eq!(s, CandidateStatus::Skipped("contains .git metadata".into())),
        _ => panic!(),
    }
    match candidate_status(&p, CandidateKind::Generated, None, &indexed, false) {
        StatusCheck::Decided(s) => assert_eq!(
            s,
            CandidateStatus::Skipped("not inside a Git worktree; tracked-file safety unavailable".into())
        ),
        _ => panic!(),
    }
}

#[test]
fn scanner_admits_nothing_inside_safe_or_git_directories() {
    let root = path("/r");
    let mut scanner = Scanner::new(root.clone(), Some(root.clone()), vec![]);
    let target = path("/r/target");
    assert_eq!(scanner.triage(&target, true, false), EntryAction::InspectDirectory(CandidateKind::Generated));
    let descend = scanner.record_directory(target.clone(), CandidateKind::Generated, 5, false, &vec![], None);
    assert!(!descend);
    // Inside the safe directory, or the directory itself again: nothing.
    assert_eq!(scanner.triage(&path("/r/target/build"), true, false), EntryAction::SkipDirectory);
    assert_eq!(scanner.triage(&path("/r/target/f"), false, false), EntryAction::Pass);
    assert_eq!(scanner.triage(&target, true, false), EntryAction::SkipDirectory);
    // Below a `.git` directory, or outside the target: nothing either.
    assert_eq!(scanner.triage(&path("/r/.git/target"), true, false), EntryAction::SkipDirectory);
    assert_eq!(scanner.triage(&path("/s/target"), true, false), EntryAction::SkipDirectory);
    assert_eq!(scanner.triage(&root, true, false), EntryAction::SkipDirectory);
    assert_eq!(scanner.triage(&path("/r/.git"), true, false), EntryAction::SkipDirectory);
    // A sibling with a similar name is admitted.
    assert_eq!(scanner.triage(&path("/r/targets/dist"), true, false), EntryAction::InspectDirectory(CandidateKind::AmbiguousGenerated));
    assert_eq!(scanner.triage(&path("/r/node_modules"), false, true), EntryAction::RecordSymlink(CandidateKind::Generated));
    scanner.record_symlink(path("/r/node_modules"), CandidateKind::Generated);
    assert_eq!(scanner.triage(&path("/r/node_modules"), false, true), EntryAction::Pass);
    let report = scanner.finish();
    assert_eq!(report.candidates.len(), 2);
    assert_eq!(report.candidates[0].path, path("/r/node_modules"));
    assert_eq!(report.candidates[1].path, target);
}

#[test]
fn skipped_directory_is_entered_but_not_recorded_again() {
    let root = path("/r");
    let indexed = vec![path("/r/build/keep.txt")];
    let mut scanner = Scanner::new(root.clone(), Some(root.clone()), indexed);
    let build = path("/r/build");
    let descend = scanner.record_directory(build.clone(), CandidateKind::AmbiguousGenerated, 3, false, &vec![], None);
    assert!(descend);
    assert_eq!(
        scanner.triage(&path("/r/build/target"), true, false),
        EntryAction::InspectDirectory(CandidateKind::Generated)
    );
    assert_eq!(scanner.triage(&build, true, false), EntryAction::SkipDirectory);
}

#[test]
fn scanner_asks_git_only_for_ambiguous_names() {
    let root = path("/r");
    let mut scanner = Scanner::new(root.clone(), Some(root.clone()), vec![]);
    let build = path("/r/build");
    assert!(matches!(scanner.assess(&build, CandidateKind::AmbiguousGenerated, &vec![], false), StatusCheck::NeedsIgnoreCheck));
    let descend = scanner.record_directory(build, CandidateKind::AmbiguousGenerated, 3, false, &vec![], Some(false));
    assert!(descend);
    assert_eq!(
        scanner.candidates[0].status,
        CandidateStatus::Skipped("ambiguous directory name and not ignored by Git".into())
    );
}

#[test]
fn recheck_asks_for_facts_in_order() {
    let target = path("/r");
    let mut c = Candidate {
        path: path("/r/build"),
        size_bytes: 1,
        kind: CandidateKind::AmbiguousGenerated,
        status: CandidateStatus::Safe,
    };
    let mut facts = RecheckFacts::new();
    assert_eq!(recheck(&target, &c, &facts).unwrap(), RecheckStep::NeedFileType);
    facts.file_type = Some((false, true));
    assert_eq!(recheck(&target, &c, &facts).unwrap(), RecheckStep::NeedGitMetadata);
    facts.contains_git = Some(false);
    assert_eq!(recheck(&target, &c, &facts).unwrap(), RecheckStep::NeedIndex);
    facts.indexed = Some(vec![path("/r/src/main.rs")]);
    assert_eq!(recheck(&target, &c, &facts).unwrap(), RecheckStep::NeedIgnoreStatus);
    facts.ignored = Some(true);
    assert_eq!(recheck(&target, &c, &facts).unwrap(), RecheckStep::Cleared);
    facts.ignored = Some(false);
    assert_eq!(
        unsafe_message(recheck(&target, &c, &facts).unwrap_err()),
        "ambiguous candidate is no longer ignored by Git: /r/build"
    );
    c.kind = CandidateKind::Generated;
    assert_eq!(recheck(&target, &c, &facts).unwrap(), RecheckStep::Cleared);
}

#[test]
fn recheck_stops_at_the_first_failed_check() {
    let target = path("/r");
    let c = Candidate {
        path: path("/s/build"),
        size_bytes: 1,
        kind: CandidateKind::Generated,
        status: CandidateStatus::Safe,
    };
    let mut facts = RecheckFacts::new();
    facts.file_type = Some((true, false));
    assert_eq!(unsafe_message(recheck(&target, &c, &facts).unwrap_err()), "candidate escaped target: /s/build");
    let c = Candidate { path: path("/r/build"), ..c };
    assert_eq!(
        unsafe_message(recheck(&target, &c, &facts).unwrap_err()),
        "candidate changed type before deletion: /r/build"
    );
    facts.file_type = Some((false, true));
    facts.contains_git = Some(true);
    facts.indexed = Some(vec![path("/r/build/x")]);
    assert_eq!(
        unsafe_message(recheck(&target, &c, &facts).unwrap_err()),
        "candidate gained .git metadata before deletion: /r/build"
    );
    facts.contains_git = Some(false);
    assert_eq!(
        unsafe_message(recheck(&target, &c, &facts).unwrap_err()),
        "candidate gained Git-tracked files before deletion: /r/build"
    );
}

#[test]
fn printed_lines() {
    let target = path("/home/alice/code/example");
    let safe = Candidate {
        path: path("/home/alice/code/example/node_modules"),
        size_bytes: 88_290_000,
        kind: CandidateKind::Generated,
        status: CandidateStatus::Safe,
    };
    assert_eq!(candidate_line(&target, &safe), "SAFE    84.2 MiB  node_modules");
    assert_eq!(candidate_line(&target, &safe), format!("SAFE  {:>10}  {}", "84.2 MiB", "node_modules"));
    let skipped = Candidate {
        path: path("/home/alice/code/example/dist"),
        size_bytes: 2_202_010,
        kind: CandidateKind::AmbiguousGenerated,
        status: CandidateStatus::Skipped("ambiguous directory name and not ignored by Git".into()),
    };
    assert_eq!(
        candidate_line(&target, &skipped),
        "SKIP     2.1 MiB  dist — ambiguous directory name and not ignored by Git"
    );
    let long = Candidate { size_bytes: u64::MAX, ..safe.clone() };
    assert_eq!(candidate_line(&target, &long), "SAFE  16777216.0 TiB  node_modules");
    assert_eq!(deleted_line(&target, &path("/home/alice/code/example/target")), "DELETED  target");
}

#[test]
fn trimmed_output_matches_str_trim() {
    assert_eq!(trimmed_output_text(b"  /tmp/repo\n"), "/tmp/repo");
    assert_eq!(trimmed_output_text(b"\t\r\n "), "");
    assert_eq!(trimmed_output_text(b""), "");
    assert_eq!(trimmed_output_text(&[b' ', 0xff, b'a', b'\n']), "\u{fffd}a");
    let mut c: u32 = 0;
    while c <= 0x10ffff {
        if let Some(ch) = char::from_u32(c) {
            let text = format!("{ch}{ch}x{ch}y{ch}");
            let expected = text.trim().to_string();
            assert_eq!(trimmed_output_text(text.as_bytes()), expected, "U+{c:04X}");
        }
        c += if c < 0x3100 { 1 } else { 97 };
    }
}
