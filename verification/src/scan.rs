//! The decisions of a scan: what to do with each directory entry, and the
//! report's order.

use vstd::prelude::*;
use crate::classify::{classify_candidate, spec_classify, CandidateKind};
use crate::fspath::FsPath;
use crate::fspath::{dot_git, has_component};
use crate::model::{skipped, skipped_for, Candidate, CandidateStatus, ScanReport};
use crate::report::is_safe;
use crate::safety::{
    candidate_status, concat_paths, lies_under_any, nested_worktree_probes, paths_view,
    status_after_ignore_check, worktree_probes, StatusCheck,
};
use crate::text::{decode_lossy, is_prefix_of, utf8_lossy};
use crate::order::{lemma_path_lt_total, lemma_path_lt_transitive, path_less, path_lt};
use crate::text::str_equal;

verus! {

broadcast use vstd::seq_lib::group_to_multiset_ensures;

/// What a scan does with one entry of the walk.
#[derive(Debug, Clone, Copy, PartialEq, Eq, Structural)]
pub enum EntryAction {
    /// A `.git` directory: do not descend into it.
    SkipDirectory,
    /// Nothing to record; descend as usual.
    Pass,
    /// A symlink with a candidate's name: record it as skipped, never follow it.
    RecordSymlink(CandidateKind),
    /// A directory with a candidate's name: measure it and decide its status.
    InspectDirectory(CandidateKind),
}

/// The action for an entry of the walk, from its name and file type.
pub open spec fn spec_triage(name: Seq<char>, is_dir: bool, is_symlink: bool) -> EntryAction {
    if name == ".git"@ {
        if is_dir {
            EntryAction::SkipDirectory
        } else {
            EntryAction::Pass
        }
    } else {
        match spec_classify(name) {
            None => EntryAction::Pass,
            Some(kind) => if is_symlink {
                EntryAction::RecordSymlink(kind)
            } else if is_dir {
                EntryAction::InspectDirectory(kind)
            } else {
                EntryAction::Pass
            },
        }
    }
}

/// The walk skips a directory only when it is `.git`. An entry with a
/// candidate's name is inspected exactly when it is a directory and not a
/// symlink, and recorded unfollowed exactly when it is a symlink; every other
/// entry is passed over.
pub proof fn law_triage_follows_classification(name: Seq<char>, is_dir: bool, is_symlink: bool)
    ensures
        spec_triage(name, is_dir, is_symlink) == EntryAction::SkipDirectory <==> (name == ".git"@
            && is_dir),
        forall|k: CandidateKind|
            spec_triage(name, is_dir, is_symlink) == EntryAction::InspectDirectory(k) <==> (
            spec_classify(name) == Some(k) && is_dir && !is_symlink),
        forall|k: CandidateKind|
            spec_triage(name, is_dir, is_symlink) == EntryAction::RecordSymlink(k) <==> (
            spec_classify(name) == Some(k) && is_symlink),
        spec_triage(name, is_dir, is_symlink) == EntryAction::Pass <==> (name == ".git"@ && !is_dir
            || name != ".git"@ && (spec_classify(name) is None || !is_dir && !is_symlink)),
{
    crate::classify::law_classification_is_exact(name);
    reveal_strlit(".git");
    reveal_strlit(".tox");
    reveal_strlit(".nox");
    reveal_strlit("dist");
    reveal_strlit("cmake-build-");
    reveal_strlit("target");
    reveal_strlit("node_modules");
    reveal_strlit("__pycache__");
    reveal_strlit(".pytest_cache");
    reveal_strlit(".mypy_cache");
    reveal_strlit(".ruff_cache");
    reveal_strlit(".next");
    reveal_strlit(".nuxt");
    reveal_strlit(".parcel-cache");
    reveal_strlit(".turbo");
    reveal_strlit(".vite");
    reveal_strlit(".gradle");
    reveal_strlit("build");
    reveal_strlit("out");
    reveal_strlit("coverage");
    if name == ".git"@ {
        assert(name.len() == 4 && name[0] == '.' && name[1] == 'g');
        assert(spec_classify(name) is None);
    }
}

/// Decides what a scan does with an entry of the walk. `.git` is never
/// entered, and a symlink is never inspected.
pub fn triage_entry(name: &str, is_dir: bool, is_symlink: bool) -> (r: EntryAction)
    ensures
        r == spec_triage(name@, is_dir, is_symlink),
{
    if str_equal(name, ".git") {
        return if is_dir {
            EntryAction::SkipDirectory
        } else {
            EntryAction::Pass
        };
    }
    match classify_candidate(name) {
        None => EntryAction::Pass,
        Some(kind) => {
            if is_symlink {
                EntryAction::RecordSymlink(kind)
            } else if is_dir {
                EntryAction::InspectDirectory(kind)
            } else {
                EntryAction::Pass
            }
        },
    }
}

/// The candidate recorded for a symlink: never followed, never measured,
/// never deleted.
pub fn symlink_candidate(path: FsPath, kind: CandidateKind) -> (r: Candidate)
    ensures
        r.path == path,
        r.size_bytes == 0,
        r.kind == kind,
        skipped_for(r.status, "symlink (never followed)"@),
{
    Candidate { path, size_bytes: 0, kind, status: skipped("symlink (never followed)") }
}

/// Whether the walk goes on into a recorded directory: not into one that is
/// safe to delete as a whole.
pub fn descend_after(status: &CandidateStatus) -> (r: bool)
    ensures
        r == !(status is Safe),
{
    match status {
        CandidateStatus::Safe => false,
        CandidateStatus::Skipped(_) => true,
    }
}

/// The candidates are in path order.
pub open spec fn sorted_by_path(s: Seq<Candidate>) -> bool {
    forall|i: int, j: int| 0 <= i < j < s.len() ==> !path_lt(#[trigger] s[j].path@, #[trigger] s[i].path@)
}

/// Inserting before the first later path keeps the order.
proof fn lemma_insert_sorted(s: Seq<Candidate>, p: int, x: Candidate)
    requires
        sorted_by_path(s),
        0 <= p <= s.len(),
        forall|k: int| 0 <= k < p ==> !path_lt(x.path@, #[trigger] s[k].path@),
        p < s.len() ==> path_lt(x.path@, s[p].path@),
    ensures
        sorted_by_path(s.insert(p, x)),
{
    let t = s.insert(p, x);
    assert forall|i: int, j: int| 0 <= i < j < t.len() implies !path_lt(
        #[trigger] t[j].path@,
        #[trigger] t[i].path@,
    ) by {
        if j < p {
            assert(t[i] == s[i] && t[j] == s[j]);
        } else if j == p {
            assert(t[i] == s[i]);
        } else if i == p {
            assert(t[j] == s[j - 1]);
            lemma_path_lt_total(s[j - 1].path@, s[p].path@);
            if s[j - 1].path@ != s[p].path@ {
                assert(!path_lt(s[j - 1].path@, s[p].path@));
                lemma_path_lt_transitive(x.path@, s[p].path@, s[j - 1].path@);
            }
            lemma_path_lt_total(x.path@, s[j - 1].path@);
        } else if i < p {
            assert(t[i] == s[i] && t[j] == s[j - 1]);
        } else {
            assert(t[i] == s[i - 1] && t[j] == s[j - 1]);
        }
    }
}

/// Sorts candidates by path, as paths compare.
pub fn sort_candidates(v: Vec<Candidate>) -> (r: Vec<Candidate>)
    ensures
        sorted_by_path(r@),
        r@.to_multiset() == v@.to_multiset(),
{
    let mut rest = v;
    let mut out: Vec<Candidate> = Vec::new();
    assert(out@.to_multiset() =~= vstd::multiset::Multiset::empty());
    while rest.len() > 0
        invariant
            sorted_by_path(out@),
            out@.to_multiset().add(rest@.to_multiset()) == v@.to_multiset(),
        decreases rest@.len(),
    {
        let ghost rest_before = rest@;
        let ghost out_before = out@;
        let x = rest.remove(0);
        assert(rest_before.remove(0) == rest@);
        let mut p: usize = 0;
        while p < out.len() && !path_less(&x.path, &out[p].path)
            invariant
                out@ == out_before,
                p <= out@.len(),
                forall|k: int| 0 <= k < p ==> !path_lt(x.path@, #[trigger] out@[k].path@),
            decreases out@.len() - p,
        {
            p = p + 1;
        }
        proof {
            lemma_insert_sorted(out@, p as int, x);
            vstd::seq_lib::to_multiset_insert(out_before, p as int, x);
            vstd::seq_lib::to_multiset_remove(rest_before, 0);
            assert(rest_before.to_multiset().count(x) > 0);
        }
        out.insert(p, x);
        assert(out@.to_multiset().add(rest@.to_multiset()) =~= v@.to_multiset());
    }
    out
}

/// The report of a finished walk: the candidates in path order.
pub fn finish_scan(target: FsPath, git_root: Option<FsPath>, candidates: Vec<Candidate>) -> (r:
    ScanReport)
    ensures
        r.target == target,
        r.git_root == git_root,
        sorted_by_path(r.candidates@),
        r.candidates@.to_multiset() == candidates@.to_multiset(),
{
    let sorted = sort_candidates(candidates);
    ScanReport { target, git_root, candidates: sorted }
}

/// `p` lies strictly inside `target`, and no component of it below the
/// target is `.git`.
pub open spec fn within_target(target: Seq<Seq<u8>>, p: Seq<Seq<u8>>) -> bool {
    &&& is_prefix_of(target, p)
    &&& p != target
    &&& !has_component(p.skip(target.len() as int), dot_git())
}

/// The name of the entry at `p`: its last component, decoded as a file name
/// is shown.
pub open spec fn entry_name(p: Seq<Seq<u8>>) -> Seq<char> {
    utf8_lossy(p.last())
}

/// The status a scan gives a directory from what is known of it: the
/// `.git` metadata check, the worktree, the Git indexes, and for an
/// ambiguous name whether Git ignores it.
pub open spec fn scan_status(
    status: CandidateStatus,
    path: Seq<Seq<u8>>,
    kind: CandidateKind,
    git_root: Option<FsPath>,
    indexed: Seq<Seq<Seq<u8>>>,
    contains_git: bool,
    ignored: Option<bool>,
) -> bool {
    if contains_git {
        skipped_for(status, "contains .git metadata"@)
    } else if git_root is None {
        skipped_for(status, "not inside a Git worktree; tracked-file safety unavailable"@)
    } else if lies_under_any(indexed, path) {
        skipped_for(status, "contains Git-tracked files"@)
    } else if kind == CandidateKind::AmbiguousGenerated {
        if ignored == Some(true) {
            status == CandidateStatus::Safe
        } else {
            skipped_for(status, "ambiguous directory name and not ignored by Git"@)
        }
    } else {
        status == CandidateStatus::Safe
    }
}

/// Paths ascend strictly: no path appears twice.
pub open spec fn strictly_sorted_by_path(s: Seq<Candidate>) -> bool {
    forall|i: int, j: int| 0 <= i < j < s.len() ==> path_lt(#[trigger] s[i].path@, #[trigger] s[j].path@)
}

/// No candidate lies at or inside a safe one, other than that one itself.
pub open spec fn nothing_inside_safe(s: Seq<Candidate>) -> bool {
    forall|i: int, j: int|
        0 <= i < s.len() && 0 <= j < s.len() && i != j && is_safe(#[trigger] s[i])
            ==> !is_prefix_of(s[i].path@, #[trigger] s[j].path@)
}

/// Two different positions of a permutation come from two different
/// positions of the original.
proof fn lemma_two_sources(a: Seq<Candidate>, b: Seq<Candidate>, i: int, j: int) -> (kl: (
    int,
    int,
))
    requires
        a.to_multiset() == b.to_multiset(),
        0 <= i < b.len(),
        0 <= j < b.len(),
        i != j,
    ensures
        0 <= kl.0 < a.len(),
        0 <= kl.1 < a.len(),
        kl.0 != kl.1,
        a[kl.0] == b[i],
        a[kl.1] == b[j],
{
    let x = b[i];
    let y = b[j];
    let bi = b.remove(i);
    vstd::seq_lib::to_multiset_remove(b, i);
    let jj = if j < i { j } else { j - 1 };
    assert(bi[jj] == y);
    assert(bi.contains(y));
    assert(bi.to_multiset().contains(y));
    assert(b.contains(x));
    assert(a.to_multiset().contains(x));
    assert(a.contains(x));
    let k = choose|k: int| 0 <= k < a.len() && a[k] == x;
    let ak = a.remove(k);
    vstd::seq_lib::to_multiset_remove(a, k);
    assert(ak.to_multiset() == bi.to_multiset());
    assert(ak.to_multiset().contains(y));
    assert(ak.contains(y));
    let m = choose|m: int| 0 <= m < ak.len() && ak[m] == y;
    let l = if m < k { m } else { m + 1 };
    assert(a[l] == y);
    (k, l)
}

/// The decisions of one walk through a target, and the candidates found.
///
/// The walk hands over each entry; the scanner says what to do with it and
/// records the candidates. Entries outside the target, below a `.git`
/// directory, inside a directory already found safe, or at or above a
/// candidate already recorded are never admitted. So no path is recorded
/// twice and no candidate lies inside a safe one.
pub struct Scanner {
    pub target: FsPath,
    pub git_root: Option<FsPath>,
    pub indexed: Vec<FsPath>,
    pub candidates: Vec<Candidate>,
}

impl Scanner {
    /// The scanner admits an entry at `p`: strictly inside the target, below
    /// no `.git`, inside no directory already found safe, and with no
    /// candidate recorded at or inside it.
    pub open spec fn admits(&self, p: Seq<Seq<u8>>) -> bool {
        &&& within_target(self.target@, p)
        &&& forall|i: int|
            0 <= i < self.candidates@.len() ==> {
                &&& is_safe(#[trigger] self.candidates@[i]) ==> !is_prefix_of(
                    self.candidates@[i].path@,
                    p,
                )
                &&& !is_prefix_of(p, self.candidates@[i].path@)
            }
    }

    /// What every scan keeps true of its candidates: each lies within the
    /// target and has the kind its name is classified as; no candidate lies
    /// at or inside another recorded before it, nor inside an earlier safe
    /// one; and each safe one lies in a Git worktree with no indexed path of
    /// the worktree under it.
    pub open spec fn wf(&self) -> bool {
        &&& forall|i: int|
            0 <= i < self.candidates@.len() ==> within_target(
                self.target@,
                #[trigger] self.candidates@[i].path@,
            ) && spec_classify(entry_name(self.candidates@[i].path@)) == Some(
                self.candidates@[i].kind,
            )
        &&& forall|i: int, j: int|
            #![trigger self.candidates@[i], self.candidates@[j]]
            0 <= i < j < self.candidates@.len() ==> !is_prefix_of(
                self.candidates@[j].path@,
                self.candidates@[i].path@,
            ) && (is_safe(self.candidates@[i]) ==> !is_prefix_of(
                self.candidates@[i].path@,
                self.candidates@[j].path@,
            ))
        &&& forall|i: int|
            0 <= i < self.candidates@.len() && is_safe(#[trigger] self.candidates@[i])
                ==> self.git_root is Some && !lies_under_any(
                paths_view(self.indexed@),
                self.candidates@[i].path@,
            )
    }

    /// A scan of `target`, in the worktree `git_root` (if any) whose index
    /// lists `indexed`, that has found nothing yet.
    pub fn new(target: FsPath, git_root: Option<FsPath>, indexed: Vec<FsPath>) -> (r: Scanner)
        ensures
            r.wf(),
            r.target == target,
            r.git_root == git_root,
            r.indexed == indexed,
            r.candidates@.len() == 0,
    {
        Scanner { target, git_root, indexed, candidates: Vec::new() }
    }

    /// Whether the scanner admits an entry at `path`.
    pub fn admits_path(&self, path: &FsPath) -> (r: bool)
        ensures
            r == self.admits(path@),
    {
        if !path.starts_with(&self.target) || path.same_as(&self.target) {
            return false;
        }
        if path.has_dot_git_from(self.target.components.len()) {
            return false;
        }
        let mut i: usize = 0;
        while i < self.candidates.len()
            invariant
                i <= self.candidates@.len(),
                forall|j: int|
                    0 <= j < i ==> {
                        &&& is_safe(#[trigger] self.candidates@[j]) ==> !is_prefix_of(
                            self.candidates@[j].path@,
                            path@,
                        )
                        &&& !is_prefix_of(path@, self.candidates@[j].path@)
                    },
            decreases self.candidates@.len() - i,
        {
            let c = &self.candidates[i];
            if !descend_after(&c.status) && path.starts_with(&c.path) {
                return false;
            }
            if c.path.starts_with(path) {
                return false;
            }
            i = i + 1;
        }
        true
    }

    /// What to do with an entry of the walk: an entry the scanner does not
    /// admit is passed over (and a directory not entered); any other is
    /// triaged by its name, the last component of its path, and its type.
    pub fn triage(&self, path: &FsPath, is_dir: bool, is_symlink: bool) -> (r: EntryAction)
        ensures
            !self.admits(path@) ==> r == (if is_dir {
                EntryAction::SkipDirectory
            } else {
                EntryAction::Pass
            }),
            self.admits(path@) ==> r == spec_triage(entry_name(path@), is_dir, is_symlink),
    {
        if !self.admits_path(path) {
            return if is_dir {
                EntryAction::SkipDirectory
            } else {
                EntryAction::Pass
            };
        }
        assert(path@.len() > 0) by {
            if path@.len() == self.target@.len() {
                assert(path@.subrange(0, path@.len() as int) =~= path@);
            }
        }
        let last = path.components.len() - 1;
        let name = decode_lossy(path.components[last].as_slice());
        assert(path.components@[last as int]@ == path@.last());
        triage_entry(name.as_str(), is_dir, is_symlink)
    }

    /// The directories to look into for a nested repository whose index
    /// counts too before the status of a directory at `path` is decided.
    pub fn worktree_probes(&self, path: &FsPath) -> (r: Vec<FsPath>)
        ensures
            self.git_root is None ==> r@.len() == 0,
            self.git_root matches Some(root) ==> paths_view(r@) == worktree_probes(
                root@,
                path@,
            ),
    {
        match &self.git_root {
            Some(root) => nested_worktree_probes(root, path),
            None => Vec::new(),
        }
    }

    /// The status of a directory as far as it can be decided without asking
    /// Git whether it is ignored. `nested_indexed` holds the paths in the
    /// index of each nested repository that holds the directory.
    pub fn assess(
        &self,
        path: &FsPath,
        kind: CandidateKind,
        nested_indexed: &Vec<FsPath>,
        contains_git: bool,
    ) -> (r: StatusCheck)
        ensures
            (r is NeedsIgnoreCheck) <==> (!contains_git && self.git_root is Some
                && !lies_under_any(paths_view(self.indexed@) + paths_view(nested_indexed@), path@)
                && kind == CandidateKind::AmbiguousGenerated),
            r matches StatusCheck::Decided(s) ==> scan_status(
                s,
                path@,
                kind,
                self.git_root,
                paths_view(self.indexed@) + paths_view(nested_indexed@),
                contains_git,
                None,
            ),
    {
        let all = concat_paths(&self.indexed, nested_indexed);
        candidate_status(path, kind, self.git_root.as_ref(), &all, contains_git)
    }

    /// Records a symlink with a candidate's name: skipped, never measured.
    pub fn record_symlink(&mut self, path: FsPath, kind: CandidateKind)
        requires
            old(self).wf(),
            old(self).admits(path@),
            spec_classify(entry_name(path@)) == Some(kind),
        ensures
            final(self).wf(),
            final(self).target == old(self).target,
            final(self).git_root == old(self).git_root,
            final(self).indexed == old(self).indexed,
            final(self).candidates@.len() == old(self).candidates@.len() + 1,
            final(self).candidates@.drop_last() == old(self).candidates@,
            final(self).candidates@.last().path@ == path@,
            final(self).candidates@.last().size_bytes == 0,
            final(self).candidates@.last().kind == kind,
            skipped_for(final(self).candidates@.last().status, "symlink (never followed)"@),
    {
        let c = symlink_candidate(path, kind);
        self.candidates.push(c);
        assert(self.candidates@.drop_last() =~= old(self).candidates@);
    }

    /// Records a measured directory and decides its status; says whether the
    /// walk goes on into it (not into a directory found safe). A path in the
    /// index of a nested repository that holds the directory (given in
    /// `nested_indexed`) protects it as a path of the worktree's own index
    /// does. `ignored` is what Git said where the status turned on it.
    pub fn record_directory(
        &mut self,
        path: FsPath,
        kind: CandidateKind,
        size_bytes: u64,
        contains_git: bool,
        nested_indexed: &Vec<FsPath>,
        ignored: Option<bool>,
    ) -> (descend: bool)
        requires
            old(self).wf(),
            old(self).admits(path@),
            spec_classify(entry_name(path@)) == Some(kind),
            (!contains_git && old(self).git_root is Some && !lies_under_any(
                paths_view(old(self).indexed@) + paths_view(nested_indexed@),
                path@,
            ) && kind == CandidateKind::AmbiguousGenerated) ==> ignored is Some,
        ensures
            final(self).wf(),
            final(self).target == old(self).target,
            final(self).git_root == old(self).git_root,
            final(self).indexed == old(self).indexed,
            final(self).candidates@.len() == old(self).candidates@.len() + 1,
            final(self).candidates@.drop_last() == old(self).candidates@,
            final(self).candidates@.last().path@ == path@,
            final(self).candidates@.last().size_bytes == size_bytes,
            final(self).candidates@.last().kind == kind,
            scan_status(
                final(self).candidates@.last().status,
                path@,
                kind,
                old(self).git_root,
                paths_view(old(self).indexed@) + paths_view(nested_indexed@),
                contains_git,
                ignored,
            ),
            descend == !is_safe(final(self).candidates@.last()),
    {
        let all = concat_paths(&self.indexed, nested_indexed);
        let status = match candidate_status(
            &path,
            kind,
            self.git_root.as_ref(),
            &all,
            contains_git,
        ) {
            StatusCheck::Decided(s) => s,
            StatusCheck::NeedsIgnoreCheck => {
                match ignored {
                    Some(i) => status_after_ignore_check(i),
                    None => status_after_ignore_check(false),
                }
            },
        };
        proof {
            if lies_under_any(paths_view(self.indexed@), path@) {
                let k = choose|k: int|
                    0 <= k < paths_view(self.indexed@).len() && is_prefix_of(
                        path@,
                        #[trigger] paths_view(self.indexed@)[k],
                    );
                assert((paths_view(self.indexed@) + paths_view(nested_indexed@))[k]
                    == paths_view(self.indexed@)[k]);
            }
        }
        let descend = descend_after(&status);
        let c = Candidate { path, size_bytes, kind, status };
        self.candidates.push(c);
        assert(self.candidates@.drop_last() =~= old(self).candidates@);
        descend
    }

    /// The report of the finished walk: the candidates in strictly
    /// ascending path order. Each lies within the target and has the kind
    /// its name is classified as; no candidate lies inside a safe one; and
    /// each safe one lies in a Git worktree with no indexed path of the
    /// worktree under it.
    pub fn finish(self) -> (r: ScanReport)
        requires
            self.wf(),
        ensures
            r.target == self.target,
            r.git_root == self.git_root,
            strictly_sorted_by_path(r.candidates@),
            r.candidates@.to_multiset() == self.candidates@.to_multiset(),
            nothing_inside_safe(r.candidates@),
            forall|i: int|
                0 <= i < r.candidates@.len() ==> within_target(
                    r.target@,
                    #[trigger] r.candidates@[i].path@,
                ) && spec_classify(entry_name(r.candidates@[i].path@)) == Some(
                    r.candidates@[i].kind,
                ),
            forall|i: int|
                0 <= i < r.candidates@.len() && is_safe(#[trigger] r.candidates@[i])
                    ==> r.git_root is Some && !lies_under_any(
                    paths_view(self.indexed@),
                    r.candidates@[i].path@,
                ),
    {
        let ghost old_cands = self.candidates@;
        let ghost indexed = paths_view(self.indexed@);
        let ghost target = self.target@;
        let ghost root = self.git_root;
        let r = finish_scan(self.target, self.git_root, self.candidates);
        let ghost rc = r.candidates@;
        assert forall|i: int| 0 <= i < rc.len() implies ({
            let c = #[trigger] rc[i];
            &&& within_target(target, c.path@)
            &&& spec_classify(entry_name(c.path@)) == Some(c.kind)
            &&& is_safe(c) ==> root is Some && !lies_under_any(indexed, c.path@)
        }) by {
            let c = rc[i];
            assert(rc.contains(c));
            assert(rc.to_multiset().contains(c));
            assert(old_cands.to_multiset().contains(c));
            assert(old_cands.contains(c));
            let k = choose|k: int| 0 <= k < old_cands.len() && old_cands[k] == c;
            assert(within_target(target, old_cands[k].path@));
        }
        assert forall|i: int, j: int|
            #![trigger rc[i], rc[j]]
            0 <= i < rc.len() && 0 <= j < rc.len() && i != j implies rc[i].path@ != rc[j].path@
            && (is_safe(rc[i]) ==> !is_prefix_of(rc[i].path@, rc[j].path@)) by {
            let (k, l) = lemma_two_sources(old_cands, rc, i, j);
            assert(old_cands[k] == rc[i] && old_cands[l] == rc[j]);
            assert(rc[i].path@.subrange(0, rc[i].path@.len() as int) =~= rc[i].path@);
            if k < l {
                assert(!is_prefix_of(old_cands[l].path@, old_cands[k].path@));
                assert(is_safe(old_cands[k]) ==> !is_prefix_of(
                    old_cands[k].path@,
                    old_cands[l].path@,
                ));
            } else {
                assert(!is_prefix_of(old_cands[k].path@, old_cands[l].path@));
            }
        }
        assert forall|i: int, j: int| 0 <= i < j < rc.len() implies path_lt(
            #[trigger] rc[i].path@,
            #[trigger] rc[j].path@,
        ) by {
            assert(rc[i].path@ != rc[j].path@);
            assert(!path_lt(rc[j].path@, rc[i].path@));
            lemma_path_lt_total(rc[i].path@, rc[j].path@);
        }
        r
    }
}

} // verus!
