//! Totals over a scan report, and what an apply deletes.

use vstd::prelude::*;
use crate::fspath::FsPath;
use crate::inspect::saturating_add;
use crate::model::{ApplyReport, Candidate, CandidateStatus, GitCleanError, ScanReport};
use crate::safety::paths_view;

verus! {

/// The candidate passed every safety check.
pub open spec fn is_safe(c: Candidate) -> bool {
    c.status is Safe
}

/// The number of safe candidates.
pub open spec fn safe_total(s: Seq<Candidate>) -> nat
    decreases s.len(),
{
    if s.len() == 0 {
        0
    } else {
        safe_total(s.drop_last()) + if is_safe(s.last()) {
            1nat
        } else {
            0nat
        }
    }
}

/// The bytes of the safe candidates, summed exactly.
pub open spec fn safe_bytes(s: Seq<Candidate>) -> nat
    decreases s.len(),
{
    if s.len() == 0 {
        0
    } else {
        safe_bytes(s.drop_last()) + if is_safe(s.last()) {
            s.last().size_bytes as nat
        } else {
            0nat
        }
    }
}

/// The bytes of the safe candidates, summed in order with a sum that stops
/// at `u64::MAX`.
pub open spec fn saturating_safe_bytes(s: Seq<Candidate>) -> nat
    decreases s.len(),
{
    if s.len() == 0 {
        0
    } else if is_safe(s.last()) {
        saturating_add(saturating_safe_bytes(s.drop_last()), s.last().size_bytes as nat)
    } else {
        saturating_safe_bytes(s.drop_last())
    }
}

/// The paths of the safe candidates, in order.
pub open spec fn safe_paths(s: Seq<Candidate>) -> Seq<Seq<Seq<u8>>>
    decreases s.len(),
{
    if s.len() == 0 {
        seq![]
    } else if is_safe(s.last()) {
        safe_paths(s.drop_last()).push(s.last().path@)
    } else {
        safe_paths(s.drop_last())
    }
}

/// The positions of the safe candidates, in order.
pub open spec fn safe_indices(s: Seq<Candidate>) -> Seq<int>
    decreases s.len(),
{
    if s.len() == 0 {
        seq![]
    } else if is_safe(s.last()) {
        safe_indices(s.drop_last()).push(s.len() - 1)
    } else {
        safe_indices(s.drop_last())
    }
}

/// A candidate counts as safe exactly when its status is `Safe`, whatever
/// its kind, path or size.
pub proof fn law_safe_is_the_status(c: Candidate)
    ensures
        is_safe(c) <==> c.status == CandidateStatus::Safe,
{
}

/// The totals of a scan are built up candidate by candidate: none for no
/// candidates, and one more candidate adds its size, a count of one and its
/// path exactly when its status is `Safe`, whatever its kind. The freed bytes
/// add its size the same way but stop at `u64::MAX`.
pub proof fn law_totals_add_up_safe_candidates(s: Seq<Candidate>, c: Candidate)
    ensures
        safe_bytes(Seq::<Candidate>::empty()) == 0,
        safe_total(Seq::<Candidate>::empty()) == 0,
        saturating_safe_bytes(Seq::<Candidate>::empty()) == 0,
        safe_paths(Seq::<Candidate>::empty()) == Seq::<Seq<Seq<u8>>>::empty(),
        safe_bytes(s.push(c)) == safe_bytes(s) + if c.status == CandidateStatus::Safe {
            c.size_bytes as nat
        } else {
            0nat
        },
        safe_total(s.push(c)) == safe_total(s) + if c.status == CandidateStatus::Safe {
            1nat
        } else {
            0nat
        },
        saturating_safe_bytes(s.push(c)) == if c.status == CandidateStatus::Safe {
            if saturating_safe_bytes(s) + c.size_bytes > u64::MAX {
                u64::MAX as nat
            } else {
                saturating_safe_bytes(s) + c.size_bytes as nat
            }
        } else {
            saturating_safe_bytes(s)
        },
        safe_paths(s.push(c)) == if c.status == CandidateStatus::Safe {
            safe_paths(s).push(c.path@)
        } else {
            safe_paths(s)
        },
{
    assert(s.push(c).drop_last() =~= s);
}

/// Only the status, size and path of each candidate count: two scans whose
/// candidates agree in those, in order, have the same totals, whatever the
/// kinds of their candidates.
pub proof fn law_totals_ignore_kind(s: Seq<Candidate>, t: Seq<Candidate>)
    requires
        s.len() == t.len(),
        forall|i: int|
            0 <= i < s.len() ==> #[trigger] s[i].status == t[i].status && s[i].size_bytes
                == t[i].size_bytes && s[i].path == t[i].path,
    ensures
        safe_bytes(s) == safe_bytes(t),
        safe_total(s) == safe_total(t),
        saturating_safe_bytes(s) == saturating_safe_bytes(t),
        safe_paths(s) == safe_paths(t),
    decreases s.len(),
{
    if s.len() > 0 {
        law_totals_ignore_kind(s.drop_last(), t.drop_last());
    }
}

/// A prefix holds no more safe bytes than the whole.
pub proof fn lemma_safe_bytes_prefix(s: Seq<Candidate>, i: int)
    requires
        0 <= i <= s.len(),
    ensures
        safe_bytes(s.take(i)) <= safe_bytes(s),
    decreases s.len(),
{
    if i < s.len() {
        assert(s.take(i) =~= s.drop_last().take(i));
        lemma_safe_bytes_prefix(s.drop_last(), i);
    } else {
        assert(s.take(i) =~= s);
    }
}

/// A prefix holds no more safe candidates than the whole.
pub proof fn lemma_safe_total_prefix(s: Seq<Candidate>, i: int)
    requires
        0 <= i <= s.len(),
    ensures
        safe_total(s.take(i)) <= safe_total(s),
        safe_total(s) <= s.len(),
    decreases s.len(),
{
    if s.len() > 0 {
        lemma_safe_total_prefix(s.drop_last(), if i < s.len() { i } else { 0 });
    }
    if i < s.len() {
        assert(s.take(i) =~= s.drop_last().take(i));
    } else {
        assert(s.take(i) =~= s);
    }
}

/// The freed bytes an apply reports are the reclaimable bytes of its scan,
/// whenever those fit in a `u64`.
pub proof fn law_freed_bytes_match_reclaimable(s: Seq<Candidate>)
    requires
        safe_bytes(s) <= u64::MAX,
    ensures
        saturating_safe_bytes(s) == safe_bytes(s),
    decreases s.len(),
{
    if s.len() > 0 {
        law_freed_bytes_match_reclaimable(s.drop_last());
    }
}

/// An apply deletes as many directories as its scan counted safe, and each
/// one it deletes is the path of a safe candidate of the scan.
pub proof fn law_deleted_are_the_safe_candidates(s: Seq<Candidate>)
    ensures
        safe_paths(s).len() == safe_total(s),
        safe_indices(s).len() == safe_total(s),
        forall|k: int|
            0 <= k < safe_indices(s).len() ==> 0 <= #[trigger] safe_indices(s)[k] < s.len()
                && is_safe(s[safe_indices(s)[k]]) && safe_paths(s)[k] == s[safe_indices(s)[k]].path@,
    decreases s.len(),
{
    if s.len() > 0 {
        law_deleted_are_the_safe_candidates(s.drop_last());
        let t = s.drop_last();
        assert forall|k: int| 0 <= k < safe_indices(t).len() implies 0 <= #[trigger] safe_indices(t)[k] < t.len()
            && s[safe_indices(t)[k]] == t[safe_indices(t)[k]] by {}
    }
}

impl ScanReport {
    /// The bytes held by the safe candidates.
    pub fn reclaimable_bytes(&self) -> (r: u64)
        requires
            safe_bytes(self.candidates@) <= u64::MAX,
        ensures
            r == safe_bytes(self.candidates@),
    {
        let mut total: u64 = 0;
        let mut i: usize = 0;
        assert(self.candidates@.take(0) =~= Seq::<Candidate>::empty());
        while i < self.candidates.len()
            invariant
                i <= self.candidates@.len(),
                safe_bytes(self.candidates@) <= u64::MAX,
                total == safe_bytes(self.candidates@.take(i as int)),
            decreases self.candidates@.len() - i,
        {
            let ghost s = self.candidates@;
            assert(s.take(i + 1).drop_last() =~= s.take(i as int));
            proof {
                lemma_safe_bytes_prefix(s, i + 1);
            }
            let c = &self.candidates[i];
            match c.status {
                CandidateStatus::Safe => {
                    total = total + c.size_bytes;
                },
                CandidateStatus::Skipped(_) => {},
            }
            i = i + 1;
        }
        assert(self.candidates@.take(i as int) =~= self.candidates@);
        total
    }

    /// The bytes held by the safe candidates, or `None` where that sum does
    /// not fit in a `u64`.
    pub fn try_reclaimable_bytes(&self) -> (r: Option<u64>)
        ensures
            safe_bytes(self.candidates@) <= u64::MAX ==> r == Some(
                safe_bytes(self.candidates@) as u64,
            ),
            safe_bytes(self.candidates@) > u64::MAX ==> r is None,
    {
        let mut total: u64 = 0;
        let mut i: usize = 0;
        assert(self.candidates@.take(0) =~= Seq::<Candidate>::empty());
        while i < self.candidates.len()
            invariant
                i <= self.candidates@.len(),
                total == safe_bytes(self.candidates@.take(i as int)),
            decreases self.candidates@.len() - i,
        {
            let ghost s = self.candidates@;
            assert(s.take(i + 1).drop_last() =~= s.take(i as int));
            proof {
                lemma_safe_bytes_prefix(s, i + 1);
            }
            let c = &self.candidates[i];
            match c.status {
                CandidateStatus::Safe => {
                    match total.checked_add(c.size_bytes) {
                        Some(t) => {
                            total = t;
                        },
                        None => {
                            return None;
                        },
                    }
                },
                CandidateStatus::Skipped(_) => {},
            }
            i = i + 1;
        }
        assert(self.candidates@.take(i as int) =~= self.candidates@);
        Some(total)
    }

    /// The number of safe candidates.
    pub fn safe_count(&self) -> (r: usize)
        ensures
            r == safe_total(self.candidates@),
    {
        let mut count: usize = 0;
        let mut i: usize = 0;
        assert(self.candidates@.take(0) =~= Seq::<Candidate>::empty());
        while i < self.candidates.len()
            invariant
                i <= self.candidates@.len(),
                count == safe_total(self.candidates@.take(i as int)),
            decreases self.candidates@.len() - i,
        {
            let ghost s = self.candidates@;
            assert(s.take(i + 1).drop_last() =~= s.take(i as int));
            proof {
                lemma_safe_total_prefix(s.take(i + 1), i + 1);
                assert(s.take(i + 1).take(i + 1) =~= s.take(i + 1));
            }
            let c = &self.candidates[i];
            match c.status {
                CandidateStatus::Safe => {
                    count = count + 1;
                },
                CandidateStatus::Skipped(_) => {},
            }
            i = i + 1;
        }
        assert(self.candidates@.take(i as int) =~= self.candidates@);
        count
    }

    /// The number of candidates that failed a safety check.
    pub fn skipped_count(&self) -> (r: usize)
        ensures
            r == self.candidates@.len() - safe_total(self.candidates@),
    {
        let safe = self.safe_count();
        proof {
            lemma_safe_total_prefix(self.candidates@, 0);
        }
        self.candidates.len() - safe
    }
}

/// The positions of the candidates an apply deletes, in order; an apply is
/// refused outside a Git worktree.
pub fn plan_deletions(scan: &ScanReport) -> (r: Result<Vec<usize>, GitCleanError>)
    ensures
        scan.git_root is None ==> r matches Err(GitCleanError::GitRequired),
        scan.git_root is Some ==> (r matches Ok(v) && v@.map_values(|i: usize| i as int)
            == safe_indices(scan.candidates@)),
{
    if scan.git_root.is_none() {
        return Err(GitCleanError::GitRequired);
    }
    let mut out: Vec<usize> = Vec::new();
    let mut i: usize = 0;
    let ghost s = scan.candidates@;
    assert(s.take(0) =~= Seq::<Candidate>::empty());
    assert(out@.map_values(|i: usize| i as int) =~= Seq::<int>::empty());
    while i < scan.candidates.len()
        invariant
            s == scan.candidates@,
            i <= s.len(),
            out@.map_values(|i: usize| i as int) == safe_indices(s.take(i as int)),
        decreases s.len() - i,
    {
        assert(s.take(i + 1).drop_last() =~= s.take(i as int));
        let ghost before = out@;
        match scan.candidates[i].status {
            CandidateStatus::Safe => {
                out.push(i);
                assert(out@.map_values(|i: usize| i as int) =~= before.map_values(
                    |i: usize| i as int,
                ).push(i as int));
            },
            CandidateStatus::Skipped(_) => {},
        }
        i = i + 1;
    }
    assert(s.take(i as int) =~= s);
    Ok(out)
}

/// The report of an apply that deleted every safe candidate of its scan.
pub fn finish_apply(scan: ScanReport) -> (r: ApplyReport)
    ensures
        r.scan == scan,
        paths_view(r.deleted@) == safe_paths(scan.candidates@),
        r.freed_bytes == saturating_safe_bytes(scan.candidates@),
{
    let mut deleted: Vec<FsPath> = Vec::new();
    let mut freed: u64 = 0;
    let mut i: usize = 0;
    let ghost s = scan.candidates@;
    assert(s.take(0) =~= Seq::<Candidate>::empty());
    assert(paths_view(deleted@) =~= Seq::<Seq<Seq<u8>>>::empty());
    while i < scan.candidates.len()
        invariant
            s == scan.candidates@,
            i <= s.len(),
            paths_view(deleted@) == safe_paths(s.take(i as int)),
            freed == saturating_safe_bytes(s.take(i as int)),
        decreases s.len() - i,
    {
        assert(s.take(i + 1).drop_last() =~= s.take(i as int));
        let c = &scan.candidates[i];
        let ghost before = paths_view(deleted@);
        match c.status {
            CandidateStatus::Safe => {
                deleted.push(c.path.duplicate());
                assert(paths_view(deleted@) =~= before.push(c.path@));
                freed = freed.saturating_add(c.size_bytes);
            },
            CandidateStatus::Skipped(_) => {},
        }
        i = i + 1;
    }
    assert(s.take(i as int) =~= s);
    ApplyReport { scan, deleted, freed_bytes: freed }
}

} // verus!
