//! The lines a run prints for its candidates and deletions.

use vstd::prelude::*;
use vstd::string::{StrSliceExecFns, StringExecFns};
use crate::fspath::FsPath;
use crate::model::{display_relative, relative_display, Candidate, CandidateStatus};
use crate::size::{human_bytes, spec_human_bytes};

verus! {

/// `s` right-aligned in a field `width` characters wide: spaces in front of
/// it while it is shorter.
pub open spec fn pad_left(s: Seq<char>, width: nat) -> Seq<char> {
    if s.len() < width {
        Seq::new((width - s.len()) as nat, |i: int| ' ') + s
    } else {
        s
    }
}

/// The line a run prints for a candidate: its verdict, its size in a field
/// ten characters wide, its path relative to the target, and for a skipped
/// one the reason.
pub open spec fn spec_candidate_line(target: Seq<Seq<u8>>, c: Candidate) -> Seq<char> {
    let size = pad_left(spec_human_bytes(c.size_bytes as nat), 10);
    let rel = relative_display(target, c.path@);
    match c.status {
        CandidateStatus::Safe => "SAFE  "@ + size + "  "@ + rel,
        CandidateStatus::Skipped(reason) => "SKIP  "@ + size + "  "@ + rel + " — "@ + reason@,
    }
}

/// Right-aligns `s` in a field `width` characters wide.
pub fn pad_left_str(s: &str, width: usize) -> (r: String)
    ensures
        r@ == pad_left(s@, width as nat),
{
    let n = s.unicode_len();
    let mut out = String::new();
    proof {
        reveal_strlit(" ");
    }
    if n < width {
        let mut k: usize = 0;
        while k < width - n
            invariant
                n < width,
                k <= width - n,
                out@ == Seq::new(k as nat, |i: int| ' '),
            decreases width - n - k,
        {
            let ghost prev = out@;
            proof {
                reveal_strlit(" ");
            }
            assert(" "@ =~= seq![' ']);
            out.append(" ");
            assert(out@ == prev + seq![' ']);
            k = k + 1;
            assert(out@ =~= Seq::new(k as nat, |i: int| ' '));
        }
    }
    out.append(s);
    assert(out@ =~= pad_left(s@, width as nat));
    out
}

/// The line a run prints for a candidate found under `target`.
pub fn candidate_line(target: &FsPath, c: &Candidate) -> (r: String)
    ensures
        r@ == spec_candidate_line(target@, *c),
{
    let size = human_bytes(c.size_bytes);
    let padded = pad_left_str(size.as_str(), 10);
    let rel = display_relative(target, &c.path);
    let mut out = match &c.status {
        CandidateStatus::Safe => String::from_str("SAFE  "),
        CandidateStatus::Skipped(_) => String::from_str("SKIP  "),
    };
    out.append(padded.as_str());
    out.append("  ");
    out.append(rel.as_str());
    match &c.status {
        CandidateStatus::Safe => {},
        CandidateStatus::Skipped(reason) => {
            out.append(" — ");
            out.append(reason.as_str());
        },
    }
    out
}

/// The line a run prints for a directory it deleted under `target`.
pub fn deleted_line(target: &FsPath, path: &FsPath) -> (r: String)
    ensures
        r@ == "DELETED  "@ + relative_display(target@, path@),
{
    let mut out = String::from_str("DELETED  ");
    let rel = display_relative(target, path);
    out.append(rel.as_str());
    out
}

} // verus!
