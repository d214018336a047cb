//! Measuring a candidate directory: the bytes of its regular files and
//! whether it holds `.git` metadata.

use vstd::prelude::*;
use crate::fspath::{dot_git, is_dot_git};

verus! {

/// A `u64` sum that stops at `u64::MAX` instead of overflowing.
pub open spec fn saturating_add(a: nat, b: nat) -> nat {
    if a + b > u64::MAX {
        u64::MAX as nat
    } else {
        a + b
    }
}

/// What a walk through a candidate directory has found so far.
#[derive(Debug, Clone, Copy, PartialEq, Eq, Structural)]
pub struct InspectTally {
    /// The bytes of the regular files counted, saturating at `u64::MAX`.
    pub size: u64,
    /// A `.git` entry was seen below the candidate.
    pub contains_git: bool,
}

/// What the walk does with one entry below a candidate.
#[derive(Debug, Clone, Copy, PartialEq, Eq, Structural)]
pub enum InspectStep {
    /// A `.git` directory: do not descend into it.
    SkipDirectory,
    /// A regular file: add its length.
    CountFile,
    /// Nothing to count.
    Pass,
}

impl InspectTally {
    /// Nothing seen yet.
    pub fn new() -> (r: InspectTally)
        ensures
            r.size == 0,
            !r.contains_git,
    {
        InspectTally { size: 0, contains_git: false }
    }

    /// Takes note of an entry at `depth` below the candidate (the candidate
    /// itself is at depth 0) and says what to do with it.
    pub fn observe(&mut self, depth: usize, name: &[u8], is_dir: bool, is_file: bool) -> (r:
        InspectStep)
        ensures
            final(self).size == old(self).size,
            depth > 0 && name@ == dot_git() ==> final(self).contains_git && r == (if is_dir {
                InspectStep::SkipDirectory
            } else {
                InspectStep::Pass
            }),
            !(depth > 0 && name@ == dot_git()) ==> final(self).contains_git == old(
                self,
            ).contains_git && r == (if is_file {
                InspectStep::CountFile
            } else {
                InspectStep::Pass
            }),
    {
        if depth > 0 && is_dot_git(name) {
            self.contains_git = true;
            if is_dir {
                InspectStep::SkipDirectory
            } else {
                InspectStep::Pass
            }
        } else if is_file {
            InspectStep::CountFile
        } else {
            InspectStep::Pass
        }
    }

    /// Adds the length of a regular file, saturating at `u64::MAX`.
    pub fn add_file(&mut self, len: u64)
        ensures
            final(self).size == saturating_add(old(self).size as nat, len as nat),
            final(self).contains_git == old(self).contains_git,
    {
        self.size = self.size.saturating_add(len);
    }
}

} // verus!
