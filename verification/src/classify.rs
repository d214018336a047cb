//! Which directory names are known to hold generated output.

use vstd::prelude::*;
use crate::text::{is_prefix_of, str_equal, str_starts_with};

verus! {

/// How strongly a directory name is associated with generated output.
#[derive(Debug, Clone, Copy, PartialEq, Eq, Structural)]
pub enum CandidateKind {
    /// A name used only for generated output (`target`, `node_modules`, ...).
    Generated,
    /// A common output name (`build`, `dist`, `out`, `coverage`) that may
    /// also hold hand-written files.
    AmbiguousGenerated,
}

/// The names that always denote generated output.
pub open spec fn is_generated_name(name: Seq<char>) -> bool {
    ||| name == "target"@
    ||| name == "node_modules"@
    ||| name == "__pycache__"@
    ||| name == ".pytest_cache"@
    ||| name == ".mypy_cache"@
    ||| name == ".ruff_cache"@
    ||| name == ".tox"@
    ||| name == ".nox"@
    ||| name == ".next"@
    ||| name == ".nuxt"@
    ||| name == ".parcel-cache"@
    ||| name == ".turbo"@
    ||| name == ".vite"@
    ||| name == ".gradle"@
    ||| is_prefix_of("cmake-build-"@, name)
}

/// The common output names that are only trusted when Git ignores them.
pub open spec fn is_ambiguous_name(name: Seq<char>) -> bool {
    ||| name == "build"@
    ||| name == "dist"@
    ||| name == "out"@
    ||| name == "coverage"@
}

/// The classification of a directory name.
pub open spec fn spec_classify(name: Seq<char>) -> Option<CandidateKind> {
    if is_generated_name(name) {
        Some(CandidateKind::Generated)
    } else if is_ambiguous_name(name) {
        Some(CandidateKind::AmbiguousGenerated)
    } else {
        None
    }
}

/// Classifies a directory name; `None` for names that are not candidates.
pub fn classify_candidate(name: &str) -> (r: Option<CandidateKind>)
    ensures
        r == spec_classify(name@),
{
    let generated = str_equal(name, "target") || str_equal(name, "node_modules")
        || str_equal(name, "__pycache__") || str_equal(name, ".pytest_cache")
        || str_equal(name, ".mypy_cache") || str_equal(name, ".ruff_cache")
        || str_equal(name, ".tox") || str_equal(name, ".nox") || str_equal(name, ".next")
        || str_equal(name, ".nuxt") || str_equal(name, ".parcel-cache")
        || str_equal(name, ".turbo") || str_equal(name, ".vite")
        || str_equal(name, ".gradle") || str_starts_with(name, "cmake-build-");
    if generated {
        return Some(CandidateKind::Generated);
    }
    if str_equal(name, "build") || str_equal(name, "dist") || str_equal(name, "out")
        || str_equal(name, "coverage") {
        return Some(CandidateKind::AmbiguousGenerated);
    }
    None
}

/// A name is classified as generated output exactly when it is one of the
/// fourteen names `target`, `node_modules`, `__pycache__`, `.pytest_cache`,
/// `.mypy_cache`, `.ruff_cache`, `.tox`, `.nox`, `.next`, `.nuxt`,
/// `.parcel-cache`, `.turbo`, `.vite`, `.gradle`, or begins with
/// `cmake-build-`; as ambiguous output exactly when it is `build`, `dist`,
/// `out` or `coverage`; and any other name is no candidate. A name that only
/// begins with a listed name (`.vitepress`, `targets`) is not one of them.
pub proof fn law_classification_is_exact(name: Seq<char>)
    ensures
        spec_classify(name) == Some(CandidateKind::Generated) <==> (name == "target"@ || name == "node_modules"@ || name == "__pycache__"@ || name == ".pytest_cache"@ || name == ".mypy_cache"@ || name == ".ruff_cache"@ || name == ".tox"@ || name == ".nox"@ || name == ".next"@ || name == ".nuxt"@ || name == ".parcel-cache"@ || name == ".turbo"@ || name == ".vite"@ || name == ".gradle"@ || is_prefix_of("cmake-build-"@, name)),
        spec_classify(name) == Some(CandidateKind::AmbiguousGenerated) <==> (name == "build"@ || name == "dist"@ || name == "out"@ || name == "coverage"@),
        spec_classify(name) is None <==> !(name == "target"@ || name == "node_modules"@ || name == "__pycache__"@ || name == ".pytest_cache"@ || name == ".mypy_cache"@ || name == ".ruff_cache"@ || name == ".tox"@ || name == ".nox"@ || name == ".next"@ || name == ".nuxt"@ || name == ".parcel-cache"@ || name == ".turbo"@ || name == ".vite"@ || name == ".gradle"@ || is_prefix_of("cmake-build-"@, name)) && !(name == "build"@ || name == "dist"@ || name == "out"@ || name == "coverage"@),
{
    reveal_strlit("target");
    reveal_strlit("node_modules");
    reveal_strlit("__pycache__");
    reveal_strlit(".pytest_cache");
    reveal_strlit(".mypy_cache");
    reveal_strlit(".ruff_cache");
    reveal_strlit(".tox");
    reveal_strlit(".nox");
    reveal_strlit(".next");
    reveal_strlit(".nuxt");
    reveal_strlit(".parcel-cache");
    reveal_strlit(".turbo");
    reveal_strlit(".vite");
    reveal_strlit(".gradle");
    reveal_strlit("build");
    reveal_strlit("dist");
    reveal_strlit("out");
    reveal_strlit("coverage");
    reveal_strlit("cmake-build-");
    if name == "build"@ {
        assert(name.len() == 5 && name[0] == 'b');
    }
    if name == "dist"@ {
        assert(name.len() == 4 && name[0] == 'd');
    }
    if name == "out"@ {
        assert(name.len() == 3 && name[0] == 'o');
    }
    if name == "coverage"@ {
        assert(name.len() == 8 && name[0] == 'c');
    }
}

} // verus!
