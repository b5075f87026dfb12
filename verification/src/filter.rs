//! The filter engine: glob patterns over `/`-separated relative paths, and
//! the keep/render/delete classification of each template path, computed
//! before any rendering begins.
//!
//! A pattern matches character for character, with three meta forms:
//! `?` matches any single character but the separator, `*` any run of
//! characters without a separator, and `**` any run including separators.
use vstd::prelude::*;
use vstd::string::StrSliceExecFns;

verus! {

/// What it means for glob pattern `p` to match path `s`.
pub open spec fn glob_match(p: Seq<char>, s: Seq<char>) -> bool
    decreases p.len() + s.len(),
{
    if p.len() == 0 {
        s.len() == 0
    } else if p[0] == '*' && p.len() >= 2 && p[1] == '*' {
        glob_match(p.skip(2), s) || (s.len() > 0 && glob_match(p, s.skip(1)))
    } else if p[0] == '*' {
        glob_match(p.skip(1), s) || (s.len() > 0 && s[0] != '/' && glob_match(p, s.skip(1)))
    } else if p[0] == '?' {
        s.len() > 0 && s[0] != '/' && glob_match(p.skip(1), s.skip(1))
    } else {
        s.len() > 0 && s[0] == p[0] && glob_match(p.skip(1), s.skip(1))
    }
}

/// Matches the tails of pattern and path from the given positions on.
fn glob_match_at(p: &str, pi: usize, s: &str, si: usize) -> (r: bool)
    requires
        pi <= p@.len(),
        si <= s@.len(),
    ensures
        r == glob_match(p@.skip(pi as int), s@.skip(si as int)),
    decreases p@.len() - pi + s@.len() - si,
{
    let np = p.unicode_len();
    let ns = s.unicode_len();
    proof {
        assert(p@.skip(pi as int).len() == np - pi);
        assert(s@.skip(si as int).len() == ns - si);
    }
    if pi == np {
        return si == ns;
    }
    let pc = p.get_char(pi);
    proof {
        assert(p@.skip(pi as int)[0] == p@[pi as int]);
        assert(p@.skip(pi as int).skip(1) =~= p@.skip(pi as int + 1));
        if si < ns {
            assert(s@.skip(si as int)[0] == s@[si as int]);
            assert(s@.skip(si as int).skip(1) =~= s@.skip(si as int + 1));
        }
    }
    if pc == '*' && pi + 1 < np && p.get_char(pi + 1) == '*' {
        proof {
            assert(p@.skip(pi as int)[1] == p@[pi as int + 1]);
            assert(p@.skip(pi as int).skip(2) =~= p@.skip(pi as int + 2));
        }
        if glob_match_at(p, pi + 2, s, si) {
            return true;
        }
        if si < ns && glob_match_at(p, pi, s, si + 1) {
            return true;
        }
        return false;
    }
    if pc == '*' {
        if glob_match_at(p, pi + 1, s, si) {
            return true;
        }
        if si < ns && s.get_char(si) != '/' && glob_match_at(p, pi, s, si + 1) {
            return true;
        }
        return false;
    }
    if si == ns {
        return false;
    }
    let sc = s.get_char(si);
    if pc == '?' {
        sc != '/' && glob_match_at(p, pi + 1, s, si + 1)
    } else {
        sc == pc && glob_match_at(p, pi + 1, s, si + 1)
    }
}

/// Whether the glob `pattern` matches `path` whole.
pub fn glob_matches(pattern: &str, path: &str) -> (r: bool)
    ensures
        r == glob_match(pattern@, path@),
{
    proof {
        assert(pattern@.skip(0) =~= pattern@);
        assert(path@.skip(0) =~= path@);
    }
    glob_match_at(pattern, 0, path, 0)
}

/// Whether any pattern of the list matches `path`.
pub open spec fn spec_matches_any(pats: Seq<String>, path: Seq<char>) -> bool {
    exists|i: int| 0 <= i < pats.len() && glob_match(pats[i]@, path)
}

/// Whether any glob of `patterns` matches `path`.
pub fn matches_any(patterns: &Vec<String>, path: &str) -> (r: bool)
    ensures
        r == spec_matches_any(patterns@, path@),
{
    let n = patterns.len();
    let mut i: usize = 0;
    while i < n
        invariant
            n == patterns@.len(),
            i <= n,
            forall|j: int| 0 <= j < i ==> !glob_match(patterns@[j]@, path@),
        decreases n - i,
    {
        if glob_matches(patterns[i].as_str(), path) {
            return true;
        }
        i += 1;
    }
    false
}

/// The filter decision for one path.
#[derive(Clone, Copy, Debug, PartialEq, Eq, Structural)]
pub enum PathClass {
    /// Kept, and its name and contents rendered.
    Rendered,
    /// Kept, but copied without rendering.
    Raw,
    /// Deleted from the output tree.
    Deleted,
}

/// Render eligibility: include patterns, when present, restrict rendering to
/// matching paths; exclude patterns remove matches from the render set.
pub open spec fn spec_render_eligible(
    inclusions: Seq<String>,
    exclusions: Seq<String>,
    path: Seq<char>,
) -> bool {
    (inclusions.len() == 0 || spec_matches_any(inclusions, path)) && !spec_matches_any(exclusions, path)
}

/// The decision for `path`: deletion when an ignore pattern matches,
/// rendering when eligible, raw copying otherwise.
pub open spec fn spec_classify(
    inclusions: Seq<String>,
    exclusions: Seq<String>,
    ignores: Seq<String>,
    path: Seq<char>,
) -> PathClass {
    if spec_matches_any(ignores, path) {
        PathClass::Deleted
    } else if spec_render_eligible(inclusions, exclusions, path) {
        PathClass::Rendered
    } else {
        PathClass::Raw
    }
}

/// Classifies one candidate path against the three pattern lists. A path
/// that matches an ignore pattern is marked for deletion whatever the
/// include and exclude lists say of it.
pub fn classify_path(
    inclusions: &Vec<String>,
    exclusions: &Vec<String>,
    ignores: &Vec<String>,
    path: &str,
) -> (r: PathClass)
    ensures
        r == spec_classify(inclusions@, exclusions@, ignores@, path@),
        spec_matches_any(ignores@, path@) ==> r == PathClass::Deleted,
{
    if matches_any(ignores, path) {
        return PathClass::Deleted;
    }
    let eligible = (inclusions.len() == 0 || matches_any(inclusions, path)) && !matches_any(
        exclusions,
        path,
    );
    if eligible {
        PathClass::Rendered
    } else {
        PathClass::Raw
    }
}

} // verus!
