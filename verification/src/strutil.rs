//! Verified string helpers: equality, prefix and suffix tests, joining and
//! splitting of `/`-separated relative paths. Template paths are treated as
//! sequences of characters.
use vstd::prelude::*;
use vstd::string::StrSliceExecFns;
use vstd::string::StringExecFns;

verus! {

/// Character-for-character equality of two string slices.
pub fn str_eq(a: &str, b: &str) -> (r: bool)
    ensures
        r == (a@ == b@),
{
    let n = a.unicode_len();
    let m = b.unicode_len();
    if n != m {
        return false;
    }
    let mut i: usize = 0;
    while i < n
        invariant
            n == a@.len(),
            n == b@.len(),
            i <= n,
            forall|j: int| 0 <= j < i ==> a@[j] == b@[j],
        decreases n - i,
    {
        if a.get_char(i) != b.get_char(i) {
            return false;
        }
        i += 1;
    }
    proof {
        assert(a@ =~= b@);
    }
    true
}

/// Whether `s` ends with `suffix`.
pub open spec fn spec_ends_with(s: Seq<char>, suffix: Seq<char>) -> bool {
    suffix.len() <= s.len() && s.skip(s.len() - suffix.len()) == suffix
}

/// Suffix test on string slices.
pub fn ends_with(s: &str, suffix: &str) -> (r: bool)
    ensures
        r == spec_ends_with(s@, suffix@),
{
    let n = s.unicode_len();
    let m = suffix.unicode_len();
    if m > n {
        return false;
    }
    let tail = s.substring_char(n - m, n);
    proof {
        assert(tail@ =~= s@.skip(s@.len() - suffix@.len()));
    }
    str_eq(tail, suffix)
}

/// `s` without its final `suffix` when it carries one, `s` itself otherwise.
pub fn strip_suffix(s: &str, suffix: &str) -> (r: String)
    ensures
        spec_ends_with(s@, suffix@) ==> r@ == s@.take(s@.len() - suffix@.len()),
        !spec_ends_with(s@, suffix@) ==> r@ == s@,
{
    if ends_with(s, suffix) {
        let n = s.unicode_len();
        let m = suffix.unicode_len();
        let head = s.substring_char(0, n - m);
        proof {
            assert(head@ =~= s@.take(s@.len() - suffix@.len()));
        }
        String::from_str(head)
    } else {
        String::from_str(s)
    }
}

/// A copy of a string slice.
pub fn to_owned_str(s: &str) -> (r: String)
    ensures
        r@ == s@,
{
    String::from_str(s)
}

/// Whether `s` occurs in the list, character for character.
pub open spec fn spec_contains_string(v: Seq<String>, s: Seq<char>) -> bool {
    exists|i: int| 0 <= i < v.len() && v[i]@ == s
}

/// Membership of `s` in a list of strings.
pub fn contains_string(v: &Vec<String>, s: &str) -> (r: bool)
    ensures
        r == spec_contains_string(v@, s@),
{
    let n = v.len();
    let mut i: usize = 0;
    while i < n
        invariant
            n == v@.len(),
            i <= n,
            forall|j: int| 0 <= j < i ==> v@[j]@ != s@,
        decreases n - i,
    {
        if str_eq(v[i].as_str(), s) {
            return true;
        }
        i += 1;
    }
    false
}

/// Membership only reads the characters: two lists equal string for string
/// hold the same members.
pub proof fn lemma_contains_string_view_equal(a: Seq<String>, b: Seq<String>, s: Seq<char>)
    requires
        a.len() == b.len(),
        forall|i: int| 0 <= i < a.len() ==> a[i]@ == b[i]@,
    ensures
        spec_contains_string(a, s) == spec_contains_string(b, s),
{
    if spec_contains_string(a, s) {
        let i = choose|i: int| 0 <= i < a.len() && a[i]@ == s;
        assert(b[i]@ == s);
    }
    if spec_contains_string(b, s) {
        let i = choose|i: int| 0 <= i < b.len() && b[i]@ == s;
        assert(a[i]@ == s);
    }
}

/// `base/rest`, or `rest` alone when the base is empty: relative paths are
/// joined with a single separator.
pub open spec fn spec_join(base: Seq<char>, rest: Seq<char>) -> Seq<char> {
    if base.len() == 0 {
        rest
    } else {
        base + seq!['/'] + rest
    }
}

/// Joins a base path and a relative path.
pub fn join_path(base: &str, rest: &str) -> (r: String)
    ensures
        r@ == spec_join(base@, rest@),
{
    if base.unicode_len() == 0 {
        String::from_str(rest)
    } else {
        let mut s = String::from_str(base);
        s.append("/");
        s.append(rest);
        proof {
            reveal_strlit("/");
            assert(s@ =~= spec_join(base@, rest@));
        }
        s
    }
}

/// The parent of a `/`-separated path: everything before the last
/// separator. A non-empty path without one has the empty path — the root
/// all relative paths hang under — as its parent; only the root itself has
/// none, so an upward walk always tests the root before it gives up.
pub open spec fn spec_parent(p: Seq<char>) -> Option<Seq<char>>
    decreases p.len(),
{
    if p.len() == 0 {
        None
    } else if p.last() == '/' {
        Some(p.drop_last())
    } else if p.len() == 1 {
        Some(Seq::empty())
    } else {
        spec_parent(p.drop_last())
    }
}

/// The parent of a path with a separator at `i` and none after it is the
/// part before `i`.
pub proof fn lemma_parent_from_last_sep(p: Seq<char>, i: int)
    requires
        0 <= i < p.len(),
        p[i] == '/',
        forall|j: int| i < j < p.len() ==> p[j] != '/',
    ensures
        spec_parent(p) == Some(p.take(i)),
    decreases p.len(),
{
    if i == p.len() - 1 {
        assert(p.drop_last() =~= p.take(i));
    } else {
        lemma_parent_from_last_sep(p.drop_last(), i);
        assert(p.drop_last().take(i) =~= p.take(i));
    }
}

/// A non-empty path without a separator has the root as its parent.
pub proof fn lemma_parent_root(p: Seq<char>)
    requires
        forall|j: int| 0 <= j < p.len() ==> p[j] != '/',
    ensures
        p.len() == 0 ==> spec_parent(p) is None,
        p.len() > 0 ==> spec_parent(p) == Some(Seq::<char>::empty()),
    decreases p.len(),
{
    if p.len() > 1 {
        lemma_parent_root(p.drop_last());
    }
}

/// A parent is strictly shorter than its path.
pub proof fn lemma_parent_shorter(p: Seq<char>)
    requires
        spec_parent(p) is Some,
    ensures
        spec_parent(p)->Some_0.len() < p.len(),
    decreases p.len(),
{
    if p.len() > 1 && p.last() != '/' {
        lemma_parent_shorter(p.drop_last());
    }
}

/// The index of the last separator of `p`, if any.
fn last_separator(p: &str) -> (r: Option<usize>)
    ensures
        match r {
            Some(i) => {
                &&& i < p@.len()
                &&& p@[i as int] == '/'
                &&& forall|j: int| i < j < p@.len() ==> p@[j] != '/'
            },
            None => forall|j: int| 0 <= j < p@.len() ==> p@[j] != '/',
        },
{
    let n = p.unicode_len();
    let mut i: usize = n;
    while i > 0
        invariant
            i <= n,
            n == p@.len(),
            forall|j: int| i <= j < n ==> p@[j] != '/',
        decreases i,
    {
        i -= 1;
        if p.get_char(i) == '/' {
            return Some(i);
        }
    }
    None
}

/// The parent path, as [`spec_parent`] describes it.
pub fn parent_path(p: &str) -> (r: Option<String>)
    ensures
        match r {
            Some(s) => spec_parent(p@) == Some(s@),
            None => spec_parent(p@) is None,
        },
{
    match last_separator(p) {
        Some(i) => {
            let head = p.substring_char(0, i);
            proof {
                lemma_parent_from_last_sep(p@, i as int);
                assert(head@ =~= p@.take(i as int));
            }
            Some(String::from_str(head))
        },
        None => {
            proof {
                lemma_parent_root(p@);
            }
            if p.unicode_len() > 0 {
                Some(String::new())
            } else {
                None
            }
        },
    }
}

} // verus!
