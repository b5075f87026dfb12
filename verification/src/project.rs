//! The project name and the destination directory: the name as the user
//! gave it, its sanitized directory form, and the up-front check that the
//! destination does not already exist.
use vstd::prelude::*;

use crate::GenError;
use crate::strutil::{spec_join, join_path, str_eq, to_owned_str};
use vstd::string::StrSliceExecFns;

verus! {

/// A separator-normalized character: underscores and spaces become hyphens.
pub open spec fn spec_dir_char(c: char) -> char {
    if c == '_' || c == ' ' {
        '-'
    } else {
        c
    }
}

/// The directory form of a project name: each character normalized.
pub open spec fn spec_dir_name(s: Seq<char>) -> Seq<char> {
    s.map_values(|c: char| spec_dir_char(c))
}

/// The crate-identifier character: hyphens and spaces become underscores.
pub open spec fn spec_crate_char(c: char) -> char {
    if c == '-' || c == ' ' {
        '_'
    } else {
        c
    }
}

/// The crate-identifier form of a project name.
pub open spec fn spec_crate_name(s: Seq<char>) -> Seq<char> {
    s.map_values(|c: char| spec_crate_char(c))
}

/// Relies on String::push: appends the one character.
#[verifier::external_body]
fn push_char(s: &mut String, c: char)
    ensures
        final(s)@ == old(s)@.push(c),
{
    s.push(c);
}

/// `name` with each character sent through `f`'s character map.
fn map_chars(name: &str, to_hyphen: bool) -> (r: String)
    ensures
        to_hyphen ==> r@ == spec_dir_name(name@),
        !to_hyphen ==> r@ == spec_crate_name(name@),
{
    let n = name.unicode_len();
    let mut out = String::new();
    let mut i: usize = 0;
    while i < n
        invariant
            n == name@.len(),
            i <= n,
            to_hyphen ==> out@ =~= spec_dir_name(name@.take(i as int)),
            !to_hyphen ==> out@ =~= spec_crate_name(name@.take(i as int)),
        decreases n - i,
    {
        let c = name.get_char(i);
        let mapped = if to_hyphen {
            if c == '_' || c == ' ' {
                '-'
            } else {
                c
            }
        } else {
            if c == '-' || c == ' ' {
                '_'
            } else {
                c
            }
        };
        push_char(&mut out, mapped);
        proof {
            assert(name@.take(i + 1 as int).drop_last() =~= name@.take(i as int));
            assert(name@.take(i + 1 as int).last() == name@[i as int]);
            if to_hyphen {
                assert(out@ =~= spec_dir_name(name@.take(i + 1 as int)));
            } else {
                assert(out@ =~= spec_crate_name(name@.take(i + 1 as int)));
            }
        }
        i += 1;
    }
    proof {
        assert(name@.take(n as int) =~= name@);
    }
    out
}

/// The project name as the user gave it.
pub struct ProjectName {
    pub user_input: String,
}

impl ProjectName {
    /// Wraps the given name.
    pub fn new(name: String) -> (r: ProjectName)
        ensures
            r.user_input@ == name@,
    {
        ProjectName { user_input: name }
    }

    /// The name untouched.
    pub fn raw(&self) -> (r: String)
        ensures
            r@ == self.user_input@,
    {
        to_owned_str(self.user_input.as_str())
    }

    /// The name in directory form: separators normalized to hyphens.
    pub fn kebab_case(&self) -> (r: String)
        ensures
            r@ == spec_dir_name(self.user_input@),
    {
        map_chars(self.user_input.as_str(), true)
    }

    /// The name in crate-identifier form: separators normalized to
    /// underscores.
    pub fn crate_name(&self) -> (r: String)
        ensures
            r@ == spec_crate_name(self.user_input@),
    {
        map_chars(self.user_input.as_str(), false)
    }

    /// Whether the name already is its own directory form, so that no
    /// renaming happens on the way to disk.
    pub fn is_crate_name(&self) -> (r: bool)
        ensures
            r == (self.user_input@ == spec_dir_name(self.user_input@)),
    {
        let k = self.kebab_case();
        str_eq(self.user_input.as_str(), k.as_str())
    }
}

/// Picks the project name: the one given, or — silent mode forbidding any
/// prompt — the distinguishable missing-name failure; only when neither
/// settles it is the prompt collaborator asked.
pub fn resolve_project_name<F: Fn() -> Result<String, GenError>>(
    name: &Option<String>,
    silent: bool,
    prompt: F,
) -> (r: Result<ProjectName, GenError>)
    requires
        call_requires(prompt, ()),
    ensures
        match name {
            Some(n) => r matches Ok(p) && p.user_input@ == n@,
            None => {
                if silent {
                    r matches Err(e) && e is ProjectNameMissing
                } else {
                    exists|pr: Result<String, GenError>|
                        {
                            &&& #[trigger] call_ensures(prompt, (), pr)
                            &&& match (pr, r) {
                                (Ok(n), Ok(p)) => p.user_input@ == n@,
                                (Err(e1), Err(e2)) => e1 == e2,
                                _ => false,
                            }
                        }
                }
            },
        },
{
    match name {
        Some(n) => Ok(ProjectName::new(to_owned_str(n.as_str()))),
        None => {
            if silent {
                Err(GenError::ProjectNameMissing)
            } else {
                let answer = prompt();
                let ghost ansg = answer;
                match answer {
                    Ok(n) => Ok(ProjectName::new(n)),
                    Err(e) => Err(e),
                }
            }
        },
    }
}

/// The directory the project is generated into: the base directory itself
/// when expanding in place, else the destination (or the base) joined with
/// the raw name under `force`, the normalized name otherwise.
pub fn project_dir_of(
    base_dir: &str,
    name: &ProjectName,
    init: bool,
    destination: &Option<String>,
    force: bool,
) -> (r: String)
    ensures
        init ==> r@ == base_dir@,
        !init && destination is Some ==> r@ == spec_join(
            destination->Some_0@,
            if force {
                name.user_input@
            } else {
                spec_dir_name(name.user_input@)
            },
        ),
        !init && destination is None ==> r@ == spec_join(
            base_dir@,
            if force {
                name.user_input@
            } else {
                spec_dir_name(name.user_input@)
            },
        ),
{
    if init {
        return to_owned_str(base_dir);
    }
    let dir_name = if force {
        name.raw()
    } else {
        name.kebab_case()
    };
    match destination {
        Some(d) => join_path(d.as_str(), dir_name.as_str()),
        None => join_path(base_dir, dir_name.as_str()),
    }
}

/// The up-front destination check: a project directory that already exists
/// fails the run before anything at all is written; a fresh one is taken.
pub fn guard_project_dir(path: String, already_exists: bool) -> (r: Result<String, GenError>)
    ensures
        match r {
            Ok(p) => !already_exists && p@ == path@,
            Err(e) => already_exists && (e matches GenError::DestinationExists { path: p } && p@
                == path@),
        },
{
    if already_exists {
        Err(GenError::DestinationExists { path })
    } else {
        Ok(path)
    }
}

} // verus!
