//! Locating the template: the configuration file is searched from the
//! resolved template folder upward to the template root, first match wins;
//! and a template base directory with nested configuration files narrows to
//! the single nested template, or asks which one is meant.
use vstd::prelude::*;

use crate::GenError;
use crate::slots::{StringEntry, TemplateSlots, VarInfo, clone_string};
use crate::strutil::{contains_string, join_path, parent_path, spec_contains_string, spec_join, spec_parent, str_eq, to_owned_str};
use vstd::string::StrSliceExecFns;

verus! {

/// How the upward search for `name` ends, starting at `folder` and never
/// leaving `base`: the first hit walking upward, no hit by the time `base`
/// is reached, or the root of all paths reached without ever meeting
/// `base`.
pub enum SpecLocate {
    Found(Seq<char>),
    NotFound,
    RootReached,
}

/// The upward search itself: try `folder/name`, stop at `base`, else
/// climb to the parent.
pub open spec fn spec_locate(
    name: Seq<char>,
    base: Seq<char>,
    folder: Seq<char>,
    existing: Seq<String>,
) -> SpecLocate
    decreases folder.len(),
    via spec_locate_decreases
{
    if spec_contains_string(existing, spec_join(folder, name)) {
        SpecLocate::Found(spec_join(folder, name))
    } else if folder == base {
        SpecLocate::NotFound
    } else {
        match spec_parent(folder) {
            Some(p) => spec_locate(name, base, p, existing),
            None => SpecLocate::RootReached,
        }
    }
}

#[via_fn]
proof fn spec_locate_decreases(
    name: Seq<char>,
    base: Seq<char>,
    folder: Seq<char>,
    existing: Seq<String>,
) {
    if spec_parent(folder) is Some {
        crate::strutil::lemma_parent_shorter(folder);
    }
}

/// Walks upward from `template_folder` to `template_base_folder`, looking
/// for a file called `name` among `existing` (the relative paths that exist
/// under the scratch directory), exactly as [`spec_locate`] lays it down:
/// the nearest hit wins; reaching the base without a hit reports the file
/// missing from the template; and leaving the base reports the search
/// escaped to the filesystem root.
pub fn locate_template_file(
    name: &str,
    template_base_folder: &str,
    template_folder: &str,
    existing: &Vec<String>,
) -> (r: Result<String, GenError>)
    ensures
        match r {
            Ok(p) => spec_locate(name@, template_base_folder@, template_folder@, existing@)
                == SpecLocate::Found(p@),
            Err(e) => match e {
                GenError::FileNotFoundInTemplate => spec_locate(
                    name@,
                    template_base_folder@,
                    template_folder@,
                    existing@,
                ) == SpecLocate::NotFound,
                GenError::ReachedRootFolder => spec_locate(
                    name@,
                    template_base_folder@,
                    template_folder@,
                    existing@,
                ) == SpecLocate::RootReached,
                _ => false,
            },
        },
{
    let mut search_folder = to_owned_str(template_folder);
    while true
        invariant
            spec_locate(name@, template_base_folder@, search_folder@, existing@) == spec_locate(
                name@,
                template_base_folder@,
                template_folder@,
                existing@,
            ),
        decreases search_folder@.len(),
    {
        let candidate = join_path(search_folder.as_str(), name);
        if contains_string(existing, candidate.as_str()) {
            return Ok(candidate);
        }
        if str_eq(search_folder.as_str(), template_base_folder) {
            return Err(GenError::FileNotFoundInTemplate);
        }
        match parent_path(search_folder.as_str()) {
            Some(p) => {
                proof {
                    crate::strutil::lemma_parent_shorter(search_folder@);
                }
                search_folder = p;
            },
            None => {
                return Err(GenError::ReachedRootFolder);
            },
        }
    }
    Err(GenError::ReachedRootFolder)
}

/// Whether `dir` lies inside `base`: everything lies inside the empty
/// base — the root — and otherwise `dir` is `base` itself or `base`
/// followed by a separator and more path. A subfolder that climbs out of
/// the template folder structure is not within it.
pub open spec fn spec_within(base: Seq<char>, dir: Seq<char>) -> bool {
    ||| base.len() == 0
    ||| dir == base
    ||| (dir.len() > base.len() && dir.take(base.len() as int) == base && dir[base.len() as int]
        == '/')
}

/// The containment test behind the subfolder guard: a resolved subfolder
/// must stay part of the template folder structure.
pub fn path_within(base: &str, dir: &str) -> (r: bool)
    ensures
        r == spec_within(base@, dir@),
{
    let bn = base.unicode_len();
    if bn == 0 || str_eq(base, dir) {
        return true;
    }
    let dn = dir.unicode_len();
    if dn <= bn {
        proof {
            if dir@.len() == base@.len() && dir@.take(base@.len() as int) == base@ {
                assert(dir@.take(base@.len() as int) =~= dir@);
            }
        }
        return false;
    }
    let head = dir.substring_char(0, bn);
    proof {
        assert(head@ =~= dir@.take(base@.len() as int));
    }
    str_eq(head, base) && dir.get_char(bn) == '/'
}

/// Decides which directory of the template base holds the template to
/// expand, from the relative directories where a nested configuration file
/// was found: none means the base itself; exactly one is taken; more than
/// one is put to the prompt collaborator as a choice slot named `Template`,
/// defaulting to the first find, and the answer joined under the base.
pub fn auto_locate_template_dir<F: Fn(TemplateSlots) -> Result<String, GenError>>(
    template_base_dir: &str,
    config_paths: Vec<String>,
    prompt: F,
) -> (r: Result<String, GenError>)
    requires
        forall|s: TemplateSlots| #[trigger] call_requires(prompt, (s,)),
    ensures
        config_paths@.len() == 0 ==> (r matches Ok(p) && p@ == template_base_dir@),
        config_paths@.len() == 1 ==> (r matches Ok(p) && p@ == spec_join(
            template_base_dir@,
            config_paths@[0]@,
        )),
        config_paths@.len() > 1 ==> exists|s: TemplateSlots, pr: Result<String, GenError>|
            {
                &&& #[trigger] call_ensures(prompt, (s,), pr)
                &&& s.var_name@ == "Template"@
                &&& s.prompt@ == "Which template should be expanded?"@
                &&& match s.var_info {
                    VarInfo::String { entry } => {
                        &&& entry.choices matches Some(cs) && cs@ == config_paths@
                        &&& entry.default matches Some(d) && d@ == config_paths@[0]@
                        &&& entry.regex is None
                    },
                    VarInfo::Bool { .. } => false,
                }
                &&& match (pr, r) {
                    (Ok(answer), Ok(p)) => p@ == spec_join(template_base_dir@, answer@),
                    (Err(e1), Err(e2)) => e1 == e2,
                    _ => false,
                }
            },
{
    if config_paths.len() == 0 {
        Ok(to_owned_str(template_base_dir))
    } else if config_paths.len() == 1 {
        Ok(join_path(template_base_dir, config_paths[0].as_str()))
    } else {
        let default = clone_string(&config_paths[0]);
        let slots = TemplateSlots {
            prompt: to_owned_str("Which template should be expanded?"),
            var_name: to_owned_str("Template"),
            var_info: VarInfo::String {
                entry: StringEntry {
                    default: Some(default),
                    choices: Some(config_paths),
                    regex: None,
                },
            },
        };
        let ghost slotsg = slots;
        let answer = prompt(slots);
        let ghost ansg = answer;
        match answer {
            Ok(path) => Ok(join_path(template_base_dir, path.as_str())),
            Err(e) => Err(e),
        }
    }
}

} // verus!
