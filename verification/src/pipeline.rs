//! The pipeline driver: destination guard, engine-version gate, slot
//! resolution against pre-supplied values with delegation to the
//! interactive prompt collaborator, the single conditional-merge pass,
//! re-resolution of every placeholder the merge introduced, the hook
//! capability gate, and the tree walk. Each stage may end the run; no stage
//! after a failure runs, and nothing is ever written by this driver — it
//! plans the destination tree.
use vstd::prelude::*;

use crate::GenError;
use crate::conditional::{
    eval_outcome,
    lemma_apply_slot_names,
    merge_conditionals,
    spec_active_of,
    spec_apply,
    spec_has_slot_named,
};
use crate::config::Config;
use crate::hooks::{HookGate, all_hook_files, gate_to_result, hook_gate};
use crate::project::{ProjectName, spec_crate_name, spec_dir_name};
use crate::render::spec_has_template_markers;
use crate::resolver::{
    add_missing_provided_values,
    resolve_project_variables,
    spec_slot_prompts,
    unique_pair_names,
};
use crate::slots::{TemplateSlots, accept_value, spec_accept_error, spec_value_fits};
use crate::values::{PlainValue, SpecValue, Value, ValueMap};
use crate::version::{check_cargo_generate_version, spec_version_ok};
use crate::walker::{
    EntryKind,
    OutEntry,
    SrcEntry,
    expand_tree,
    spec_expand_rel,
    spec_outs_view,
    spec_skipped,
};

verus! {

/// The map every run starts from: the project name under `project-name`
/// (directory form) and `crate_name` (identifier form).
pub open spec fn spec_base_map(name: ProjectName) -> Map<Seq<char>, SpecValue> {
    Map::<Seq<char>, SpecValue>::empty().insert(
        "project-name"@,
        SpecValue::Str(spec_dir_name(name.user_input@)),
    ).insert("crate_name"@, SpecValue::Str(spec_crate_name(name.user_input@)))
}

/// The value a pre-supplied scalar resolves to. Never consulted for the
/// rejected kind.
pub open spec fn spec_provided_value(v: PlainValue) -> SpecValue {
    match v {
        PlainValue::Str(s) => SpecValue::Str(s@),
        PlainValue::Bool(b) => SpecValue::Bool(b),
        PlainValue::Other => SpecValue::Bool(false),
    }
}

/// The part of the resolved value set no prompt can touch: the two seeded
/// names hold the project-name forms, and every other pre-supplied name
/// holds its value.
pub open spec fn spec_seeded_provided_values(
    vals: Map<Seq<char>, SpecValue>,
    name: ProjectName,
    provided: Seq<(String, PlainValue)>,
) -> bool {
    &&& vals.contains_key("project-name"@) && vals["project-name"@] == SpecValue::Str(
        spec_dir_name(name.user_input@),
    )
    &&& vals.contains_key("crate_name"@) && vals["crate_name"@] == SpecValue::Str(
        spec_crate_name(name.user_input@),
    )
    &&& forall|i: int|
        0 <= i < provided.len() ==> ((#[trigger] provided[i]).0@ != "project-name"@
            && provided[i].0@ != "crate_name"@ ==> vals.contains_key(provided[i].0@)
            && vals[provided[i].0@] == spec_provided_value(provided[i].1))
}

/// The value set a silent run resolves, pinned key by key: the seeded and
/// pre-supplied values, and nothing else in the map.
pub open spec fn spec_final_values(
    vals: Map<Seq<char>, SpecValue>,
    name: ProjectName,
    provided: Seq<(String, PlainValue)>,
) -> bool {
    &&& spec_seeded_provided_values(vals, name, provided)
    &&& forall|k: Seq<char>| #[trigger]
        vals.contains_key(k) ==> k == "project-name"@ || k == "crate_name"@ || exists|i: int|
            0 <= i < provided.len() && (#[trigger] provided[i]).0@ == k
}

/// Whether a declared slot resolves without a prompt: it is one of the
/// seeded names, or a pre-supplied value fits it.
pub open spec fn spec_slot_settled(
    slot: TemplateSlots,
    provided: Seq<(String, PlainValue)>,
) -> bool {
    ||| slot.var_name@ == "project-name"@
    ||| slot.var_name@ == "crate_name"@
    ||| exists|i: int|
        0 <= i < provided.len() && (#[trigger] provided[i]).0@ == slot.var_name@
            && spec_value_fits(slot, spec_provided_value(provided[i].1))
}

/// Whether the walker can only keep or skip the entry under the base
/// pattern lists and hook files: skipped, or no symbolic link and free of
/// templating syntax in its path and its text contents.
pub open spec fn spec_entry_expandable(e: SrcEntry, cfg: Config) -> bool {
    ||| spec_skipped(
        e,
        cfg.template.inclusions@,
        cfg.template.exclusions@,
        cfg.template.ignores@,
        cfg.template.pre_hooks@ + cfg.template.post_hooks@,
    )
    ||| {
        &&& !(e.kind is Symlink)
        &&& !spec_has_template_markers(e.path@)
        &&& match e.kind {
            EntryKind::Text { content } => !spec_has_template_markers(content@),
            _ => true,
        }
    }
}

/// What a successful run's witnesses satisfy: the merge decisions `d` are
/// engine verdicts against the merge-time context `ctx`; the walk context
/// `vals` and `ctx` both pin the seeded and pre-supplied values (a silent
/// run's whole set is pinned, and its two contexts coincide); every merged
/// placeholder is resolved in `vals`; `hooks` is the configured pre+post
/// hook list string for string; and the output is a walk of the merged
/// configuration under `vals` with those hook sources left out.
pub open spec fn spec_run_witness(
    cfg: Config,
    entries: Seq<SrcEntry>,
    name: ProjectName,
    provided: Seq<(String, PlainValue)>,
    silent: bool,
    outs: Seq<crate::walker::SpecOut>,
    d: Seq<bool>,
    ctx: Map<Seq<char>, SpecValue>,
    vals: Map<Seq<char>, SpecValue>,
    hooks: Seq<String>,
) -> bool {
    &&& d.len() == cfg.conditionals@.len()
    &&& (forall|i: int|
        0 <= i < d.len() ==> eval_outcome((#[trigger] cfg.conditionals@[i]).expr@, ctx, d[i]))
    &&& spec_seeded_provided_values(ctx, name, provided)
    &&& spec_seeded_provided_values(vals, name, provided)
    &&& (silent ==> ctx == vals && spec_final_values(vals, name, provided))
    &&& (forall|i: int|
        0 <= i < spec_apply(spec_active_of(cfg), cfg.conditionals@, d).placeholders.len()
            ==> vals.contains_key(
            (#[trigger] spec_apply(
                spec_active_of(cfg),
                cfg.conditionals@,
                d,
            ).placeholders[i]).var_name@,
        ))
    &&& hooks.len() == cfg.template.pre_hooks@.len() + cfg.template.post_hooks@.len()
    &&& (forall|i: int|
        0 <= i < cfg.template.pre_hooks@.len() ==> hooks[i]@
            == #[trigger] cfg.template.pre_hooks@[i]@)
    &&& (forall|i: int|
        0 <= i < cfg.template.post_hooks@.len() ==> hooks[cfg.template.pre_hooks@.len() + i]@
            == #[trigger] cfg.template.post_hooks@[i]@)
    &&& spec_expand_rel(
        entries,
        spec_apply(spec_active_of(cfg), cfg.conditionals@, d).inclusions,
        spec_apply(spec_active_of(cfg), cfg.conditionals@, d).exclusions,
        spec_apply(spec_active_of(cfg), cfg.conditionals@, d).ignores,
        hooks,
        vals,
        outs,
    )
}

/// The value set every run starts from, as [`spec_base_map`] lays it down.
pub fn base_values(name: &ProjectName) -> (r: ValueMap)
    ensures
        r.wf(),
        r@ == spec_base_map(*name),
{
    let mut values = ValueMap::new();
    values.insert(crate::strutil::to_owned_str("project-name"), Value::Str(name.kebab_case()));
    values.insert(crate::strutil::to_owned_str("crate_name"), Value::Str(name.crate_name()));
    values
}

/// Plans one whole generation run, writing nothing: an existing destination
/// fails before any other stage; then the engine-version gate, both
/// resolution passes around the single conditional merge — each delegating
/// its unresolved, unsupplied slots to the interactive prompt collaborator
/// unless the run is silent — the hook capability gate, and the tree walk.
///
/// On success the returned entries are exactly a walk of the merged
/// configuration, under decisions the expression engine reached, with every
/// merged placeholder resolved; the seeded and pre-supplied values are
/// pinned key by key, and a silent run's whole value set is. Each error
/// comes only with its cause; a silent run with an unsettled declared slot,
/// a pre-supplied non-scalar, and declared hooks without the capability are
/// each owed failure; and a run whose destination is fresh, whose version
/// requirement is met, whose slots are all settled, whose hooks are
/// permitted, and whose tree holds no symbolic link and no templating
/// syntax — with no conditional fragments to decide — is owed success.
pub fn run_generation<F: Fn(&TemplateSlots) -> Result<Value, GenError>>(
    entries: Vec<SrcEntry>,
    cfg: Config,
    provided: &Vec<(String, PlainValue)>,
    name: &ProjectName,
    engine_version: &str,
    silent: bool,
    allow_commands: bool,
    dest_exists: bool,
    prompt: F,
) -> (r: Result<Vec<OutEntry>, GenError>)
    requires
        cfg.wf(),
        unique_pair_names(provided@),
        forall|s: &TemplateSlots| #[trigger] call_requires(prompt, (s,)),
    ensures
        dest_exists <==> (r matches Err(e) && e is DestinationExists),
        r is Ok ==> spec_version_ok(cfg.template, engine_version@),
        (exists|i: int| 0 <= i < provided@.len() && (#[trigger] provided@[i]).1 is Other) ==> r
            is Err,
        (cfg.template.pre_hooks@.len() + cfg.template.post_hooks@.len() > 0 && !allow_commands)
            ==> r is Err,
        (silent && exists|i: int|
            0 <= i < cfg.placeholders@.len() && !spec_slot_settled(
                #[trigger] cfg.placeholders@[i],
                provided@,
            )) ==> r is Err,
        match r {
            Ok(out) => exists|
                d: Seq<bool>,
                ctx: Map<Seq<char>, SpecValue>,
                vals: Map<Seq<char>, SpecValue>,
                hooks: Seq<String>,
            | #[trigger] spec_run_witness(cfg, entries@, *name, provided@, silent, spec_outs_view(out@), d, ctx, vals, hooks),
            Err(e) => match e {
                GenError::DestinationExists { .. } => dest_exists,
                GenError::InvalidVersionReq => cfg.template.version_req matches Some(vr) && !(
                crate::version::spec_req_parses(vr@) && crate::version::spec_version_parses(
                    engine_version@,
                )),
                GenError::VersionMismatch { required, actual } => cfg.template.version_req
                    matches Some(vr) && required@ == vr@ && actual@ == engine_version@
                    && !crate::version::spec_req_met(vr@, engine_version@),
                GenError::UnsupportedValueType { var_name } => exists|i: int|
                    0 <= i < provided@.len() && (#[trigger] provided@[i]).1 is Other
                        && provided@[i].0@ == var_name@,
                GenError::MissingPlaceholderVariable { var_name } => {
                    &&& silent
                    &&& var_name@ != "project-name"@
                    &&& var_name@ != "crate_name"@
                    &&& forall|i: int|
                        0 <= i < provided@.len() ==> (#[trigger] provided@[i]).0@ != var_name@
                    &&& (spec_has_slot_named(cfg.placeholders@, var_name@) || exists|j: int|
                        0 <= j < cfg.conditionals@.len() && spec_has_slot_named(
                            (#[trigger] cfg.conditionals@[j]).placeholders@,
                            var_name@,
                        ))
                },
                GenError::PromptAborted => !silent,
                GenError::HooksNotAllowed => (cfg.template.pre_hooks@.len()
                    + cfg.template.post_hooks@.len() > 0) && !allow_commands,
                GenError::SymlinkUnsupported { path } => exists|i: int|
                    0 <= i < entries@.len() && (#[trigger] entries@[i]).kind is Symlink
                        && entries@[i].path@ == path@,
                GenError::RenderError { path } => exists|i: int|
                    {
                        &&& 0 <= i < entries@.len()
                        &&& (#[trigger] entries@[i]).path@ == path@
                        &&& !(entries@[i].kind is Symlink)
                        &&& (spec_has_template_markers(entries@[i].path@) || (entries@[i].kind
                            matches EntryKind::Text { content } && spec_has_template_markers(
                            content@,
                        )))
                    },
                _ => exists|i: int, slot: TemplateSlots|
                    {
                        &&& 0 <= i < provided@.len()
                        &&& provided@[i].0@ == slot.var_name@
                        &&& #[trigger] spec_accept_error(
                            slot,
                            spec_provided_value(#[trigger] provided@[i].1),
                            e,
                        )
                    },
            },
        },
        ({
            &&& !dest_exists
            &&& spec_version_ok(cfg.template, engine_version@)
            &&& cfg.conditionals@.len() == 0
            &&& (forall|i: int| 0 <= i < provided@.len() ==> !((#[trigger] provided@[i]).1 is Other))
            &&& (forall|i: int|
                0 <= i < cfg.placeholders@.len() ==> spec_slot_settled(
                    #[trigger] cfg.placeholders@[i],
                    provided@,
                ))
            &&& (cfg.template.pre_hooks@.len() + cfg.template.post_hooks@.len() == 0
                || allow_commands)
            &&& (forall|i: int|
                0 <= i < entries@.len() ==> spec_entry_expandable(#[trigger] entries@[i], cfg))
        }) ==> r is Ok,
{
    proof {
        reveal_strlit("project-name");
        reveal_strlit("crate_name");
        assert("project-name"@.len() != "crate_name"@.len());
    }
    if dest_exists {
        return Err(GenError::DestinationExists { path: crate::strutil::to_owned_str("") });
    }
    if let Err(e) = check_cargo_generate_version(&cfg.template, engine_version) {
        return Err(e);
    }
    let mut values = base_values(name);
    let ghost v0 = values@;
    proof {
        assert(v0.contains_key("project-name"@) && v0.contains_key("crate_name"@));
        assert(forall|k: Seq<char>| #[trigger]
            v0.contains_key(k) ==> k == "project-name"@ || k == "crate_name"@);
    }
    let mut provided_map = ValueMap::new();
    if let Err(e) = add_missing_provided_values(&mut provided_map, provided) {
        return Err(e);
    }
    let ghost pm = provided_map@;
    proof {
        assert forall|i: int| 0 <= i < provided@.len() implies pm.contains_key(
            (#[trigger] provided@[i]).0@,
        ) && pm[provided@[i].0@] == spec_provided_value(provided@[i].1) && !(provided@[i].1
            is Other) by {
            assert(!(Map::<Seq<char>, SpecValue>::empty().contains_key(provided@[i].0@)));
        }
        assert(forall|k: Seq<char>| #[trigger]
            pm.contains_key(k) ==> exists|i: int|
                0 <= i < provided@.len() && (#[trigger] provided@[i]).0@ == k);
    }
    match resolve_project_variables(&mut values, &cfg.placeholders, &provided_map, silent) {
        Ok(prompts) => {
            let ghost va = values@;
            let n = prompts.len();
            proof {
                if silent && n > 0 {
                    assert(prompts@.contains(prompts@[0]));
                }
            }
            let mut j: usize = 0;
            while j < n
                invariant
                    n == prompts@.len(),
                    j <= n,
                    values.wf(),
                    !dest_exists,
                    n == 0 || !silent,
                    v0 == spec_base_map(*name),
                    forall|i: int|
                        0 <= i < provided@.len() ==> pm.contains_key((#[trigger] provided@[i]).0@),
                    forall|x: usize| #[trigger]
                        prompts@.contains(x) ==> 0 <= x < cfg.placeholders@.len()
                            && spec_slot_prompts(v0, pm, silent, cfg.placeholders@[x as int]),
                    forall|s: &TemplateSlots| #[trigger] call_requires(prompt, (s,)),
                    forall|k: Seq<char>| #[trigger]
                        va.contains_key(k) ==> v0.contains_key(k) || pm.contains_key(k),
                    n == 0 ==> values@ == va,
                    forall|k: Seq<char>| #[trigger]
                        va.contains_key(k) ==> values@.contains_key(k) && values@[k] == va[k],
                    forall|k: Seq<char>| #[trigger]
                        values@.contains_key(k) ==> va.contains_key(k) || (!v0.contains_key(k)
                            && !pm.contains_key(k)),
                    forall|jj: int|
                        0 <= jj < j ==> values@.contains_key(
                            cfg.placeholders@[prompts@[jj] as int].var_name@,
                        ),
                decreases n - j,
            {
                let idx = prompts[j];
                proof {
                    assert(prompts@.contains(prompts@[j as int]));
                }
                let slot = &cfg.placeholders[idx];
                proof {
                    assert(!spec_slot_settled(cfg.placeholders@[idx as int], provided@)) by {
                        let nm = cfg.placeholders@[idx as int].var_name@;
                        if spec_slot_settled(cfg.placeholders@[idx as int], provided@) {
                            if nm != "project-name"@ && nm != "crate_name"@ {
                                let i = choose|i: int|
                                    0 <= i < provided@.len() && (#[trigger] provided@[i]).0@ == nm
                                        && spec_value_fits(
                                        cfg.placeholders@[idx as int],
                                        spec_provided_value(provided@[i].1),
                                    );
                                assert(pm.contains_key(provided@[i].0@));
                            }
                        }
                    }
                }
                let answer = prompt(slot);
                match answer {
                    Err(_) => {
                        return Err(GenError::PromptAborted);
                    },
                    Ok(v) => {
                        match accept_value(&mut values, slot, v) {
                            Err(_) => {
                                return Err(GenError::PromptAborted);
                            },
                            Ok(()) => {},
                        }
                    },
                }
                j += 1;
            }
        },
        Err(e) => {
            proof {
                let fi = choose|fi: int|
                    0 <= fi < cfg.placeholders@.len() && crate::resolver::spec_slot_fails(
                        v0,
                        pm,
                        silent,
                        #[trigger] cfg.placeholders@[fi],
                    );
                assert(!spec_slot_settled(cfg.placeholders@[fi], provided@)) by {
                    if spec_slot_settled(cfg.placeholders@[fi], provided@) {
                        let nm = cfg.placeholders@[fi].var_name@;
                        if nm != "project-name"@ && nm != "crate_name"@ {
                            let i = choose|i: int|
                                0 <= i < provided@.len() && (#[trigger] provided@[i]).0@ == nm
                                    && spec_value_fits(
                                    cfg.placeholders@[fi],
                                    spec_provided_value(provided@[i].1),
                                );
                            assert(pm[nm] == spec_provided_value(provided@[i].1));
                        }
                    }
                }
                match &e {
                    GenError::MissingPlaceholderVariable { var_name } => {
                        let i = choose|i: int|
                            {
                                &&& 0 <= i < cfg.placeholders@.len()
                                &&& #[trigger] cfg.placeholders@[i].var_name@ == var_name@
                                &&& !v0.contains_key(cfg.placeholders@[i].var_name@)
                                &&& !pm.contains_key(cfg.placeholders@[i].var_name@)
                            };
                        assert(spec_has_slot_named(cfg.placeholders@, var_name@));
                        assert forall|jx: int| 0 <= jx < provided@.len() implies (
                        #[trigger] provided@[jx]).0@ != var_name@ by {
                            assert(pm.contains_key(provided@[jx].0@));
                        }
                    },
                    _ => {
                        let i = choose|i: int|
                            {
                                &&& 0 <= i < cfg.placeholders@.len()
                                &&& !v0.contains_key((#[trigger] cfg.placeholders@[i]).var_name@)
                                &&& pm.contains_key(cfg.placeholders@[i].var_name@)
                                &&& spec_accept_error(
                                    cfg.placeholders@[i],
                                    pm[cfg.placeholders@[i].var_name@],
                                    e,
                                )
                            };
                        let k = cfg.placeholders@[i].var_name@;
                        let jx = choose|jx: int|
                            0 <= jx < provided@.len() && (#[trigger] provided@[jx]).0@ == k;
                        assert(spec_accept_error(
                            cfg.placeholders@[i],
                            spec_provided_value(provided@[jx].1),
                            e,
                        ));
                    },
                }
            }
            return Err(e);
        },
    }
    let ghost v1 = values@;
    if let Err(e) = add_missing_provided_values(&mut values, provided) {
        proof {
            let i = choose|i: int|
                0 <= i < provided@.len() && (#[trigger] provided@[i]).1 is Other
                    && !v1.contains_key(provided@[i].0@);
            assert(false);
        }
        return Err(e);
    }
    let ghost v2 = values@;
    proof {
        assert forall|k: Seq<char>| #[trigger] v0.contains_key(k) implies v2.contains_key(k)
            && v2[k] == v0[k] by {
            assert(v1.contains_key(k) && v1[k] == v0[k]);
        }
        assert forall|i: int|
            0 <= i < provided@.len() && (#[trigger] provided@[i]).0@ != "project-name"@
                && provided@[i].0@ != "crate_name"@ implies v2.contains_key(provided@[i].0@)
            && v2[provided@[i].0@] == spec_provided_value(provided@[i].1) by {
            let k = provided@[i].0@;
            if v1.contains_key(k) {
                assert(!v0.contains_key(k));
                assert(v1[k] == pm[k]);
                assert(v2.contains_key(k) && v2[k] == v1[k]);
            }
        }
        assert(spec_seeded_provided_values(v2, *name, provided@));
        if silent {
            assert forall|k: Seq<char>| #[trigger] v2.contains_key(k) implies k == "project-name"@
                || k == "crate_name"@ || exists|i: int|
                0 <= i < provided@.len() && (#[trigger] provided@[i]).0@ == k by {
                if !v1.contains_key(k) {
                } else {
                    if !v0.contains_key(k) {
                        assert(pm.contains_key(k));
                    }
                }
            }
            assert(spec_final_values(v2, *name, provided@));
        }
    }
    let ghost cfg0 = cfg;
    let ghost entries0 = entries@;
    let merged = merge_conditionals(cfg, &values);
    proof {
        if cfg0.conditionals@.len() == 0 {
            let d = choose|d: Seq<bool>|
                {
                    &&& d.len() == cfg0.conditionals@.len()
                    &&& (forall|i: int|
                        0 <= i < d.len() ==> eval_outcome(
                            (#[trigger] cfg0.conditionals@[i]).expr@,
                            v2,
                            d[i],
                        ))
                    &&& spec_active_of(merged) == spec_apply(
                        spec_active_of(cfg0),
                        cfg0.conditionals@,
                        d,
                    )
                };
            assert(spec_active_of(merged) == spec_active_of(cfg0));
        }
    }
    match resolve_project_variables(&mut values, &merged.placeholders, &provided_map, silent) {
        Ok(prompts) => {
            let ghost va = values@;
            let n = prompts.len();
            proof {
                if silent && n > 0 {
                    assert(prompts@.contains(prompts@[0]));
                }
            }
            let mut j: usize = 0;
            while j < n
                invariant
                    n == prompts@.len(),
                    j <= n,
                    values.wf(),
                    !dest_exists,
                    n == 0 || !silent,
                    v0 == spec_base_map(*name),
                    forall|k: Seq<char>| #[trigger] v0.contains_key(k) ==> v2.contains_key(k),
                    forall|i: int|
                        0 <= i < provided@.len() ==> pm.contains_key((#[trigger] provided@[i]).0@),
                    forall|x: usize| #[trigger]
                        prompts@.contains(x) ==> 0 <= x < merged.placeholders@.len()
                            && spec_slot_prompts(v2, pm, silent, merged.placeholders@[x as int]),
                    forall|s: &TemplateSlots| #[trigger] call_requires(prompt, (s,)),
                    cfg0 == cfg,
                    cfg0.conditionals@.len() == 0 ==> merged.placeholders@ == cfg0.placeholders@,
                    forall|k: Seq<char>| #[trigger]
                        va.contains_key(k) ==> v2.contains_key(k) || pm.contains_key(k),
                    n == 0 ==> values@ == va,
                    forall|k: Seq<char>| #[trigger]
                        va.contains_key(k) ==> values@.contains_key(k) && values@[k] == va[k],
                    forall|k: Seq<char>| #[trigger]
                        values@.contains_key(k) ==> va.contains_key(k) || (!v2.contains_key(k)
                            && !pm.contains_key(k)),
                    forall|jj: int|
                        0 <= jj < j ==> values@.contains_key(
                            merged.placeholders@[prompts@[jj] as int].var_name@,
                        ),
                decreases n - j,
            {
                let idx = prompts[j];
                proof {
                    assert(prompts@.contains(prompts@[j as int]));
                }
                let slot = &merged.placeholders[idx];
                proof {
                    if cfg0.conditionals@.len() == 0 {
                        assert(!spec_slot_settled(cfg0.placeholders@[idx as int], provided@)) by {
                            let nm = merged.placeholders@[idx as int].var_name@;
                            if spec_slot_settled(cfg0.placeholders@[idx as int], provided@) {
                                if nm == "project-name"@ || nm == "crate_name"@ {
                                    assert(v0.contains_key(nm));
                                    assert(v2.contains_key(nm));
                                } else {
                                    let i = choose|i: int|
                                        0 <= i < provided@.len() && (#[trigger] provided@[i]).0@
                                            == nm && spec_value_fits(
                                            cfg0.placeholders@[idx as int],
                                            spec_provided_value(provided@[i].1),
                                        );
                                    assert(pm.contains_key(provided@[i].0@));
                                }
                            }
                        }
                    }
                }
                let answer = prompt(slot);
                match answer {
                    Err(_) => {
                        return Err(GenError::PromptAborted);
                    },
                    Ok(v) => {
                        match accept_value(&mut values, slot, v) {
                            Err(_) => {
                                return Err(GenError::PromptAborted);
                            },
                            Ok(()) => {},
                        }
                    },
                }
                j += 1;
            }
            proof {
                assert forall|i: int| 0 <= i < merged.placeholders@.len() implies
                    values@.contains_key((#[trigger] merged.placeholders@[i]).var_name@) by {
                    let nm = merged.placeholders@[i].var_name@;
                    if !va.contains_key(nm) {
                        assert(spec_slot_prompts(v2, pm, silent, merged.placeholders@[i]));
                        assert(prompts@.contains(i as usize));
                        let jj = choose|jj: int|
                            0 <= jj < prompts@.len() && prompts@[jj] == (i as usize);
                        assert(values@.contains_key(
                            merged.placeholders@[prompts@[jj] as int].var_name@,
                        ));
                    }
                }
            }
        },
        Err(e) => {
            proof {
                if cfg0.conditionals@.len() == 0 {
                    assert(merged.placeholders@ == cfg0.placeholders@);
                    let fi = choose|fi: int|
                        0 <= fi < merged.placeholders@.len() && crate::resolver::spec_slot_fails(
                            v2,
                            pm,
                            silent,
                            #[trigger] merged.placeholders@[fi],
                        );
                    assert(!spec_slot_settled(cfg0.placeholders@[fi], provided@)) by {
                        if spec_slot_settled(cfg0.placeholders@[fi], provided@) {
                            let nm = cfg0.placeholders@[fi].var_name@;
                            if nm == "project-name"@ || nm == "crate_name"@ {
                                assert(v2.contains_key(nm));
                            } else {
                                let i = choose|i: int|
                                    0 <= i < provided@.len() && (#[trigger] provided@[i]).0@ == nm
                                        && spec_value_fits(
                                        cfg0.placeholders@[fi],
                                        spec_provided_value(provided@[i].1),
                                    );
                                assert(pm[nm] == spec_provided_value(provided@[i].1));
                            }
                        }
                    }
                }
                match &e {
                    GenError::MissingPlaceholderVariable { var_name } => {
                        let i = choose|i: int|
                            {
                                &&& 0 <= i < merged.placeholders@.len()
                                &&& #[trigger] merged.placeholders@[i].var_name@ == var_name@
                                &&& !v2.contains_key(merged.placeholders@[i].var_name@)
                                &&& !pm.contains_key(merged.placeholders@[i].var_name@)
                            };
                        assert(!v0.contains_key(var_name@));
                        assert forall|jx: int| 0 <= jx < provided@.len() implies (
                        #[trigger] provided@[jx]).0@ != var_name@ by {
                            assert(pm.contains_key(provided@[jx].0@));
                        }
                        let d = choose|d: Seq<bool>|
                            {
                                &&& d.len() == cfg0.conditionals@.len()
                                &&& (forall|ii: int|
                                    0 <= ii < d.len() ==> eval_outcome(
                                        (#[trigger] cfg0.conditionals@[ii]).expr@,
                                        v2,
                                        d[ii],
                                    ))
                                &&& spec_active_of(merged) == spec_apply(
                                    spec_active_of(cfg0),
                                    cfg0.conditionals@,
                                    d,
                                )
                            };
                        assert(spec_has_slot_named(
                            spec_apply(spec_active_of(cfg0), cfg0.conditionals@, d).placeholders,
                            var_name@,
                        ));
                        lemma_apply_slot_names(
                            spec_active_of(cfg0),
                            cfg0.conditionals@,
                            d,
                            var_name@,
                        );
                    },
                    _ => {
                        let i = choose|i: int|
                            {
                                &&& 0 <= i < merged.placeholders@.len()
                                &&& !v2.contains_key(
                                    (#[trigger] merged.placeholders@[i]).var_name@,
                                )
                                &&& pm.contains_key(merged.placeholders@[i].var_name@)
                                &&& spec_accept_error(
                                    merged.placeholders@[i],
                                    pm[merged.placeholders@[i].var_name@],
                                    e,
                                )
                            };
                        let k = merged.placeholders@[i].var_name@;
                        let jx = choose|jx: int|
                            0 <= jx < provided@.len() && (#[trigger] provided@[jx]).0@ == k;
                        assert(spec_accept_error(
                            merged.placeholders@[i],
                            spec_provided_value(provided@[jx].1),
                            e,
                        ));
                    },
                }
            }
            return Err(e);
        },
    }
    let ghost v3 = values@;
    proof {
        assert forall|k: Seq<char>| #[trigger] v0.contains_key(k) implies v3.contains_key(k)
            && v3[k] == v0[k] by {
            assert(v2.contains_key(k) && v2[k] == v0[k]);
        }
        assert forall|i: int|
            0 <= i < provided@.len() && (#[trigger] provided@[i]).0@ != "project-name"@
                && provided@[i].0@ != "crate_name"@ implies v3.contains_key(provided@[i].0@)
            && v3[provided@[i].0@] == spec_provided_value(provided@[i].1) by {
            let k = provided@[i].0@;
            assert(v2.contains_key(k) && v2[k] == spec_provided_value(provided@[i].1));
        }
        assert(spec_seeded_provided_values(v3, *name, provided@));
        if silent {
            assert forall|k: Seq<char>| #[trigger] v3.contains_key(k) implies v2.contains_key(k)
                && v3[k] == v2[k] by {
                if !v2.contains_key(k) {
                    assert(pm.contains_key(k));
                    let i = choose|i: int|
                        0 <= i < provided@.len() && (#[trigger] provided@[i]).0@ == k;
                    if k != "project-name"@ && k != "crate_name"@ {
                        assert(v2.contains_key(provided@[i].0@));
                    }
                }
            }
            assert(v3 =~= v2);
        }
    }
    let hook_files = all_hook_files(&merged.template);
    proof {
        assert(hook_files@.len() == cfg0.template.pre_hooks@.len()
            + cfg0.template.post_hooks@.len());
    }
    let gate = hook_gate(hook_files.len() > 0, allow_commands, silent);
    if let Err(e) = gate_to_result(gate) {
        proof {
            assert(hook_files@.len() > 0 && !allow_commands);
        }
        return Err(e);
    }
    if gate == HookGate::AskUser {
        proof {
            assert(hook_files@.len() > 0 && !allow_commands);
        }
        return Err(GenError::HooksNotAllowed);
    }
    match expand_tree(
        entries,
        &merged.template.inclusions,
        &merged.template.exclusions,
        &merged.template.ignores,
        &hook_files,
        &values,
    ) {
        Ok(out) => {
            proof {
                let d = choose|d: Seq<bool>|
                    {
                        &&& d.len() == cfg0.conditionals@.len()
                        &&& (forall|i: int|
                            0 <= i < d.len() ==> eval_outcome(
                                (#[trigger] cfg0.conditionals@[i]).expr@,
                                v2,
                                d[i],
                            ))
                        &&& spec_active_of(merged) == spec_apply(
                            spec_active_of(cfg0),
                            cfg0.conditionals@,
                            d,
                        )
                    };
                if silent {
                    assert forall|i: int| 0 <= i < cfg0.placeholders@.len() implies
                        spec_slot_settled(#[trigger] cfg0.placeholders@[i], provided@) by {
                        let nm = cfg0.placeholders@[i].var_name@;
                        assert(!crate::resolver::spec_slot_fails(
                            v0,
                            pm,
                            silent,
                            cfg0.placeholders@[i],
                        ));
                        if !v0.contains_key(nm) {
                            assert(pm.contains_key(nm) && spec_value_fits(
                                cfg0.placeholders@[i],
                                pm[nm],
                            ));
                            let ii = choose|ii: int|
                                0 <= ii < provided@.len() && (#[trigger] provided@[ii]).0@ == nm;
                        }
                    }
                }
                assert(spec_expand_rel(
                    entries0,
                    spec_apply(spec_active_of(cfg0), cfg0.conditionals@, d).inclusions,
                    spec_apply(spec_active_of(cfg0), cfg0.conditionals@, d).exclusions,
                    spec_apply(spec_active_of(cfg0), cfg0.conditionals@, d).ignores,
                    hook_files@,
                    v3,
                    spec_outs_view(out@),
                ));
                assert(spec_run_witness(
                    cfg0,
                    entries0,
                    *name,
                    provided@,
                    silent,
                    spec_outs_view(out@),
                    d,
                    v2,
                    v3,
                    hook_files@,
                ));
            }
            Ok(out)
        },
        Err(e) => {
            proof {
                if cfg0.conditionals@.len() == 0 {
                    let d = choose|d: Seq<bool>|
                        {
                            &&& d.len() == cfg0.conditionals@.len()
                            &&& (forall|i: int|
                                0 <= i < d.len() ==> eval_outcome(
                                    (#[trigger] cfg0.conditionals@[i]).expr@,
                                    v2,
                                    d[i],
                                ))
                            &&& spec_active_of(merged) == spec_apply(
                                spec_active_of(cfg0),
                                cfg0.conditionals@,
                                d,
                            )
                        };
                    assert(spec_active_of(merged) == spec_active_of(cfg0));
                    let wi = choose|wi: int|
                        {
                            &&& 0 <= wi < entries0.len()
                            &&& !spec_skipped(
                                #[trigger] entries0[wi],
                                merged.template.inclusions@,
                                merged.template.exclusions@,
                                merged.template.ignores@,
                                hook_files@,
                            )
                            &&& (entries0[wi].kind is Symlink || spec_has_template_markers(
                                entries0[wi].path@,
                            ) || (entries0[wi].kind matches EntryKind::Text { content }
                                && spec_has_template_markers(content@)))
                        };
                    let base_hooks = cfg0.template.pre_hooks@ + cfg0.template.post_hooks@;
                    assert forall|i: int| 0 <= i < hook_files@.len() implies hook_files@[i]@
                        == base_hooks[i]@ by {
                        if i < cfg0.template.pre_hooks@.len() {
                            assert(base_hooks[i] == cfg0.template.pre_hooks@[i]);
                        } else {
                            assert(base_hooks[i] == cfg0.template.post_hooks@[i
                                - cfg0.template.pre_hooks@.len()]);
                        }
                    }
                    crate::strutil::lemma_contains_string_view_equal(
                        hook_files@,
                        base_hooks,
                        entries0[wi].path@,
                    );
                    assert(!spec_entry_expandable(entries0[wi], cfg0));
                }
            }
            Err(e)
        },
    }
}

} // verus!
