//! The conditional merge engine: each fragment's boolean expression is
//! evaluated against the resolved value set, and the fragments found true
//! contribute their pattern entries and placeholder definitions to the
//! active configuration. The merge is a single pass and consumes the
//! fragments: expressions are not re-evaluated after mutation.
use vstd::prelude::*;

use crate::config::{Config, ConditionalFragment, TemplateCfg, unique_slot_names};
use crate::slots::TemplateSlots;
use crate::strutil::str_eq;
use crate::values::{Value, ValueMap};

verus! {

/// The active configuration read by the filter engine and the resolver
/// once the merge is done.
pub struct SpecActive {
    pub inclusions: Seq<String>,
    pub exclusions: Seq<String>,
    pub ignores: Seq<String>,
    pub placeholders: Seq<TemplateSlots>,
}

/// The active part of a configuration.
pub open spec fn spec_active_of(cfg: Config) -> SpecActive {
    SpecActive {
        inclusions: cfg.template.inclusions@,
        exclusions: cfg.template.exclusions@,
        ignores: cfg.template.ignores@,
        placeholders: cfg.placeholders@,
    }
}

/// A placeholder contributed by a fragment: an existing name is overwritten
/// in place, a new one is appended.
pub open spec fn spec_upsert(s: Seq<TemplateSlots>, slot: TemplateSlots) -> Seq<TemplateSlots> {
    if exists|i: int| 0 <= i < s.len() && s[i].var_name@ == slot.var_name@ {
        s.update(
            choose|i: int| 0 <= i < s.len() && s[i].var_name@ == slot.var_name@,
            slot,
        )
    } else {
        s.push(slot)
    }
}

/// All of a fragment's placeholders contributed in order.
pub open spec fn spec_upsert_all(s: Seq<TemplateSlots>, add: Seq<TemplateSlots>) -> Seq<
    TemplateSlots,
>
    decreases add.len(),
{
    if add.len() == 0 {
        s
    } else {
        spec_upsert_all(spec_upsert(s, add[0]), add.skip(1))
    }
}

/// One fragment applied to the active configuration, when its expression
/// was found true: pattern entries are appended (duplicates permitted),
/// placeholders added or overwritten.
pub open spec fn spec_apply_fragment(a: SpecActive, f: ConditionalFragment, on: bool) -> SpecActive {
    if on {
        SpecActive {
            inclusions: a.inclusions + f.inclusions@,
            exclusions: a.exclusions + f.exclusions@,
            ignores: a.ignores + f.ignores@,
            placeholders: spec_upsert_all(a.placeholders, f.placeholders@),
        }
    } else {
        a
    }
}

/// The fragments applied in declared order, each under its decision.
pub open spec fn spec_apply(
    a: SpecActive,
    frags: Seq<ConditionalFragment>,
    d: Seq<bool>,
) -> SpecActive
    decreases frags.len(),
{
    if frags.len() == 0 || d.len() == 0 {
        a
    } else {
        spec_apply(spec_apply_fragment(a, frags[0], d[0]), frags.skip(1), d.skip(1))
    }
}

/// Whether some slot of the list bears the name.
pub open spec fn spec_has_slot_named(s: Seq<TemplateSlots>, k: Seq<char>) -> bool {
    exists|i: int| 0 <= i < s.len() && (#[trigger] s[i]).var_name@ == k
}

/// An upsert introduces no name but the contributed slot's.
proof fn lemma_upsert_named(s: Seq<TemplateSlots>, slot: TemplateSlots, k: Seq<char>)
    requires
        spec_has_slot_named(spec_upsert(s, slot), k),
    ensures
        spec_has_slot_named(s, k) || slot.var_name@ == k,
{
    let t = spec_upsert(s, slot);
    let i = choose|i: int| 0 <= i < t.len() && (#[trigger] t[i]).var_name@ == k;
    if exists|w: int| 0 <= w < s.len() && s[w].var_name@ == slot.var_name@ {
        let w = choose|w: int| 0 <= w < s.len() && s[w].var_name@ == slot.var_name@;
        if i != w {
            assert(s[i].var_name@ == k);
        }
    } else {
        if i < s.len() {
            assert(s[i].var_name@ == k);
        }
    }
}

/// Contributing a list of slots introduces no name outside it.
proof fn lemma_upsert_all_named(s: Seq<TemplateSlots>, add: Seq<TemplateSlots>, k: Seq<char>)
    requires
        spec_has_slot_named(spec_upsert_all(s, add), k),
    ensures
        spec_has_slot_named(s, k) || spec_has_slot_named(add, k),
    decreases add.len(),
{
    if add.len() > 0 {
        lemma_upsert_all_named(spec_upsert(s, add[0]), add.skip(1), k);
        if spec_has_slot_named(spec_upsert(s, add[0]), k) {
            lemma_upsert_named(s, add[0], k);
        } else {
            let i = choose|i: int|
                0 <= i < add.skip(1).len() && (#[trigger] add.skip(1)[i]).var_name@ == k;
            assert(add[i + 1].var_name@ == k);
        }
    }
}

/// Every placeholder name of a merged configuration was declared up front
/// or contributed by some fragment.
pub proof fn lemma_apply_slot_names(
    a: SpecActive,
    frags: Seq<ConditionalFragment>,
    d: Seq<bool>,
    k: Seq<char>,
)
    requires
        spec_has_slot_named(spec_apply(a, frags, d).placeholders, k),
    ensures
        spec_has_slot_named(a.placeholders, k) || exists|j: int|
            0 <= j < frags.len() && spec_has_slot_named((#[trigger] frags[j]).placeholders@, k),
    decreases frags.len(),
{
    if frags.len() > 0 && d.len() > 0 {
        lemma_apply_slot_names(spec_apply_fragment(a, frags[0], d[0]), frags.skip(1), d.skip(1), k);
        if spec_has_slot_named(spec_apply_fragment(a, frags[0], d[0]).placeholders, k) {
            if d[0] {
                lemma_upsert_all_named(a.placeholders, frags[0].placeholders@, k);
            }
        } else {
            let j = choose|j: int|
                0 <= j < frags.skip(1).len() && spec_has_slot_named(
                    (#[trigger] frags.skip(1)[j]).placeholders@,
                    k,
                );
            assert(spec_has_slot_named(frags[j + 1].placeholders@, k));
        }
    }
}

/// Law: conditional merging is idempotent within one pass. The merge
/// consumes the fragments, so a configuration that came out of a merge
/// holds none; merging it a second time without new resolved values — or
/// indeed under any decisions — leaves the active include, exclude, ignore
/// and placeholder lists exactly as the first merge made them.
pub proof fn lemma_merge_idempotent(merged: Config, d: Seq<bool>)
    requires
        merged.conditionals@.len() == 0,
    ensures
        spec_apply(spec_active_of(merged), merged.conditionals@, d) == spec_active_of(merged),
{
}

/// That `decision` is a verdict the expression engine can reach for
/// `expr` under the resolved values. It is a relation, not a function: an
/// expression can call an engine function that reads the clock, so two
/// evaluations of the same expression may differ.
pub uninterp spec fn eval_outcome(
    expr: Seq<char>,
    ctx: Map<Seq<char>, crate::values::SpecValue>,
    decision: bool,
) -> bool;

/// Relies on rhai's Engine::eval_expression_with_scope: evaluates the
/// fragment's boolean expression with every resolved variable pushed into
/// the scope (booleans as booleans, strings as strings). Any failure — a
/// malformed expression, a type error, an unresolved identifier — counts
/// as false rather than aborting; whatever comes back is one of the
/// engine's verdicts for this expression and context.
#[verifier::external_body]
fn eval_condition(expr: &str, values: &ValueMap) -> (r: bool)
    ensures
        eval_outcome(expr@, values@, r),
{
    let mut scope = rhai::Scope::new();
    for (k, v) in values.entries().iter() {
        match v {
            Value::Str(s) => {
                scope.push(k.clone(), s.clone());
            },
            Value::Bool(b) => {
                scope.push(k.clone(), *b);
            },
        }
    }
    rhai::Engine::new().eval_expression_with_scope::<bool>(&mut scope, expr).unwrap_or(false)
}

/// A placeholder added or overwritten in the active list, by name.
fn upsert_slot(phs: &mut Vec<TemplateSlots>, slot: TemplateSlots)
    requires
        unique_slot_names(old(phs)@),
    ensures
        final(phs)@ == spec_upsert(old(phs)@, slot),
        unique_slot_names(final(phs)@),
{
    let n = phs.len();
    let mut i: usize = 0;
    while i < n
        invariant
            n == phs@.len(),
            i <= n,
            phs@ == old(phs)@,
            unique_slot_names(phs@),
            forall|j: int| 0 <= j < i ==> phs@[j].var_name@ != slot.var_name@,
        decreases n - i,
    {
        if str_eq(phs[i].var_name.as_str(), slot.var_name.as_str()) {
            let ghost s0 = phs@;
            let ghost slotg = slot;
            proof {
                let w = choose|w: int| 0 <= w < s0.len() && s0[w].var_name@ == slotg.var_name@;
                assert(w == i as int) by {
                    if w != i as int {
                        assert(s0[w].var_name@ != s0[i as int].var_name@);
                    }
                }
            }
            phs[i] = slot;
            proof {
                assert forall|a: int, b: int| 0 <= a < b < phs@.len() implies phs@[a].var_name@
                    != phs@[b].var_name@ by {
                    assert(s0[a].var_name@ != s0[b].var_name@);
                    assert(s0[i as int].var_name@ == slotg.var_name@);
                }
            }
            return ;
        }
        i += 1;
    }
    let ghost s0 = phs@;
    let ghost slotg = slot;
    phs.push(slot);
    proof {
        assert forall|a: int, b: int| 0 <= a < b < phs@.len() implies phs@[a].var_name@
            != phs@[b].var_name@ by {
            if b < phs@.len() - 1 {
                assert(s0[a].var_name@ != s0[b].var_name@);
            } else {
                assert(phs@[b] == slotg);
                assert(s0[a].var_name@ != slotg.var_name@);
            }
        }
    }
}

/// A fragment's placeholders contributed in order.
fn upsert_all_slots(phs: &mut Vec<TemplateSlots>, add: Vec<TemplateSlots>)
    requires
        unique_slot_names(old(phs)@),
    ensures
        final(phs)@ == spec_upsert_all(old(phs)@, add@),
        unique_slot_names(final(phs)@),
{
    let mut rest = add;
    let ghost add0 = add@;
    while rest.len() > 0
        invariant
            unique_slot_names(phs@),
            spec_upsert_all(phs@, rest@) == spec_upsert_all(old(phs)@, add0),
        decreases rest@.len(),
    {
        let ghost rest0 = rest@;
        let s = rest.remove(0);
        proof {
            assert(rest@ =~= rest0.skip(1));
        }
        upsert_slot(phs, s);
    }
}

/// Applies every fragment whose expression was found true, in declared
/// order, and returns the merged configuration: pattern entries appended,
/// placeholders added or overwritten, the fragments consumed. Hook lists
/// and the version requirement are untouched.
pub fn apply_conditionals(cfg: Config, decisions: &Vec<bool>) -> (r: Config)
    requires
        cfg.wf(),
        decisions@.len() == cfg.conditionals@.len(),
    ensures
        r.conditionals@.len() == 0,
        r.wf(),
        spec_active_of(r) == spec_apply(spec_active_of(cfg), cfg.conditionals@, decisions@),
        r.template.pre_hooks@ == cfg.template.pre_hooks@,
        r.template.post_hooks@ == cfg.template.post_hooks@,
        r.template.version_req == cfg.template.version_req,
    decreases
{
    let ghost cfg0 = cfg;
    let Config { template, placeholders, conditionals } = cfg;
    let TemplateCfg {
        mut inclusions,
        mut exclusions,
        mut ignores,
        pre_hooks,
        post_hooks,
        version_req,
    } = template;
    let mut phs = placeholders;
    let mut frags = conditionals;
    let mut di: usize = 0;
    let dn = decisions.len();
    proof {
        assert(decisions@.skip(0) =~= decisions@);
    }
    while frags.len() > 0
        invariant
            unique_slot_names(phs@),
            dn == decisions@.len(),
            di <= dn,
            di + frags@.len() == decisions@.len(),
            spec_apply(
                SpecActive {
                    inclusions: inclusions@,
                    exclusions: exclusions@,
                    ignores: ignores@,
                    placeholders: phs@,
                },
                frags@,
                decisions@.skip(di as int),
            ) == spec_apply(spec_active_of(cfg0), cfg0.conditionals@, decisions@),
        decreases frags@.len(),
    {
        let ghost frags0 = frags@;
        let ghost d_rest = decisions@.skip(di as int);
        let f = frags.remove(0);
        proof {
            assert(frags@ =~= frags0.skip(1));
            assert(d_rest[0] == decisions@[di as int]);
            assert(d_rest.skip(1) =~= decisions@.skip(di as int + 1));
        }
        let on = decisions[di];
        if on {
            let ConditionalFragment {
                expr: _,
                inclusions: mut fi,
                exclusions: mut fe,
                ignores: mut fg,
                placeholders: fp,
            } = f;
            inclusions.append(&mut fi);
            exclusions.append(&mut fe);
            ignores.append(&mut fg);
            upsert_all_slots(&mut phs, fp);
        }
        di += 1;
    }
    Config {
        template: TemplateCfg {
            inclusions,
            exclusions,
            ignores,
            pre_hooks,
            post_hooks,
            version_req,
        },
        placeholders: phs,
        conditionals: frags,
    }
}

/// Merges the conditional section into the active configuration: each
/// fragment's expression is evaluated against the resolved value set by the
/// embedded expression engine, and the fragments found true are applied in
/// declared order. The expressions' outcomes rest with the engine, so the
/// contract promises the shape of the merge for some decision sequence.
pub fn merge_conditionals(cfg: Config, values: &ValueMap) -> (r: Config)
    requires
        cfg.wf(),
        values.wf(),
    ensures
        r.conditionals@.len() == 0,
        r.wf(),
        r.template.pre_hooks@ == cfg.template.pre_hooks@,
        r.template.post_hooks@ == cfg.template.post_hooks@,
        r.template.version_req == cfg.template.version_req,
        exists|d: Seq<bool>|
            {
                &&& d.len() == cfg.conditionals@.len()
                &&& (forall|i: int|
                    0 <= i < d.len() ==> eval_outcome(
                        (#[trigger] cfg.conditionals@[i]).expr@,
                        values@,
                        d[i],
                    ))
                &&& spec_active_of(r) == spec_apply(spec_active_of(cfg), cfg.conditionals@, d)
            },
{
    let n = cfg.conditionals.len();
    let mut decisions: Vec<bool> = Vec::new();
    let mut i: usize = 0;
    while i < n
        invariant
            i <= n,
            n == cfg.conditionals@.len(),
            decisions@.len() == i,
            values.wf(),
            forall|j: int|
                0 <= j < i ==> eval_outcome(
                    (#[trigger] cfg.conditionals@[j]).expr@,
                    values@,
                    decisions@[j],
                ),
        decreases n - i,
    {
        let on = eval_condition(cfg.conditionals[i].expr.as_str(), values);
        decisions.push(on);
        i += 1;
    }
    let ghost d = decisions@;
    let r = apply_conditionals(cfg, &decisions);
    proof {
        assert(spec_active_of(r) == spec_apply(spec_active_of(cfg), cfg.conditionals@, d));
    }
    r
}

} // verus!
