//! The variable resolver: every declared slot not yet present in the
//! resolved value set is filled from the pre-supplied values, or fails under
//! silent mode, or is handed to the interactive prompt collaborator. A slot
//! already resolved is never touched and never prompted again.
use vstd::prelude::*;

use crate::GenError;
use crate::slots::{TemplateSlots, accept_value, clone_string, spec_accept_error, spec_value_fits};
use crate::config::unique_slot_names;
use crate::values::{PlainValue, SpecValue, Value, ValueMap};

verus! {

/// Whether resolving `slot` against `vals`, `provided` and `silent` must
/// fail: the slot is unresolved and either the pre-supplied value does not
/// fit it, or there is none and silent mode forbids prompting.
pub open spec fn spec_slot_fails(
    vals: Map<Seq<char>, SpecValue>,
    provided: Map<Seq<char>, SpecValue>,
    silent: bool,
    slot: TemplateSlots,
) -> bool {
    &&& !vals.contains_key(slot.var_name@)
    &&& if provided.contains_key(slot.var_name@) {
        !spec_value_fits(slot, provided[slot.var_name@])
    } else {
        silent
    }
}

/// Whether `slot` is left for the interactive prompt: unresolved, nothing
/// pre-supplied, and prompting allowed.
pub open spec fn spec_slot_prompts(
    vals: Map<Seq<char>, SpecValue>,
    provided: Map<Seq<char>, SpecValue>,
    silent: bool,
    slot: TemplateSlots,
) -> bool {
    &&& !vals.contains_key(slot.var_name@)
    &&& !provided.contains_key(slot.var_name@)
    &&& !silent
}

/// A copy of a value, view for view.
pub fn clone_value(v: &Value) -> (r: Value)
    ensures
        r@ == v@,
{
    match v {
        Value::Str(s) => Value::Str(clone_string(s)),
        Value::Bool(b) => Value::Bool(*b),
    }
}

/// What one pass guarantees of slot `slot` whose index was listed in the
/// prompt list iff `prompted`: an already-resolved slot is never prompted;
/// an unresolved slot with a fitting pre-supplied value is resolved to it
/// and not prompted; an unresolved, unsupplied slot outside silent mode is
/// listed for the prompt collaborator.
pub open spec fn spec_slot_resolved(
    oldv: Map<Seq<char>, SpecValue>,
    newv: Map<Seq<char>, SpecValue>,
    provided: Map<Seq<char>, SpecValue>,
    silent: bool,
    slot: TemplateSlots,
    prompted: bool,
) -> bool {
    &&& (oldv.contains_key(slot.var_name@) ==> !prompted)
    &&& (!oldv.contains_key(slot.var_name@) && provided.contains_key(slot.var_name@) ==> {
        &&& newv.contains_key(slot.var_name@)
        &&& newv[slot.var_name@] == provided[slot.var_name@]
        &&& spec_value_fits(slot, provided[slot.var_name@])
        &&& !prompted
    })
    &&& (spec_slot_prompts(oldv, provided, silent, slot) ==> prompted)
}

/// One pass of the resolver over every declared slot, in declared order.
///
/// A slot already present in the value set is left exactly as it is — in
/// particular it is never listed for prompting. An unresolved slot with a
/// pre-supplied value is validated and resolved to it. An unresolved slot
/// without one fails under silent mode with the missing slot's name;
/// otherwise its index is listed for the interactive prompt collaborator,
/// which is outside this pass.
pub fn resolve_project_variables(
    values: &mut ValueMap,
    slots: &Vec<TemplateSlots>,
    provided: &ValueMap,
    silent: bool,
) -> (r: Result<Vec<usize>, GenError>)
    requires
        old(values).wf(),
        provided.wf(),
        unique_slot_names(slots@),
    ensures
        final(values).wf(),
        forall|k: Seq<char>| #[trigger]
            old(values)@.contains_key(k) ==> final(values)@.contains_key(k) && final(values)@[k]
                == old(values)@[k],
        match r {
            Ok(prompts) => {
                &&& forall|i: int|
                    0 <= i < slots@.len() ==> !spec_slot_fails(
                        old(values)@,
                        provided@,
                        silent,
                        #[trigger] slots@[i],
                    )
                &&& forall|i: int|
                    0 <= i < slots@.len() ==> spec_slot_resolved(
                        old(values)@,
                        final(values)@,
                        provided@,
                        silent,
                        #[trigger] slots@[i],
                        prompts@.contains(i as usize),
                    )
                &&& forall|x: usize| #[trigger]
                    prompts@.contains(x) ==> 0 <= x < slots@.len() && spec_slot_prompts(
                        old(values)@,
                        provided@,
                        silent,
                        slots@[x as int],
                    )
                &&& forall|k: Seq<char>| #[trigger]
                    final(values)@.contains_key(k) ==> old(values)@.contains_key(k) || (
                    provided@.contains_key(k) && final(values)@[k] == provided@[k] && exists|i: int|
                        0 <= i < slots@.len() && slots@[i].var_name@ == k)
            },
            Err(e) => {
                &&& exists|i: int|
                    0 <= i < slots@.len() && spec_slot_fails(
                        old(values)@,
                        provided@,
                        silent,
                        #[trigger] slots@[i],
                    )
                &&& match e {
                    GenError::MissingPlaceholderVariable { var_name } => silent && exists|i: int|
                        {
                            &&& 0 <= i < slots@.len()
                            &&& #[trigger] slots@[i].var_name@ == var_name@
                            &&& !old(values)@.contains_key(slots@[i].var_name@)
                            &&& !provided@.contains_key(slots@[i].var_name@)
                        },
                    _ => exists|i: int|
                        {
                            &&& 0 <= i < slots@.len()
                            &&& !old(values)@.contains_key((#[trigger] slots@[i]).var_name@)
                            &&& provided@.contains_key(slots@[i].var_name@)
                            &&& spec_accept_error(
                                slots@[i],
                                provided@[slots@[i].var_name@],
                                e,
                            )
                        },
                }
            },
        },
{
    let n = slots.len();
    let mut prompts: Vec<usize> = Vec::new();
    let mut i: usize = 0;
    while i < n
        invariant
            n == slots@.len(),
            i <= n,
            values.wf(),
            provided.wf(),
            unique_slot_names(slots@),
            forall|k: Seq<char>| #[trigger]
                old(values)@.contains_key(k) ==> values@.contains_key(k) && values@[k] == old(
                    values,
                )@[k],
            forall|k: Seq<char>| #[trigger]
                values@.contains_key(k) ==> old(values)@.contains_key(k) || (provided@.contains_key(
                    k,
                ) && values@[k] == provided@[k] && exists|j: int|
                    0 <= j < i && slots@[j].var_name@ == k),
            forall|j: int|
                0 <= j < i ==> !spec_slot_fails(old(values)@, provided@, silent, #[trigger] slots@[j]),
            forall|j: int|
                0 <= j < i ==> spec_slot_resolved(
                    old(values)@,
                    values@,
                    provided@,
                    silent,
                    #[trigger] slots@[j],
                    prompts@.contains(j as usize),
                ),
            forall|x: usize| #[trigger]
                prompts@.contains(x) ==> 0 <= x < i && spec_slot_prompts(
                    old(values)@,
                    provided@,
                    silent,
                    slots@[x as int],
                ),
        decreases n - i,
    {
        let slot = &slots[i];
        let ghost name = slot.var_name@;
        proof {
            assert(values@.contains_key(name) ==> old(values)@.contains_key(name)) by {
                if values@.contains_key(name) && !old(values)@.contains_key(name) {
                    let j = choose|j: int| 0 <= j < i && slots@[j].var_name@ == name;
                    assert(slots@[j].var_name@ != slots@[i as int].var_name@);
                }
            }
        }
        let ghost vals_before = values@;
        if !values.contains_key(slot.var_name.as_str()) {
            match provided.get(slot.var_name.as_str()) {
                Some(v) => {
                    let value = clone_value(v);
                    let ghost provided_value = provided@[name];
                    match accept_value(values, slot, value) {
                        Ok(()) => {
                            proof {
                                assert forall|j: int| 0 <= j < i + 1 implies spec_slot_resolved(
                                    old(values)@,
                                    values@,
                                    provided@,
                                    silent,
                                    #[trigger] slots@[j],
                                    prompts@.contains(j as usize),
                                ) by {
                                    if j < i {
                                        assert(slots@[j].var_name@ != name);
                                        assert(spec_slot_resolved(
                                            old(values)@,
                                            vals_before,
                                            provided@,
                                            silent,
                                            slots@[j],
                                            prompts@.contains(j as usize),
                                        ));
                                    } else {
                                        assert(!prompts@.contains(j as usize));
                                    }
                                }
                            }
                        },
                        Err(e) => {
                            proof {
                                assert(0 <= i < slots@.len() && !old(values)@.contains_key(
                                    slots@[i as int].var_name@,
                                ) && provided@.contains_key(slots@[i as int].var_name@)
                                    && spec_accept_error(slots@[i as int], provided_value, e));
                            }
                            return Err(e);
                        },
                    }
                },
                None => {
                    if silent {
                        return Err(
                            GenError::MissingPlaceholderVariable {
                                var_name: clone_string(&slot.var_name),
                            },
                        );
                    }
                    let ghost prompts0 = prompts@;
                    prompts.push(i);
                    proof {
                        assert(prompts@ =~= prompts0.push(i));
                        assert(prompts@.contains(i)) by {
                            assert(prompts@[prompts@.len() - 1] == i);
                        }
                        assert forall|x: usize| #[trigger]
                            prompts@.contains(x) implies prompts0.contains(x) || x == i by {
                            let idx = choose|idx: int|
                                0 <= idx < prompts@.len() && prompts@[idx] == x;
                            if idx < prompts@.len() - 1 {
                                assert(prompts0[idx] == x);
                            }
                        }
                        assert forall|j: int| 0 <= j < i + 1 implies spec_slot_resolved(
                            old(values)@,
                            values@,
                            provided@,
                            silent,
                            #[trigger] slots@[j],
                            prompts@.contains(j as usize),
                        ) by {
                            if j < i {
                                assert(spec_slot_resolved(
                                    old(values)@,
                                    values@,
                                    provided@,
                                    silent,
                                    slots@[j],
                                    prompts0.contains(j as usize),
                                ));
                                assert(prompts0.contains(j as usize) ==> prompts@.contains(
                                    j as usize,
                                )) by {
                                    if prompts0.contains(j as usize) {
                                        let idx = choose|idx: int|
                                            0 <= idx < prompts0.len() && prompts0[idx] == (
                                        j as usize);
                                        assert(prompts@[idx] == (j as usize));
                                    }
                                }
                                if prompts@.contains(j as usize) && !prompts0.contains(j as usize) {
                                    assert(j as usize == i);
                                }
                            }
                        }
                    }
                },
            }
        } else {
            proof {
                assert(!prompts@.contains(i));
            }
        }
        i += 1;
    }
    Ok(prompts)
}

/// Carries every pre-supplied value that names no declared slot into the
/// value set: strings and booleans are added under their name unless the
/// name is already resolved; any other value kind is rejected, and then
/// nothing is added at all. Pre-supplied names must be unique, as a parsed
/// key-value table's are.
pub fn add_missing_provided_values(
    values: &mut ValueMap,
    template_values: &Vec<(String, PlainValue)>,
) -> (r: Result<(), GenError>)
    requires
        old(values).wf(),
        unique_pair_names(template_values@),
    ensures
        final(values).wf(),
        forall|k: Seq<char>| #[trigger]
            old(values)@.contains_key(k) ==> final(values)@.contains_key(k) && final(values)@[k]
                == old(values)@[k],
        match r {
            Ok(()) => {
                &&& forall|i: int|
                    #![trigger template_values@[i]]
                    0 <= i < template_values@.len() ==> {
                        &&& !(old(values)@.contains_key(template_values@[i].0@))
                            ==> match template_values@[i].1 {
                            PlainValue::Str(s) => final(values)@.contains_key(
                                template_values@[i].0@,
                            ) && final(values)@[template_values@[i].0@] == SpecValue::Str(s@),
                            PlainValue::Bool(b) => final(values)@.contains_key(
                                template_values@[i].0@,
                            ) && final(values)@[template_values@[i].0@] == SpecValue::Bool(b),
                            PlainValue::Other => false,
                        }
                    }
                &&& forall|k: Seq<char>| #[trigger]
                    final(values)@.contains_key(k) ==> old(values)@.contains_key(k) || exists|
                        i: int,
                    | 0 <= i < template_values@.len() && template_values@[i].0@ == k
            },
            Err(e) => {
                &&& final(values)@ == old(values)@
                &&& match e {
                    GenError::UnsupportedValueType { var_name } => exists|i: int|
                        0 <= i < template_values@.len() && (#[trigger] template_values@[i]).1
                            is Other && template_values@[i].0@ == var_name@ && !old(
                            values,
                        )@.contains_key(template_values@[i].0@),
                    _ => false,
                }
            },
        },
{
    let n = template_values.len();
    let mut i: usize = 0;
    while i < n
        invariant
            n == template_values@.len(),
            i <= n,
            values.wf(),
            values@ == old(values)@,
            forall|j: int|
                0 <= j < i ==> !((#[trigger] template_values@[j]).1 is Other)
                    || old(values)@.contains_key(template_values@[j].0@),
        decreases n - i,
    {
        let (k, v) = &template_values[i];
        if !values.contains_key(k.as_str()) {
            if let PlainValue::Other = v {
                return Err(GenError::UnsupportedValueType { var_name: clone_string(k) });
            }
        }
        i += 1;
    }
    let mut i: usize = 0;
    while i < n
        invariant
            n == template_values@.len(),
            i <= n,
            values.wf(),
            forall|j: int|
                0 <= j < n ==> !((#[trigger] template_values@[j]).1 is Other) || old(
                    values,
                )@.contains_key(template_values@[j].0@),
            forall|k: Seq<char>| #[trigger]
                old(values)@.contains_key(k) ==> values@.contains_key(k) && values@[k] == old(
                    values,
                )@[k],
            forall|k: Seq<char>| #[trigger]
                values@.contains_key(k) ==> old(values)@.contains_key(k) || exists|j: int|
                    0 <= j < i && template_values@[j].0@ == k,
            forall|j: int|
                #![trigger template_values@[j]]
                0 <= j < i ==> {
                    !(old(values)@.contains_key(template_values@[j].0@)) ==> match template_values@[j].1 {
                        PlainValue::Str(s) => values@.contains_key(template_values@[j].0@)
                            && values@[template_values@[j].0@] == SpecValue::Str(s@),
                        PlainValue::Bool(b) => values@.contains_key(template_values@[j].0@)
                            && values@[template_values@[j].0@] == SpecValue::Bool(b),
                        PlainValue::Other => false,
                    }
                },
            unique_pair_names(template_values@),
        decreases n - i,
    {
        let (k, v) = &template_values[i];
        let ghost name = k@;
        proof {
            assert(values@.contains_key(name) ==> old(values)@.contains_key(name)) by {
                if values@.contains_key(name) && !old(values)@.contains_key(name) {
                    let j = choose|j: int| 0 <= j < i && template_values@[j].0@ == name;
                    assert(template_values@[j].0@ != template_values@[i as int].0@);
                }
            }
        }
        if !values.contains_key(k.as_str()) {
            match v {
                PlainValue::Str(s) => {
                    values.insert(clone_string(k), Value::Str(clone_string(s)));
                },
                PlainValue::Bool(b) => {
                    values.insert(clone_string(k), Value::Bool(*b));
                },
                PlainValue::Other => {
                    proof {
                        assert(false);
                    }
                },
            }
        }
        i += 1;
    }
    Ok(())
}

/// No two pre-supplied entries share a name.
pub open spec fn unique_pair_names(s: Seq<(String, PlainValue)>) -> bool {
    forall|i: int, j: int| 0 <= i < j < s.len() ==> s[i].0@ != s[j].0@
}

} // verus!
