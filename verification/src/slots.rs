//! The slot model: a typed description of one requestable variable, and the
//! validation that gates a candidate value's entry into the resolved value
//! set.
use vstd::prelude::*;

use crate::GenError;
use crate::strutil::str_eq;
use crate::values::{SpecValue, Value, ValueMap};

verus! {

/// The declaration of a string slot: optional default, optional finite
/// choice set, optional regex constraint (kept as its pattern text).
pub struct StringEntry {
    pub default: Option<String>,
    pub choices: Option<Vec<String>>,
    pub regex: Option<String>,
}

/// The kind of a slot, with the kind-specific validation data.
pub enum VarInfo {
    Bool { default: Option<bool> },
    String { entry: StringEntry },
}

/// One requestable variable: its name, its human prompt text, and its kind.
pub struct TemplateSlots {
    pub var_name: String,
    pub prompt: String,
    pub var_info: VarInfo,
}

/// What `regex::Regex::new(pattern)` followed by `is_match(text)` answers:
/// `None` when the pattern does not compile, otherwise whether it matches.
pub uninterp spec fn regex_match_of(pattern: Seq<char>, text: Seq<char>) -> Option<bool>;

/// Relies on regex::Regex::new and regex::Regex::is_match: both are
/// functions of the pattern and text alone; a pattern that does not compile
/// is told apart from a mismatch.
#[verifier::external_body]
fn regex_is_match(pattern: &str, text: &str) -> (r: Option<bool>)
    ensures
        r == regex_match_of(pattern@, text@),
{
    match regex::Regex::new(pattern) {
        Ok(re) => Some(re.is_match(text)),
        Err(_) => None,
    }
}

/// Whether `text` occurs in the choice list.
pub open spec fn spec_is_choice(choices: Seq<String>, text: Seq<char>) -> bool {
    exists|i: int| 0 <= i < choices.len() && choices[i]@ == text
}

/// The slot-model invariant on a resolved value: a boolean slot holds a
/// boolean; a string slot holds a string that matches the slot's regex
/// constraint, when one is declared, and is a member of the slot's choice
/// set, when one is declared.
pub open spec fn spec_value_fits(slot: TemplateSlots, v: SpecValue) -> bool {
    match slot.var_info {
        VarInfo::Bool { .. } => v is Bool,
        VarInfo::String { entry } => match v {
            SpecValue::Str(s) => {
                &&& match entry.regex {
                    Some(p) => regex_match_of(p@, s) == Some(true),
                    None => true,
                }
                &&& match entry.choices {
                    Some(cs) => spec_is_choice(cs@, s),
                    None => true,
                }
            },
            SpecValue::Bool(_) => false,
        },
    }
}

/// Why a candidate value does not fit `slot`, each cause under its own
/// error, always naming the slot: wrong kind, a regex constraint that does
/// not compile, a regex mismatch, or a value outside the choice set.
pub open spec fn spec_accept_error(slot: TemplateSlots, v: SpecValue, e: GenError) -> bool {
    match e {
        GenError::WrongTypeForSlot { var_name } => {
            &&& var_name@ == slot.var_name@
            &&& match slot.var_info {
                VarInfo::Bool { .. } => !(v is Bool),
                VarInfo::String { .. } => !(v is Str),
            }
        },
        GenError::InvalidRegex { var_name } => {
            &&& var_name@ == slot.var_name@
            &&& slot.var_info matches VarInfo::String { entry } && entry.regex matches Some(p)
                && v matches SpecValue::Str(s) && regex_match_of(p@, s) is None
        },
        GenError::RegexMismatch { var_name } => {
            &&& var_name@ == slot.var_name@
            &&& slot.var_info matches VarInfo::String { entry } && entry.regex matches Some(p)
                && v matches SpecValue::Str(s) && regex_match_of(p@, s) == Some(false)
        },
        GenError::InvalidChoice { var_name } => {
            &&& var_name@ == slot.var_name@
            &&& slot.var_info matches VarInfo::String { entry } && entry.choices matches Some(cs)
                && v matches SpecValue::Str(s) && !spec_is_choice(cs@, s)
        },
        _ => false,
    }
}

/// Validates `value` against `slot` and, when it fits, resolves the slot to
/// it. A value that does not fit leaves the value set untouched and says
/// why, as [`spec_accept_error`] classifies it. A value accepted for a
/// regex-constrained slot always matches the constraint.
pub fn accept_value(values: &mut ValueMap, slot: &TemplateSlots, value: Value) -> (r: Result<
    (),
    GenError,
>)
    requires
        old(values).wf(),
    ensures
        final(values).wf(),
        match r {
            Ok(()) => {
                &&& spec_value_fits(*slot, value@)
                &&& final(values)@ == old(values)@.insert(slot.var_name@, value@)
            },
            Err(e) => {
                &&& final(values)@ == old(values)@
                &&& !spec_value_fits(*slot, value@)
                &&& spec_accept_error(*slot, value@, e)
            },
        },
{
    match &slot.var_info {
        VarInfo::Bool { .. } => {
            match value {
                Value::Bool(b) => {
                    values.insert(clone_string(&slot.var_name), Value::Bool(b));
                    Ok(())
                },
                Value::Str(_) => Err(
                    GenError::WrongTypeForSlot { var_name: clone_string(&slot.var_name) },
                ),
            }
        },
        VarInfo::String { entry } => {
            match value {
                Value::Bool(_) => Err(
                    GenError::WrongTypeForSlot { var_name: clone_string(&slot.var_name) },
                ),
                Value::Str(s) => {
                    if let Some(p) = &entry.regex {
                        match regex_is_match(p.as_str(), s.as_str()) {
                            None => {
                                return Err(
                                    GenError::InvalidRegex {
                                        var_name: clone_string(&slot.var_name),
                                    },
                                );
                            },
                            Some(false) => {
                                return Err(
                                    GenError::RegexMismatch {
                                        var_name: clone_string(&slot.var_name),
                                    },
                                );
                            },
                            Some(true) => {},
                        }
                    }
                    if let Some(cs) = &entry.choices {
                        if !is_choice(cs, s.as_str()) {
                            return Err(
                                GenError::InvalidChoice { var_name: clone_string(&slot.var_name) },
                            );
                        }
                    }
                    values.insert(clone_string(&slot.var_name), Value::Str(s));
                    Ok(())
                },
            }
        },
    }
}

/// Membership of `text` in the choice list.
fn is_choice(choices: &Vec<String>, text: &str) -> (r: bool)
    ensures
        r == spec_is_choice(choices@, text@),
{
    let n = choices.len();
    let mut i: usize = 0;
    while i < n
        invariant
            n == choices@.len(),
            i <= n,
            forall|j: int| 0 <= j < i ==> choices@[j]@ != text@,
        decreases n - i,
    {
        if str_eq(choices[i].as_str(), text) {
            return true;
        }
        i += 1;
    }
    false
}

/// A copy of a string, view for view.
pub fn clone_string(s: &String) -> (r: String)
    ensures
        r@ == s@,
{
    s.clone()
}

} // verus!
