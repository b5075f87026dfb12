//! The hook coordinator's decisions: which files are hook sources, and
//! whether running them is permitted at all. Running the scripts themselves
//! is outside work; every decision about them is made here.
use vstd::prelude::*;

use crate::GenError;
use crate::config::TemplateCfg;
use crate::slots::clone_string;

verus! {

/// What to do about declared hooks.
#[derive(Clone, Copy, Debug, PartialEq, Eq, Structural)]
pub enum HookGate {
    /// Run them: the capability was granted, or there is nothing to run.
    Run,
    /// Ask the user for the capability first.
    AskUser,
    /// Refuse: silent mode forbids asking, and the capability is missing.
    Refuse,
}

/// Decides whether hooks may run: nothing to run or a granted capability
/// runs; without the capability, silent mode refuses rather than skipping,
/// and an interactive run asks the user.
pub fn hook_gate(has_hooks: bool, allow_commands: bool, silent: bool) -> (r: HookGate)
    ensures
        r == (if !has_hooks || allow_commands {
            HookGate::Run
        } else if silent {
            HookGate::Refuse
        } else {
            HookGate::AskUser
        }),
{
    if !has_hooks || allow_commands {
        HookGate::Run
    } else if silent {
        HookGate::Refuse
    } else {
        HookGate::AskUser
    }
}

/// A refused gate as the run's failure.
pub fn gate_to_result(gate: HookGate) -> (r: Result<(), GenError>)
    ensures
        r is Ok <==> gate != HookGate::Refuse,
        r matches Err(e) ==> e is HooksNotAllowed,
{
    match gate {
        HookGate::Refuse => Err(GenError::HooksNotAllowed),
        _ => Ok(()),
    }
}

/// Every hook source file, pre-hooks first, post-hooks after: the files the
/// walker keeps out of the destination and the cleanup deletes.
pub fn all_hook_files(cfg: &TemplateCfg) -> (r: Vec<String>)
    ensures
        r@.len() == cfg.pre_hooks@.len() + cfg.post_hooks@.len(),
        forall|i: int|
            0 <= i < cfg.pre_hooks@.len() ==> r@[i]@ == #[trigger] cfg.pre_hooks@[i]@,
        forall|i: int|
            0 <= i < cfg.post_hooks@.len() ==> r@[cfg.pre_hooks@.len() + i]@
                == #[trigger] cfg.post_hooks@[i]@,
{
    let mut out: Vec<String> = Vec::new();
    let n = cfg.pre_hooks.len();
    let mut i: usize = 0;
    while i < n
        invariant
            n == cfg.pre_hooks@.len(),
            i <= n,
            out@.len() == i,
            forall|j: int| 0 <= j < i ==> out@[j]@ == #[trigger] cfg.pre_hooks@[j]@,
        decreases n - i,
    {
        out.push(clone_string(&cfg.pre_hooks[i]));
        i += 1;
    }
    let m = cfg.post_hooks.len();
    let mut k: usize = 0;
    while k < m
        invariant
            n == cfg.pre_hooks@.len(),
            m == cfg.post_hooks@.len(),
            k <= m,
            out@.len() == n + k,
            forall|j: int| 0 <= j < n ==> out@[j]@ == #[trigger] cfg.pre_hooks@[j]@,
            forall|j: int| 0 <= j < k ==> out@[n + j]@ == #[trigger] cfg.post_hooks@[j]@,
        decreases m - k,
    {
        out.push(clone_string(&cfg.post_hooks[k]));
        k += 1;
    }
    out
}

} // verus!
