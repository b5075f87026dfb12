//! The template configuration: the pattern lists and hook lists of the
//! template section, the declared placeholder slots, and the ordered
//! conditional fragments that can extend them.
use vstd::prelude::*;

use crate::slots::TemplateSlots;

verus! {

/// The template section: glob pattern lists, ordered hook file lists, and
/// the optional engine version requirement.
pub struct TemplateCfg {
    pub inclusions: Vec<String>,
    pub exclusions: Vec<String>,
    pub ignores: Vec<String>,
    pub pre_hooks: Vec<String>,
    pub post_hooks: Vec<String>,
    pub version_req: Option<String>,
}

/// A conditional fragment: a boolean expression guarding extra pattern
/// entries and extra placeholder definitions.
pub struct ConditionalFragment {
    pub expr: String,
    pub inclusions: Vec<String>,
    pub exclusions: Vec<String>,
    pub ignores: Vec<String>,
    pub placeholders: Vec<TemplateSlots>,
}

/// A parsed template configuration.
pub struct Config {
    pub template: TemplateCfg,
    pub placeholders: Vec<TemplateSlots>,
    pub conditionals: Vec<ConditionalFragment>,
}

/// No two slots of the list share a variable name.
pub open spec fn unique_slot_names(s: Seq<TemplateSlots>) -> bool {
    forall|i: int, j: int| 0 <= i < j < s.len() ==> s[i].var_name@ != s[j].var_name@
}

impl TemplateCfg {
    /// An empty template section: no patterns, no hooks, no requirement.
    pub fn new() -> (r: TemplateCfg)
        ensures
            r.inclusions@ =~= Seq::<String>::empty(),
            r.exclusions@ =~= Seq::<String>::empty(),
            r.ignores@ =~= Seq::<String>::empty(),
            r.pre_hooks@ =~= Seq::<String>::empty(),
            r.post_hooks@ =~= Seq::<String>::empty(),
            r.version_req is None,
    {
        TemplateCfg {
            inclusions: Vec::new(),
            exclusions: Vec::new(),
            ignores: Vec::new(),
            pre_hooks: Vec::new(),
            post_hooks: Vec::new(),
            version_req: None,
        }
    }
}

impl Config {
    /// The configuration's placeholder names are unique.
    pub open spec fn wf(&self) -> bool {
        unique_slot_names(self.placeholders@)
    }

    /// An empty configuration, the state of a template without one.
    pub fn new() -> (r: Config)
        ensures
            r.template.inclusions@ =~= Seq::<String>::empty(),
            r.template.exclusions@ =~= Seq::<String>::empty(),
            r.template.ignores@ =~= Seq::<String>::empty(),
            r.template.pre_hooks@ =~= Seq::<String>::empty(),
            r.template.post_hooks@ =~= Seq::<String>::empty(),
            r.template.version_req is None,
            r.placeholders@ =~= Seq::<TemplateSlots>::empty(),
            r.conditionals@ =~= Seq::<ConditionalFragment>::empty(),
            r.wf(),
    {
        Config { template: TemplateCfg::new(), placeholders: Vec::new(), conditionals: Vec::new() }
    }
}

} // verus!
