use cargo_generate::conditional::{apply_conditionals, merge_conditionals};
use cargo_generate::config::{Config, ConditionalFragment, TemplateCfg};
use cargo_generate::slots::{StringEntry, TemplateSlots, VarInfo};
use cargo_generate::values::{Value, ValueMap};

fn fragment(expr: &str, ignores: Vec<&str>, exclusions: Vec<&str>) -> ConditionalFragment {
    ConditionalFragment {
        expr: expr.to_string(),
        inclusions: Vec::new(),
        exclusions: exclusions.iter().map(|s| s.to_string()).collect(),
        ignores: ignores.iter().map(|s| s.to_string()).collect(),
        placeholders: Vec::new(),
    }
}

fn config_with(fragments: Vec<ConditionalFragment>) -> Config {
    let mut cfg = Config::new();
    cfg.conditionals = fragments;
    cfg
}

#[test]
fn true_expression_contributes_its_entries() {
    let cfg = config_with(vec![fragment("is_wasm == true", vec![], vec!["native/*"])]);
    let mut values = ValueMap::new();
    values.insert("is_wasm".to_string(), Value::Bool(true));
    let merged = merge_conditionals(cfg, &values);
    assert_eq!(merged.template.exclusions, vec!["native/*".to_string()]);
    assert!(merged.conditionals.is_empty());
}

#[test]
fn false_expression_contributes_nothing() {
    let cfg = config_with(vec![fragment("is_wasm == true", vec![], vec!["native/*"])]);
    let mut values = ValueMap::new();
    values.insert("is_wasm".to_string(), Value::Bool(false));
    let merged = merge_conditionals(cfg, &values);
    assert!(merged.template.exclusions.is_empty());
}

#[test]
fn undefined_identifier_evaluates_false_not_fatal() {
    let cfg = config_with(vec![fragment("missing_var == true", vec!["x/*"], vec![])]);
    let values = ValueMap::new();
    let merged = merge_conditionals(cfg, &values);
    assert!(merged.template.ignores.is_empty());
}

#[test]
fn malformed_expression_evaluates_false_not_fatal() {
    let cfg = config_with(vec![fragment("==!garbage((", vec!["x/*"], vec![])]);
    let values = ValueMap::new();
    let merged = merge_conditionals(cfg, &values);
    assert!(merged.template.ignores.is_empty());
}

#[test]
fn string_comparison_drives_a_fragment() {
    let cfg = config_with(vec![fragment("kind == \"lib\"", vec!["bin-only/*"], vec![])]);
    let mut values = ValueMap::new();
    values.insert("kind".to_string(), Value::Str("lib".to_string()));
    let merged = merge_conditionals(cfg, &values);
    assert_eq!(merged.template.ignores, vec!["bin-only/*".to_string()]);
}

#[test]
fn applied_fragments_append_in_declared_order() {
    let mut base = Config::new();
    base.template = TemplateCfg {
        inclusions: Vec::new(),
        exclusions: Vec::new(),
        ignores: vec!["base/*".to_string()],
        pre_hooks: Vec::new(),
        post_hooks: Vec::new(),
        version_req: None,
    };
    base.conditionals = vec![
        fragment("a", vec!["one/*"], vec![]),
        fragment("b", vec!["two/*"], vec![]),
    ];
    let merged = apply_conditionals(base, &vec![true, true]);
    assert_eq!(
        merged.template.ignores,
        vec!["base/*".to_string(), "one/*".to_string(), "two/*".to_string()]
    );
}

#[test]
fn fragment_placeholder_overwrites_by_name() {
    let slot = |name: &str, def: &str| TemplateSlots {
        var_name: name.to_string(),
        prompt: name.to_string(),
        var_info: VarInfo::String {
            entry: StringEntry {
                default: Some(def.to_string()),
                choices: None,
                regex: None,
            },
        },
    };
    let mut cfg = Config::new();
    cfg.placeholders = vec![slot("kind", "old"), slot("other", "keep")];
    cfg.conditionals = vec![ConditionalFragment {
        expr: "x".to_string(),
        inclusions: Vec::new(),
        exclusions: Vec::new(),
        ignores: Vec::new(),
        placeholders: vec![slot("kind", "new"), slot("added", "fresh")],
    }];
    let merged = apply_conditionals(cfg, &vec![true]);
    assert_eq!(merged.placeholders.len(), 3);
    assert_eq!(merged.placeholders[0].var_name.as_str(), "kind");
    match &merged.placeholders[0].var_info {
        VarInfo::String { entry } => assert_eq!(entry.default.as_deref(), Some("new")),
        _ => panic!("wrong kind"),
    }
    assert_eq!(merged.placeholders[2].var_name.as_str(), "added");
}

#[test]
fn merge_is_idempotent_within_one_pass() {
    let cfg = config_with(vec![fragment("is_wasm == true", vec![], vec!["native/*"])]);
    let mut values = ValueMap::new();
    values.insert("is_wasm".to_string(), Value::Bool(true));
    let merged = merge_conditionals(cfg, &values);
    let first_exclusions = merged.template.exclusions.clone();
    let first_ignores = merged.template.ignores.clone();
    let again = merge_conditionals(merged, &values);
    assert_eq!(again.template.exclusions, first_exclusions);
    assert_eq!(again.template.ignores, first_ignores);
}
