use cargo_generate::GenError;
use cargo_generate::resolver::resolve_project_variables;
use cargo_generate::slots::{StringEntry, TemplateSlots, VarInfo};
use cargo_generate::values::{Value, ValueMap};

fn plain_slot(name: &str, default: Option<&str>) -> TemplateSlots {
    TemplateSlots {
        var_name: name.to_string(),
        prompt: format!("{}?", name),
        var_info: VarInfo::String {
            entry: StringEntry {
                default: default.map(|d| d.to_string()),
                choices: None,
                regex: None,
            },
        },
    }
}

#[test]
fn already_resolved_slot_is_never_prompted() {
    let mut values = ValueMap::new();
    values.insert("name".to_string(), Value::Str("kept".to_string()));
    let slots = vec![plain_slot("name", None), plain_slot("fresh", None)];
    let provided = ValueMap::new();
    let prompts = resolve_project_variables(&mut values, &slots, &provided, false).unwrap();
    // only the unresolved slot is listed for the prompt collaborator
    assert_eq!(prompts, vec![1]);
    assert_eq!(values.get("name"), Some(&Value::Str("kept".to_string())));
}

#[test]
fn provided_value_resolves_without_prompt() {
    let mut values = ValueMap::new();
    let slots = vec![plain_slot("author", None)];
    let mut provided = ValueMap::new();
    provided.insert("author".to_string(), Value::Str("ada".to_string()));
    let prompts = resolve_project_variables(&mut values, &slots, &provided, true).unwrap();
    assert!(prompts.is_empty());
    assert_eq!(values.get("author"), Some(&Value::Str("ada".to_string())));
}

#[test]
fn silent_mode_fails_naming_the_missing_slot() {
    let mut values = ValueMap::new();
    let slots = vec![plain_slot("token", None)];
    let provided = ValueMap::new();
    let e = resolve_project_variables(&mut values, &slots, &provided, true).unwrap_err();
    match e {
        GenError::MissingPlaceholderVariable { var_name } => {
            assert_eq!(var_name.as_str(), "token")
        }
        other => panic!("unexpected error: {:?}", other),
    }
}

#[test]
fn silent_mode_fails_even_with_a_default() {
    let mut values = ValueMap::new();
    let slots = vec![plain_slot("styled", Some("fallback"))];
    let provided = ValueMap::new();
    let e = resolve_project_variables(&mut values, &slots, &provided, true).unwrap_err();
    assert!(matches!(e, GenError::MissingPlaceholderVariable { .. }));
}
