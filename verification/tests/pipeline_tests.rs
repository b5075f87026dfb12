use cargo_generate::GenError;
use cargo_generate::config::{Config, ConditionalFragment};
use cargo_generate::pipeline::run_generation;
use cargo_generate::project::ProjectName;
use cargo_generate::slots::{StringEntry, TemplateSlots, VarInfo};
use cargo_generate::values::{PlainValue, Value};
use cargo_generate::walker::{EntryKind, OutEntry, OutKind, SrcEntry};

fn no_prompt(_slot: &TemplateSlots) -> Result<Value, GenError> {
    Err(GenError::PromptAborted)
}

fn text_entry(path: &str, content: &str) -> SrcEntry {
    SrcEntry {
        path: path.to_string(),
        kind: EntryKind::Text {
            content: content.to_string(),
        },
    }
}

fn out_paths(out: &[OutEntry]) -> Vec<&str> {
    out.iter().map(|e| e.path.as_str()).collect()
}

fn out_content<'a>(out: &'a [OutEntry], path: &str) -> &'a str {
    for e in out {
        if e.path == path {
            if let OutKind::Text { content } = &e.kind {
                return content.as_str();
            }
        }
    }
    panic!("no text entry at {}", path);
}

#[test]
fn bare_template_substitutes_the_project_name() {
    let entries = vec![text_entry("Cargo.toml", "name = \"{{project-name}}\"")];
    let out = run_generation(
        entries,
        Config::new(),
        &Vec::new(),
        &ProjectName::new("foobar".to_string()),
        "1.0.0",
        true,
        false,
        false,
        no_prompt,
    )
    .unwrap();
    assert_eq!(out_paths(&out), vec!["Cargo.toml"]);
    assert_eq!(out_content(&out, "Cargo.toml"), "name = \"foobar\"");
}

#[test]
fn ignored_configuration_file_is_absent_from_the_output() {
    let entries = vec![
        text_entry("Cargo.toml", "name = \"x\""),
        text_entry("cargo-generate.toml", "[template]"),
    ];
    let mut cfg = Config::new();
    cfg.template.ignores = vec!["cargo-generate.toml".to_string()];
    let out = run_generation(
        entries,
        cfg,
        &Vec::new(),
        &ProjectName::new("demo".to_string()),
        "1.0.0",
        true,
        false,
        false,
        no_prompt,
    )
    .unwrap();
    assert_eq!(out_paths(&out), vec!["Cargo.toml"]);
}

#[test]
fn silent_mode_without_value_fails_naming_the_placeholder() {
    let entries = vec![text_entry("Cargo.toml", "name = \"x\"")];
    let mut cfg = Config::new();
    cfg.placeholders = vec![TemplateSlots {
        var_name: "missing_one".to_string(),
        prompt: "value?".to_string(),
        var_info: VarInfo::String {
            entry: StringEntry {
                default: None,
                choices: None,
                regex: None,
            },
        },
    }];
    let e = run_generation(
        entries,
        cfg,
        &Vec::new(),
        &ProjectName::new("demo".to_string()),
        "1.0.0",
        true,
        false,
        false,
        no_prompt,
    )
    .unwrap_err();
    match e {
        GenError::MissingPlaceholderVariable { var_name } => {
            assert_eq!(var_name.as_str(), "missing_one")
        }
        other => panic!("unexpected error: {:?}", other),
    }
}

#[test]
fn existing_destination_fails_before_anything_else() {
    let entries = vec![text_entry("Cargo.toml", "name = \"x\"")];
    let e = run_generation(
        entries,
        Config::new(),
        &Vec::new(),
        &ProjectName::new("demo".to_string()),
        "1.0.0",
        true,
        false,
        true,
        no_prompt,
    )
    .unwrap_err();
    assert!(matches!(e, GenError::DestinationExists { .. }));
}

#[test]
fn resolved_conditional_drops_matching_files() {
    let entries = vec![
        text_entry("Cargo.toml", "name = \"x\""),
        text_entry("native/build.rs", "fn main() {}"),
    ];
    let mut cfg = Config::new();
    cfg.placeholders = vec![TemplateSlots {
        var_name: "is_wasm".to_string(),
        prompt: "wasm?".to_string(),
        var_info: VarInfo::Bool { default: None },
    }];
    cfg.conditionals = vec![ConditionalFragment {
        expr: "is_wasm == true".to_string(),
        inclusions: Vec::new(),
        exclusions: Vec::new(),
        ignores: vec!["native/**".to_string()],
        placeholders: Vec::new(),
    }];
    let provided = vec![("is_wasm".to_string(), PlainValue::Bool(true))];
    let out = run_generation(
        entries,
        cfg,
        &provided,
        &ProjectName::new("demo".to_string()),
        "1.0.0",
        true,
        false,
        false,
        no_prompt,
    )
    .unwrap();
    assert_eq!(out_paths(&out), vec!["Cargo.toml"]);
}

#[test]
fn conditional_exclusion_keeps_the_file_unrendered() {
    let entries = vec![text_entry("native/raw.txt", "{{project-name}}")];
    let mut cfg = Config::new();
    cfg.placeholders = vec![TemplateSlots {
        var_name: "is_wasm".to_string(),
        prompt: "wasm?".to_string(),
        var_info: VarInfo::Bool { default: None },
    }];
    cfg.conditionals = vec![ConditionalFragment {
        expr: "is_wasm == true".to_string(),
        inclusions: Vec::new(),
        exclusions: vec!["native/**".to_string()],
        ignores: Vec::new(),
        placeholders: Vec::new(),
    }];
    let provided = vec![("is_wasm".to_string(), PlainValue::Bool(true))];
    let out = run_generation(
        entries,
        cfg,
        &provided,
        &ProjectName::new("demo".to_string()),
        "1.0.0",
        true,
        false,
        false,
        no_prompt,
    )
    .unwrap();
    // excluded from the render set: present, contents untouched
    assert_eq!(out_content(&out, "native/raw.txt"), "{{project-name}}");
}

#[test]
fn template_suffix_is_stripped_from_rendered_names() {
    let entries = vec![text_entry("main.rs.liquid", "// {{project-name}}")];
    let out = run_generation(
        entries,
        Config::new(),
        &Vec::new(),
        &ProjectName::new("demo".to_string()),
        "1.0.0",
        true,
        false,
        false,
        no_prompt,
    )
    .unwrap();
    assert_eq!(out_paths(&out), vec!["main.rs"]);
    assert_eq!(out_content(&out, "main.rs"), "// demo");
}

#[test]
fn vcs_metadata_and_symlinks_are_handled() {
    let entries = vec![
        SrcEntry {
            path: ".git/config".to_string(),
            kind: EntryKind::Text {
                content: "[core]".to_string(),
            },
        },
        text_entry("Cargo.toml", "name = \"x\""),
    ];
    let out = run_generation(
        entries,
        Config::new(),
        &Vec::new(),
        &ProjectName::new("demo".to_string()),
        "1.0.0",
        true,
        false,
        false,
        no_prompt,
    )
    .unwrap();
    assert_eq!(out_paths(&out), vec!["Cargo.toml"]);

    let bad = vec![SrcEntry {
        path: "link".to_string(),
        kind: EntryKind::Symlink,
    }];
    let e = run_generation(
        bad,
        Config::new(),
        &Vec::new(),
        &ProjectName::new("demo".to_string()),
        "1.0.0",
        true,
        false,
        false,
        no_prompt,
    )
    .unwrap_err();
    assert!(matches!(e, GenError::SymlinkUnsupported { .. }));
}

#[test]
fn declared_hooks_are_refused_without_the_capability_in_silent_mode() {
    let entries = vec![text_entry("Cargo.toml", "name = \"x\"")];
    let mut cfg = Config::new();
    cfg.template.pre_hooks = vec!["pre.rhai".to_string()];
    let e = run_generation(
        entries,
        cfg,
        &Vec::new(),
        &ProjectName::new("demo".to_string()),
        "1.0.0",
        true,
        false,
        false,
        no_prompt,
    )
    .unwrap_err();
    assert!(matches!(e, GenError::HooksNotAllowed));
}

#[test]
fn hook_sources_never_reach_the_output() {
    let entries = vec![
        text_entry("Cargo.toml", "name = \"x\""),
        text_entry("pre.rhai", "// setup"),
    ];
    let mut cfg = Config::new();
    cfg.template.pre_hooks = vec!["pre.rhai".to_string()];
    let out = run_generation(
        entries,
        cfg,
        &Vec::new(),
        &ProjectName::new("demo".to_string()),
        "1.0.0",
        true,
        true,
        false,
        no_prompt,
    )
    .unwrap();
    assert_eq!(out_paths(&out), vec!["Cargo.toml"]);
}

#[test]
fn merged_placeholder_is_resolved_after_the_pass() {
    let entries = vec![text_entry("src/extra.txt", "{{extra}}")];
    let mut cfg = Config::new();
    cfg.placeholders = vec![TemplateSlots {
        var_name: "is_wasm".to_string(),
        prompt: "wasm?".to_string(),
        var_info: VarInfo::Bool { default: None },
    }];
    cfg.conditionals = vec![ConditionalFragment {
        expr: "is_wasm == true".to_string(),
        inclusions: Vec::new(),
        exclusions: Vec::new(),
        ignores: Vec::new(),
        placeholders: vec![TemplateSlots {
            var_name: "extra".to_string(),
            prompt: "extra?".to_string(),
            var_info: VarInfo::String {
                entry: StringEntry {
                    default: None,
                    choices: None,
                    regex: None,
                },
            },
        }],
    }];
    let provided = vec![
        ("is_wasm".to_string(), PlainValue::Bool(true)),
        ("extra".to_string(), PlainValue::Str("filled".to_string())),
    ];
    let out = run_generation(
        entries,
        cfg,
        &provided,
        &ProjectName::new("demo".to_string()),
        "1.0.0",
        true,
        false,
        false,
        no_prompt,
    )
    .unwrap();
    assert_eq!(out_content(&out, "src/extra.txt"), "filled");
}

#[test]
fn merged_placeholder_missing_in_silent_mode_fails_by_name() {
    let entries = vec![text_entry("Cargo.toml", "name = \"x\"")];
    let mut cfg = Config::new();
    cfg.placeholders = vec![TemplateSlots {
        var_name: "is_wasm".to_string(),
        prompt: "wasm?".to_string(),
        var_info: VarInfo::Bool { default: None },
    }];
    cfg.conditionals = vec![ConditionalFragment {
        expr: "is_wasm == true".to_string(),
        inclusions: Vec::new(),
        exclusions: Vec::new(),
        ignores: Vec::new(),
        placeholders: vec![TemplateSlots {
            var_name: "late_one".to_string(),
            prompt: "late?".to_string(),
            var_info: VarInfo::String {
                entry: StringEntry {
                    default: None,
                    choices: None,
                    regex: None,
                },
            },
        }],
    }];
    let provided = vec![("is_wasm".to_string(), PlainValue::Bool(true))];
    let e = run_generation(
        entries,
        cfg,
        &provided,
        &ProjectName::new("demo".to_string()),
        "1.0.0",
        true,
        false,
        false,
        no_prompt,
    )
    .unwrap_err();
    match e {
        GenError::MissingPlaceholderVariable { var_name } => {
            assert_eq!(var_name.as_str(), "late_one")
        }
        other => panic!("unexpected error: {:?}", other),
    }
}

#[test]
fn provided_placeholder_value_reaches_the_contents() {
    let entries = vec![text_entry("greeting.txt", "{{greeting}}!")];
    let mut cfg = Config::new();
    cfg.placeholders = vec![TemplateSlots {
        var_name: "greeting".to_string(),
        prompt: "greeting?".to_string(),
        var_info: VarInfo::String {
            entry: StringEntry {
                default: None,
                choices: None,
                regex: None,
            },
        },
    }];
    let provided = vec![("greeting".to_string(), PlainValue::Str("hi".to_string()))];
    let out = run_generation(
        entries,
        cfg,
        &provided,
        &ProjectName::new("demo".to_string()),
        "1.0.0",
        true,
        false,
        false,
        no_prompt,
    )
    .unwrap();
    assert_eq!(out_content(&out, "greeting.txt"), "hi!");
}

#[test]
fn interactive_run_prompts_for_missing_placeholders() {
    let entries = vec![text_entry("greeting.txt", "{{greeting}}!")];
    let mut cfg = Config::new();
    cfg.placeholders = vec![TemplateSlots {
        var_name: "greeting".to_string(),
        prompt: "greeting?".to_string(),
        var_info: VarInfo::String {
            entry: StringEntry {
                default: None,
                choices: None,
                regex: None,
            },
        },
    }];
    let out = run_generation(
        entries,
        cfg,
        &Vec::new(),
        &ProjectName::new("demo".to_string()),
        "1.0.0",
        false,
        false,
        false,
        |slot: &TemplateSlots| {
            assert_eq!(slot.var_name.as_str(), "greeting");
            Ok(Value::Str("hello".to_string()))
        },
    )
    .unwrap();
    assert_eq!(out_content(&out, "greeting.txt"), "hello!");
}

#[test]
fn aborted_prompt_fails_the_run() {
    let entries = vec![text_entry("greeting.txt", "{{greeting}}!")];
    let mut cfg = Config::new();
    cfg.placeholders = vec![TemplateSlots {
        var_name: "greeting".to_string(),
        prompt: "greeting?".to_string(),
        var_info: VarInfo::String {
            entry: StringEntry {
                default: None,
                choices: None,
                regex: None,
            },
        },
    }];
    let e = run_generation(
        entries,
        cfg,
        &Vec::new(),
        &ProjectName::new("demo".to_string()),
        "1.0.0",
        false,
        false,
        false,
        no_prompt,
    )
    .unwrap_err();
    assert!(matches!(e, GenError::PromptAborted));
}

#[test]
fn invalid_prompt_answer_counts_as_aborted() {
    let entries = vec![text_entry("greeting.txt", "{{greeting}}!")];
    let mut cfg = Config::new();
    cfg.placeholders = vec![TemplateSlots {
        var_name: "greeting".to_string(),
        prompt: "greeting?".to_string(),
        var_info: VarInfo::String {
            entry: StringEntry {
                default: None,
                choices: None,
                regex: Some("^[a-z]+$".to_string()),
            },
        },
    }];
    let e = run_generation(
        entries,
        cfg,
        &Vec::new(),
        &ProjectName::new("demo".to_string()),
        "1.0.0",
        false,
        false,
        false,
        |_slot: &TemplateSlots| Ok(Value::Str("NOT VALID".to_string())),
    )
    .unwrap_err();
    assert!(matches!(e, GenError::PromptAborted));
}

#[test]
fn directory_names_keep_the_template_suffix() {
    let entries = vec![
        SrcEntry {
            path: "assets.liquid".to_string(),
            kind: EntryKind::Dir,
        },
        text_entry("assets.liquid/main.rs.liquid", "// {{project-name}}"),
    ];
    let out = run_generation(
        entries,
        Config::new(),
        &Vec::new(),
        &ProjectName::new("demo".to_string()),
        "1.0.0",
        true,
        false,
        false,
        no_prompt,
    )
    .unwrap();
    assert_eq!(out_paths(&out), vec!["assets.liquid", "assets.liquid/main.rs"]);
}

#[test]
fn rendered_name_landing_on_a_hook_path_is_suppressed() {
    // the cleanup deletes anything at a hook path, so nothing may land there
    let entries = vec![
        text_entry("Cargo.toml", "name = \"x\""),
        text_entry("pre.rhai.liquid", "// rendered to a hook path"),
    ];
    let mut cfg = Config::new();
    cfg.template.pre_hooks = vec!["pre.rhai".to_string()];
    let out = run_generation(
        entries,
        cfg,
        &Vec::new(),
        &ProjectName::new("demo".to_string()),
        "1.0.0",
        true,
        true,
        false,
        no_prompt,
    )
    .unwrap();
    assert_eq!(out_paths(&out), vec!["Cargo.toml"]);
}
