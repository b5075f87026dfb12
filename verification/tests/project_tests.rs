use cargo_generate::GenError;
use cargo_generate::config::TemplateCfg;
use cargo_generate::project::{ProjectName, guard_project_dir, project_dir_of, resolve_project_name};
use cargo_generate::version::{check_cargo_generate_version, version_gate};
use cargo_generate::walker::{OutEntry, OutKind, check_no_collisions};

#[test]
fn project_name_forms() {
    let n = ProjectName::new("My_new app".to_string());
    assert_eq!(n.raw().as_str(), "My_new app");
    assert_eq!(n.kebab_case().as_str(), "My-new-app");
    assert_eq!(n.crate_name().as_str(), "My_new_app");
    assert!(!n.is_crate_name());
    assert!(ProjectName::new("plain-name".to_string()).is_crate_name());
}

#[test]
fn project_dir_respects_init_destination_and_force() {
    let n = ProjectName::new("demo_app".to_string());
    assert_eq!(project_dir_of("/cwd", &n, true, &None, false).as_str(), "/cwd");
    assert_eq!(
        project_dir_of("/cwd", &n, false, &None, false).as_str(),
        "/cwd/demo-app"
    );
    assert_eq!(
        project_dir_of("/cwd", &n, false, &Some("/dest".to_string()), false).as_str(),
        "/dest/demo-app"
    );
    assert_eq!(
        project_dir_of("/cwd", &n, false, &None, true).as_str(),
        "/cwd/demo_app"
    );
}

#[test]
fn existing_destination_directory_is_refused() {
    let e = guard_project_dir("out/demo".to_string(), true).unwrap_err();
    match e {
        GenError::DestinationExists { path } => assert_eq!(path.as_str(), "out/demo"),
        other => panic!("unexpected error: {:?}", other),
    }
    assert_eq!(guard_project_dir("out/demo".to_string(), false).unwrap().as_str(), "out/demo");
}

#[test]
fn project_name_resolution_follows_priority() {
    let given = resolve_project_name(&Some("named".to_string()), true, || {
        panic!("must not prompt")
    })
    .unwrap();
    assert_eq!(given.user_input.as_str(), "named");

    let silent = resolve_project_name(&None, true, || panic!("must not prompt"));
    assert!(matches!(silent, Err(GenError::ProjectNameMissing)));

    let prompted =
        resolve_project_name(&None, false, || Ok("asked".to_string())).unwrap();
    assert_eq!(prompted.user_input.as_str(), "asked");
}

#[test]
fn version_requirement_gates_the_run() {
    let mut cfg = TemplateCfg::new();
    assert!(check_cargo_generate_version(&cfg, "1.2.3").is_ok());

    cfg.version_req = Some(">=1.0.0".to_string());
    assert!(check_cargo_generate_version(&cfg, "1.2.3").is_ok());

    cfg.version_req = Some(">=2.0.0".to_string());
    let e = check_cargo_generate_version(&cfg, "1.2.3").unwrap_err();
    match e {
        GenError::VersionMismatch { required, actual } => {
            assert_eq!(required.as_str(), ">=2.0.0");
            assert_eq!(actual.as_str(), "1.2.3");
        }
        other => panic!("unexpected error: {:?}", other),
    }

    cfg.version_req = Some("not a requirement".to_string());
    assert!(matches!(
        check_cargo_generate_version(&cfg, "1.2.3"),
        Err(GenError::InvalidVersionReq)
    ));

    assert!(version_gate(true, "x", "y").is_ok());
    assert!(version_gate(false, "x", "y").is_err());
}

#[test]
fn destination_collisions_fail_the_dry_pass() {
    let out = vec![
        OutEntry {
            path: "src".to_string(),
            kind: OutKind::Dir,
        },
        OutEntry {
            path: "src/main.rs".to_string(),
            kind: OutKind::Text {
                content: "fn main() {}".to_string(),
            },
        },
    ];
    let clear = vec!["src".to_string()];
    assert!(check_no_collisions(&out, &clear).is_ok());

    let taken = vec!["src/main.rs".to_string()];
    let e = check_no_collisions(&out, &taken).unwrap_err();
    match e {
        GenError::FileExists { path } => assert_eq!(path.as_str(), "src/main.rs"),
        other => panic!("unexpected error: {:?}", other),
    }
}
