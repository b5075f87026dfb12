use cargo_generate::GenError;
use cargo_generate::locate::{auto_locate_template_dir, locate_template_file, path_within};
use cargo_generate::slots::VarInfo;

/// The directories that hold a `cargo-generate.toml`, from a list of files.
fn config_dirs(files: &[&str]) -> Vec<String> {
    let mut dirs: Vec<String> = Vec::new();
    for f in files {
        if let Some(dir) = f.strip_suffix("/cargo-generate.toml") {
            dirs.push(dir.to_string());
        }
    }
    dirs
}

#[test]
fn auto_locate_template_returns_base_when_no_cargo_generate_is_found() {
    let files = ["dir1/Cargo.toml", "dir2/dir2_1/Cargo.toml", "dir3/Cargo.toml"];
    let base = "test";
    let r = auto_locate_template_dir(base, config_dirs(&files), |_slots| {
        Err(GenError::ProjectNameMissing)
    })
    .unwrap();
    assert_eq!(base, r.as_str());
}

#[test]
fn auto_locate_template_returns_path_when_single_cargo_generate_is_found() {
    let files = [
        "dir1/Cargo.toml",
        "dir2/dir2_1/Cargo.toml",
        "dir2/dir2_2/cargo-generate.toml",
        "dir3/Cargo.toml",
    ];
    let base = "test";
    let r = auto_locate_template_dir(base, config_dirs(&files), |_slots| {
        Err(GenError::ProjectNameMissing)
    })
    .unwrap();
    assert_eq!("test/dir2/dir2_2", r.as_str());
}

#[test]
fn auto_locate_template_prompts_when_multiple_cargo_generate_is_found() {
    let files = [
        "dir1/Cargo.toml",
        "dir2/dir2_1/Cargo.toml",
        "dir2/dir2_2/cargo-generate.toml",
        "dir3/Cargo.toml",
        "dir4/cargo-generate.toml",
    ];
    let base = "test";
    let r = auto_locate_template_dir(base, config_dirs(&files), |slots| match &slots.var_info {
        VarInfo::Bool { .. } => panic!("Wrong prompt type"),
        VarInfo::String { entry } => {
            if let Some(mut choices) = entry.choices.clone() {
                choices.sort();
                let expected = vec!["dir2/dir2_2".to_string(), "dir4".to_string()];
                assert_eq!(expected, choices);
                Ok("my_path".to_string())
            } else {
                panic!("Missing choices")
            }
        }
    });
    assert_eq!("test/my_path", r.unwrap().as_str());
}

#[test]
fn locate_template_file_finds_nearest_upward() {
    let existing = vec![
        "base/cargo-generate.toml".to_string(),
        "base/sub/inner/other.txt".to_string(),
    ];
    let r = locate_template_file("cargo-generate.toml", "base", "base/sub/inner", &existing);
    assert_eq!(r.unwrap().as_str(), "base/cargo-generate.toml");
}

#[test]
fn locate_template_file_prefers_deeper_match() {
    let existing = vec![
        "base/cargo-generate.toml".to_string(),
        "base/sub/cargo-generate.toml".to_string(),
    ];
    let r = locate_template_file("cargo-generate.toml", "base", "base/sub", &existing);
    assert_eq!(r.unwrap().as_str(), "base/sub/cargo-generate.toml");
}

#[test]
fn locate_template_file_reports_missing_file() {
    let existing = vec!["base/Cargo.toml".to_string()];
    let r = locate_template_file("cargo-generate.toml", "base", "base/sub", &existing);
    assert!(matches!(r, Err(GenError::FileNotFoundInTemplate)));
}

#[test]
fn locate_template_file_stops_at_root() {
    let existing: Vec<String> = Vec::new();
    let r = locate_template_file("cargo-generate.toml", "unrelated", "lone", &existing);
    assert!(matches!(r, Err(GenError::ReachedRootFolder)));
}

#[test]
fn subfolder_containment_is_a_boundary_test() {
    assert!(path_within("/tmp/base", "/tmp/base"));
    assert!(path_within("/tmp/base", "/tmp/base/sub"));
    assert!(!path_within("/tmp/base", "/tmp/basement"));
    assert!(!path_within("/tmp/base", "/tmp"));
    assert!(!path_within("/tmp/base", "/etc/other"));
}

#[test]
fn locate_template_file_reaches_the_template_root() {
    // a configuration file at the template root is found from a subfolder
    let existing = vec![
        "cargo-generate.toml".to_string(),
        "sub/Cargo.toml".to_string(),
    ];
    let r = locate_template_file("cargo-generate.toml", "", "sub", &existing);
    assert_eq!(r.unwrap().as_str(), "cargo-generate.toml");
}
