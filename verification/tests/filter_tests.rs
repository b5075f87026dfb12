use cargo_generate::filter::{PathClass, classify_path, glob_matches, matches_any};

#[test]
fn glob_literal_matches_itself() {
    assert!(glob_matches("Cargo.toml", "Cargo.toml"));
    assert!(!glob_matches("Cargo.toml", "Cargo.lock"));
}

#[test]
fn glob_star_stays_within_a_segment() {
    assert!(glob_matches("*.txt", "notes.txt"));
    assert!(!glob_matches("*.txt", "dir/notes.txt"));
    assert!(glob_matches("src/*.rs", "src/main.rs"));
    assert!(!glob_matches("src/*.rs", "src/bin/main.rs"));
}

#[test]
fn glob_question_mark_matches_one_character() {
    assert!(glob_matches("a?c", "abc"));
    assert!(!glob_matches("a?c", "ac"));
    assert!(!glob_matches("a?c", "a/c"));
}

#[test]
fn glob_double_star_crosses_separators() {
    assert!(glob_matches("**", "a/b/c.txt"));
    assert!(glob_matches("docs/**", "docs/guide/ch1.md"));
    assert!(glob_matches("**/*.rs", "src/bin/main.rs"));
    assert!(!glob_matches("docs/**", "src/lib.rs"));
}

#[test]
fn matches_any_finds_a_hit_in_the_list() {
    let pats = vec!["*.tmp".to_string(), "build/**".to_string()];
    assert!(matches_any(&pats, "build/out/a.o"));
    assert!(!matches_any(&pats, "src/lib.rs"));
}

#[test]
fn ignore_beats_inclusion_and_exclusion() {
    let inclusions = vec!["**".to_string()];
    let exclusions: Vec<String> = Vec::new();
    let ignores = vec!["cargo-generate.toml".to_string()];
    let r = classify_path(&inclusions, &exclusions, &ignores, "cargo-generate.toml");
    assert_eq!(r, PathClass::Deleted);
}

#[test]
fn ignore_beats_exclusion_too() {
    let inclusions: Vec<String> = Vec::new();
    let exclusions = vec!["secret/**".to_string()];
    let ignores = vec!["secret/**".to_string()];
    let r = classify_path(&inclusions, &exclusions, &ignores, "secret/key.pem");
    assert_eq!(r, PathClass::Deleted);
}

#[test]
fn inclusion_list_restricts_rendering() {
    let inclusions = vec!["src/**".to_string()];
    let exclusions: Vec<String> = Vec::new();
    let ignores: Vec<String> = Vec::new();
    assert_eq!(classify_path(&inclusions, &exclusions, &ignores, "src/lib.rs"), PathClass::Rendered);
    assert_eq!(classify_path(&inclusions, &exclusions, &ignores, "README.md"), PathClass::Raw);
}

#[test]
fn exclusion_removes_from_render_set() {
    let inclusions: Vec<String> = Vec::new();
    let exclusions = vec!["assets/**".to_string()];
    let ignores: Vec<String> = Vec::new();
    assert_eq!(classify_path(&inclusions, &exclusions, &ignores, "assets/logo.png"), PathClass::Raw);
    assert_eq!(classify_path(&inclusions, &exclusions, &ignores, "main.rs"), PathClass::Rendered);
}
