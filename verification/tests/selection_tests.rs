use std::collections::BTreeSet;

use conag::config::{Config, ConfigError};
use conag::ignore_rules::{apply_ignore_rules, candidate_included, IgnoreRules};

fn config_with(
    ignore_patterns: Vec<&str>,
    project_type: Option<&str>,
    project_specific_ignores: Vec<(&str, Vec<&str>)>,
    include_hidden_patterns: Vec<&str>,
) -> Config {
    Config {
        input_dir: ".".to_string(),
        output_dir: "out".to_string(),
        ignore_patterns: ignore_patterns.iter().map(|s| s.to_string()).collect(),
        project_type: project_type.map(|s| s.to_string()),
        project_specific_ignores: project_specific_ignores
            .iter()
            .map(|(k, v)| (k.to_string(), v.iter().map(|s| s.to_string()).collect()))
            .collect(),
        include_hidden_patterns: include_hidden_patterns.iter().map(|s| s.to_string()).collect(),
        include_file_overrides: vec![],
        include_dir_overrides: vec![],
    }
}

fn strings(items: Vec<&str>) -> Vec<String> {
    items.iter().map(|s| s.to_string()).collect()
}

#[test]
fn test_extension_ignore_scenario() {
    let rules = IgnoreRules::new(&config_with(vec!["*.tmp"], None, vec![], vec![])).unwrap();
    let files = strings(vec!["a.txt", "b.tmp"]);
    let result = apply_ignore_rules(&rules, &files, &vec![], &vec![]);
    assert_eq!(result, strings(vec!["a.txt"]));
}

#[test]
fn test_include_hidden_scenario() {
    let rules = IgnoreRules::new(&config_with(vec![], None, vec![], vec![".env"])).unwrap();
    let files = strings(vec![".env", ".secret", "visible.txt"]);
    let result = apply_ignore_rules(&rules, &files, &vec![], &vec![]);
    assert_eq!(result, strings(vec![".env", "visible.txt"]));
}

#[test]
fn test_directory_ignore_scenario() {
    let rules = IgnoreRules::new(&config_with(vec!["temp/*"], None, vec![], vec![])).unwrap();
    let files = strings(vec!["temp/x.txt", "keep.txt"]);
    let result = apply_ignore_rules(&rules, &files, &vec![], &vec![]);
    assert_eq!(result, strings(vec!["keep.txt"]));
}

#[test]
fn test_directory_override_scenario() {
    let rules =
        IgnoreRules::new(&config_with(vec!["temp/*", "*.log"], None, vec![], vec![])).unwrap();
    let files = strings(vec!["temp/a.txt", "temp/b.log", "keep.txt"]);
    let dir_overrides = strings(vec!["temp"]);
    let result = apply_ignore_rules(&rules, &files, &vec![], &dir_overrides);
    assert_eq!(result, strings(vec!["temp/a.txt", "keep.txt"]));
}

#[test]
fn test_file_override_scenario() {
    let rules = IgnoreRules::new(&config_with(vec!["*.txt"], None, vec![], vec![])).unwrap();
    let files = strings(vec!["secret.txt", "other.txt"]);
    let file_overrides = strings(vec!["secret.txt"]);
    let result = apply_ignore_rules(&rules, &files, &file_overrides, &vec![]);
    assert_eq!(result, strings(vec!["secret.txt"]));
}

#[test]
fn test_project_type_scenario() {
    let rules = IgnoreRules::new(&config_with(
        vec![],
        Some("rust"),
        vec![("rust", vec!["target/*"])],
        vec![],
    ))
    .unwrap();
    let files = strings(vec!["src/main.rs", "target/debug/bin"]);
    let result = apply_ignore_rules(&rules, &files, &vec![], &vec![]);
    assert_eq!(result, strings(vec!["src/main.rs"]));
}

#[test]
fn test_selection_idempotent() {
    let rules = IgnoreRules::new(&config_with(
        vec!["*.log", "build/*"],
        None,
        vec![],
        vec![".env*"],
    ))
    .unwrap();
    let files = strings(vec![
        "src/lib.rs",
        "build/out.bin",
        "run.log",
        ".env",
        ".env.local",
        ".hidden",
        "docs/guide.md",
    ]);
    let file_overrides = strings(vec!["run.log"]);
    let dir_overrides = strings(vec!["build"]);

    let once = apply_ignore_rules(&rules, &files, &file_overrides, &dir_overrides);
    let again = apply_ignore_rules(&rules, &files, &file_overrides, &dir_overrides);
    assert_eq!(once, again);

    let twice = apply_ignore_rules(&rules, &once, &file_overrides, &dir_overrides);
    assert_eq!(twice, once);
}

#[test]
fn test_selection_order_independent() {
    let rules =
        IgnoreRules::new(&config_with(vec!["*.tmp", "cache/*"], None, vec![], vec![])).unwrap();
    let forward = strings(vec!["a.txt", "b.tmp", "cache/c.txt", "d.md", ".e"]);
    let mut backward = forward.clone();
    backward.reverse();

    let from_forward: BTreeSet<String> =
        apply_ignore_rules(&rules, &forward, &vec![], &vec![]).into_iter().collect();
    let from_backward: BTreeSet<String> =
        apply_ignore_rules(&rules, &backward, &vec![], &vec![]).into_iter().collect();
    assert_eq!(from_forward, from_backward);
}

#[test]
fn test_hidden_file_in_subdirectory() {
    let rules = IgnoreRules::new(&config_with(vec![], None, vec![], vec![".secret"])).unwrap();
    let files = strings(vec!["sub/.secret", "sub/.other", "sub/plain.txt"]);
    let result = apply_ignore_rules(&rules, &files, &vec![], &vec![]);
    assert_eq!(result, strings(vec!["sub/.secret", "sub/plain.txt"]));
}

#[test]
fn test_directory_override_needs_whole_segment() {
    let rules =
        IgnoreRules::new(&config_with(vec!["included_dir_other/*"], None, vec![], vec![]))
            .unwrap();
    let files = strings(vec!["included_dir_other/file.txt"]);
    let dir_overrides = strings(vec!["included_dir"]);
    let result = apply_ignore_rules(&rules, &files, &vec![], &dir_overrides);
    assert_eq!(result, Vec::<String>::new());
}

#[test]
fn test_candidate_included_decision() {
    let rules = IgnoreRules::new(&config_with(vec!["*.log"], None, vec![], vec![])).unwrap();
    assert!(candidate_included(&rules, "notes.txt", &vec![], &vec![]));
    assert!(!candidate_included(&rules, "app.log", &vec![], &vec![]));
    assert!(!candidate_included(&rules, ".bashrc", &vec![], &vec![]));
    assert!(candidate_included(
        &rules,
        "app.log",
        &strings(vec!["app.log"]),
        &vec![]
    ));
}

#[test]
fn test_empty_candidates() {
    let rules = IgnoreRules::new(&config_with(vec!["*.tmp"], None, vec![], vec![])).unwrap();
    let result = apply_ignore_rules(&rules, &vec![], &vec![], &vec![]);
    assert_eq!(result, Vec::<String>::new());
}

#[test]
fn test_invalid_ignore_pattern_rejected() {
    let err = IgnoreRules::new(&config_with(vec!["a[", "*.tmp"], None, vec![], vec![]))
        .err()
        .unwrap();
    assert_eq!(err, ConfigError::InvalidPattern("a[".to_string()));
}

#[test]
fn test_invalid_include_hidden_pattern_rejected() {
    let err = IgnoreRules::new(&config_with(vec!["*.tmp"], None, vec![], vec!["***"]))
        .err()
        .unwrap();
    assert_eq!(err, ConfigError::InvalidPattern("***".to_string()));
}
