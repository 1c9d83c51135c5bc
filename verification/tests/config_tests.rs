use conag::config::{Config, ConfigError};

fn empty_config() -> Config {
    Config {
        input_dir: String::new(),
        output_dir: String::new(),
        ignore_patterns: vec![],
        project_type: None,
        project_specific_ignores: vec![],
        include_hidden_patterns: vec![],
        include_file_overrides: vec![],
        include_dir_overrides: vec![],
    }
}

#[test]
fn test_should_include_hidden() {
    let mut config = empty_config();
    config.include_hidden_patterns = vec![".gitignore".to_string(), ".env*".to_string()];

    assert!(config.should_include_hidden(".gitignore"));
    assert!(config.should_include_hidden(".env"));
    assert!(config.should_include_hidden(".env.local"));
    assert!(!config.should_include_hidden(".git"));
    assert!(!config.should_include_hidden("normal_file.txt"));
}

#[test]
fn test_get_ignore_patterns_includes_hidden_files() {
    let mut config = empty_config();
    config.ignore_patterns = vec!["*.tmp".to_string()];

    let patterns = config.get_ignore_patterns();
    assert!(patterns.contains(&"*.tmp".to_string()));
    assert!(patterns.contains(&".*".to_string()));
}

#[test]
fn test_get_ignore_patterns_with_project_type() {
    let mut config = empty_config();
    config.ignore_patterns = vec!["*.log".to_string()];
    config.project_type = Some("rust".to_string());
    config.project_specific_ignores = vec![
        ("rust".to_string(), vec!["target/*".to_string(), "Cargo.lock".to_string()]),
        ("python".to_string(), vec!["__pycache__/*".to_string()]),
    ];

    let patterns = config.get_ignore_patterns();
    assert_eq!(
        patterns,
        vec![
            "*.log".to_string(),
            "target/*".to_string(),
            "Cargo.lock".to_string(),
            ".*".to_string(),
        ]
    );
}

#[test]
fn test_get_ignore_patterns_no_catch_all_when_included() {
    let mut config = empty_config();
    config.ignore_patterns = vec!["*.tmp".to_string()];
    config.include_hidden_patterns = vec![".*".to_string()];

    let patterns = config.get_ignore_patterns();
    assert_eq!(patterns, vec!["*.tmp".to_string()]);
}

#[test]
fn test_resolve_output_dir() {
    let resolved =
        Config::resolve_output_dir_with("{DESKTOP}/conag_output", Some("/home/user/Desktop"))
            .unwrap();
    assert!(resolved.contains("conag_output"));
    assert!(!resolved.contains("{DESKTOP}"));
    assert_eq!(resolved, "/home/user/Desktop/conag_output");
}

#[test]
fn test_resolve_output_dir_without_placeholder() {
    let resolved = Config::resolve_output_dir_with("/plain/output", Some("/home/user/Desktop"))
        .unwrap();
    assert_eq!(resolved, "/plain/output");

    let resolved_no_desktop = Config::resolve_output_dir_with("/plain/output", None).unwrap();
    assert_eq!(resolved_no_desktop, "/plain/output");
}

#[test]
fn test_resolve_output_dir_missing_desktop() {
    let result = Config::resolve_output_dir_with("{DESKTOP}/conag_output", None);
    assert_eq!(result, Err(ConfigError::DesktopDirUnavailable));
}

#[test]
fn test_default_config_path() {
    let home = "/tmp/conag_test_home";
    let expected = "/tmp/conag_test_home/.config/conag/config.toml";
    let actual = Config::default_config_path_with_home(Some(home)).unwrap();
    assert_eq!(actual, expected);
}

#[test]
fn test_with_output_dir() {
    let config = empty_config();
    let updated = config.with_output_dir("/somewhere/else".to_string());
    assert_eq!(updated.output_dir, "/somewhere/else");
}

#[test]
fn test_with_cli_overrides() {
    let cli = conag::config::Cli {
        config: None,
        generate_config: false,
        include_hidden: None,
        plain_text: false,
        include_file: Some(vec!["secret.txt".to_string()]),
        include_dir: Some(vec!["vendor".to_string()]),
    };
    let config = empty_config().with_cli_overrides(&cli);
    assert_eq!(config.include_file_overrides, vec!["secret.txt".to_string()]);
    assert_eq!(config.include_dir_overrides, vec!["vendor".to_string()]);

    let cli_empty = conag::config::Cli {
        config: None,
        generate_config: false,
        include_hidden: None,
        plain_text: false,
        include_file: None,
        include_dir: None,
    };
    let mut base = empty_config();
    base.include_file_overrides = vec!["kept.txt".to_string()];
    let unchanged = base.with_cli_overrides(&cli_empty);
    assert_eq!(unchanged.include_file_overrides, vec!["kept.txt".to_string()]);
    assert_eq!(unchanged.include_dir_overrides, Vec::<String>::new());
}

#[test]
fn test_default_input_dir() {
    assert_eq!(conag::config::default_input_dir(), ".");
}
