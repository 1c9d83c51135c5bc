use conag::aggregator::{format_output, get_language_identifier, output_file_name};

#[test]
fn test_format_output_text() {
    let contents = vec![
        ("file1.txt".to_string(), "Content of file 1".to_string()),
        ("file2.txt".to_string(), "Content of file 2".to_string()),
    ];

    let project_name = "Test Project";
    let result = format_output(project_name, &contents, false);

    assert!(result.contains("Project: Test Project"));
    assert!(result.contains("========================================"));
    assert!(result.contains("File: file1.txt"));
    assert!(result.contains("========================================"));
    assert!(result.contains("```text\nContent of file 1\n```"));
    assert!(result.contains("File: file2.txt"));
    assert!(result.contains("========================================"));
    assert!(result.contains("```text\nContent of file 2\n```"));
}

#[test]
fn test_format_output_markdown() {
    let contents = vec![
        ("file1.txt".to_string(), "Content of file 1".to_string()),
        ("file2.txt".to_string(), "Content of file 2".to_string()),
    ];

    let project_name = "Test Project";
    let result = format_output(project_name, &contents, true);

    assert!(result.contains("# Project: Test Project"));
    assert!(result.contains("## File: file1.txt"));
    assert!(result.contains("```text\nContent of file 1\n```"));
    assert!(result.contains("## File: file2.txt"));
    assert!(result.contains("```text\nContent of file 2\n```"));
}

#[test]
fn test_format_output_exact_markdown() {
    let contents = vec![("main.rs".to_string(), "fn main() {}".to_string())];
    let result = format_output("demo", &contents, true);
    assert_eq!(
        result,
        "# Project: demo\n\n## File: main.rs\n\n```rust\nfn main() {}\n```\n\n"
    );
}

#[test]
fn test_format_output_exact_plain() {
    let sep = "=".repeat(40);
    let contents = vec![("notes.md".to_string(), "hello".to_string())];
    let result = format_output("demo", &contents, false);
    assert_eq!(
        result,
        format!(
            "# Project: demo\n{}\n\n## File: notes.md\n{}\n```markdown\nhello\n```\n\n",
            sep, sep
        )
    );
}

#[test]
fn test_format_output_empty() {
    let contents: Vec<(String, String)> = vec![];
    let result = format_output("empty", &contents, true);
    assert_eq!(result, "# Project: empty\n\n");
}

#[test]
fn test_output_file_name() {
    assert_eq!(output_file_name("test_dir", true), "test_dir_conag_output.md");
    assert_eq!(output_file_name("test_dir", false), "test_dir_conag_output.txt");
}

#[test]
fn test_get_language_identifier() {
    assert_eq!(get_language_identifier("src/main.rs"), "rust");
    assert_eq!(get_language_identifier("app.py"), "python");
    assert_eq!(get_language_identifier("deep/dir/page.html"), "html");
    assert_eq!(get_language_identifier("conf.yml"), "yaml");
    assert_eq!(get_language_identifier("conf.yaml"), "yaml");
    assert_eq!(get_language_identifier("a.b.cpp"), "cpp");
    assert_eq!(get_language_identifier("build.makefile"), "makefile");
    assert_eq!(get_language_identifier("readme"), "text");
    assert_eq!(get_language_identifier(".gitignore"), "text");
    assert_eq!(get_language_identifier("archive.tar.gz"), "text");
    assert_eq!(get_language_identifier("dir.rs/readme"), "text");
    assert_eq!(get_language_identifier("script.PY"), "text");
}
