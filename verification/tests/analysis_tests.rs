use rust_ai_tool::analysis::add_matching_issues;
use rust_ai_tool::analysis::analyze_file;
use rust_ai_tool::analysis::analyze_project;
use rust_ai_tool::analysis::analyze_syntax;
use rust_ai_tool::analysis::analyze_tauri_compatibility;
use rust_ai_tool::analysis::apply_custom_rule;
use rust_ai_tool::analysis::offset_to_line_column;
use rust_ai_tool::analysis::CodeIssue;
use rust_ai_tool::analysis::IssueCategory;
use rust_ai_tool::analysis::SourceText;
use rust_ai_tool::extract::count_function_calls;
use rust_ai_tool::extract::count_sensitive_unwraps;
use rust_ai_tool::extract::count_unsafe_blocks;
use rust_ai_tool::extract::extract_cfg_attributes;
use rust_ai_tool::extract::extract_features;
use rust_ai_tool::extract::extract_invoke_handlers;
use rust_ai_tool::extract::extract_modules;
use rust_ai_tool::extract::extract_tauri_commands;
use rust_ai_tool::analysis::CodeFix;
use rust_ai_tool::report::format_analysis_results_console;
use rust_ai_tool::report::format_analysis_results_markdown;
use rust_ai_tool::progress::create_progress_display;
use rust_ai_tool::progress::create_terminal_ui;
use rust_ai_tool::text::usize_to_string;
use rust_ai_tool::AnalysisOptions;
use rust_ai_tool::CustomRule;
use rust_ai_tool::RustAiToolError;
use rust_ai_tool::Severity;

fn options_with_rules(rules: Vec<CustomRule>) -> AnalysisOptions {
    AnalysisOptions {
        run_clippy: false,
        use_rust_analyzer: true,
        custom_rules: rules,
    }
}

#[test]
fn test_offset_to_line_column() {
    let text = "ab\ncd\ne";
    assert_eq!(offset_to_line_column(text, 0), (1, 1));
    assert_eq!(offset_to_line_column(text, 1), (1, 2));
    assert_eq!(offset_to_line_column(text, 3), (2, 1));
    assert_eq!(offset_to_line_column(text, 4), (2, 2));
    assert_eq!(offset_to_line_column(text, 6), (3, 1));
    // Past the end: the position of the end.
    assert_eq!(offset_to_line_column(text, 100), (3, 2));
}

#[test]
fn test_analyze_syntax_reports_error_nodes() {
    let issues = analyze_syntax("fn main( {", "bad.rs").unwrap();
    assert!(issues.len() >= 1);
    assert!(matches!(issues[0].category, IssueCategory::Syntax));
    assert_eq!(issues[0].severity, Severity::Error);
    assert_eq!(issues[0].message, "Syntax error");
    assert_eq!(issues[0].file_path, "bad.rs");

    let clean = analyze_syntax("fn main() {}", "good.rs").unwrap();
    assert_eq!(clean.len(), 0);
}

#[test]
fn test_custom_rule_matches() {
    let rule = CustomRule {
        name: "no-unwrap".to_string(),
        pattern: r"\.unwrap\(\)".to_string(),
        message: "avoid unwrap".to_string(),
        severity: Severity::Warning,
    };
    let content = "fn f() { a.unwrap(); }\nfn g() { b.unwrap(); }";
    let issues = apply_custom_rule(&rule, content, "f.rs").unwrap();
    assert_eq!(issues.len(), 2);
    assert_eq!(issues[0].message, "avoid unwrap");
    assert_eq!(issues[0].severity, Severity::Warning);
    assert!(matches!(&issues[0].category, IssueCategory::CustomRule(name) if name == "no-unwrap"));
    assert_eq!(issues[0].line_start, 1);
    assert_eq!(issues[1].line_start, 2);
}

#[test]
fn test_custom_rule_invalid_pattern() {
    let rule = CustomRule {
        name: "broken".to_string(),
        pattern: "(".to_string(),
        message: "never".to_string(),
        severity: Severity::Error,
    };
    let result = apply_custom_rule(&rule, "fn f() {}", "f.rs");
    assert!(matches!(result, Err(RustAiToolError::Configuration(ref name)) if name == "broken"));

    // In a whole-file analysis the bad rule becomes a recorded error,
    // not a failure.
    let analysis = analyze_file("f.rs", "fn f() {}", &options_with_rules(vec![rule]));
    assert!(analysis.success);
    assert_eq!(analysis.errors.len(), 1);
    assert_eq!(analysis.errors[0], "Custom rule 'broken' failed: invalid pattern");
    assert_eq!(analysis.issues.len(), 0);
}

#[test]
fn test_analyze_project_one_result_per_file() {
    let files = vec![
        SourceText { path: "a.rs".to_string(), content: "fn a() {}".to_string() },
        SourceText { path: "b.rs".to_string(), content: "fn b( {".to_string() },
    ];
    let results = analyze_project(&files, &options_with_rules(vec![])).unwrap();
    assert_eq!(results.len(), 2);
    assert_eq!(results[0].file_path, "a.rs");
    assert_eq!(results[0].issues.len(), 0);
    assert!(results[1].issues.len() >= 1);
}

#[test]
fn test_analyze_tauri_compatibility_unregistered() {
    let content = "#[tauri::command]\nfn greet() {}";
    let issues = analyze_tauri_compatibility(content, "src-tauri/main.rs").unwrap();
    assert_eq!(issues.len(), 1);
    assert!(matches!(issues[0].category, IssueCategory::TauriCompatibility));
    assert_eq!(
        issues[0].message,
        "Tauri command 'greet' is not registered in any invoke_handler"
    );
}

#[test]
fn test_add_matching_issues() {
    let files = vec![SourceText { path: "a.rs".to_string(), content: "fn a() {}".to_string() }];
    let mut results = analyze_project(&files, &options_with_rules(vec![])).unwrap();
    let extra = vec![
        CodeIssue {
            file_path: "a.rs".to_string(),
            line_start: 1,
            column_start: 1,
            line_end: 1,
            column_end: 2,
            category: IssueCategory::CodeQuality,
            severity: Severity::Warning,
            message: "from the lint tool".to_string(),
            suggested_fix: None,
        },
        CodeIssue {
            file_path: "other.rs".to_string(),
            line_start: 1,
            column_start: 1,
            line_end: 1,
            column_end: 2,
            category: IssueCategory::CodeQuality,
            severity: Severity::Warning,
            message: "elsewhere".to_string(),
            suggested_fix: None,
        },
    ];
    add_matching_issues(&mut results[0], &extra);
    assert_eq!(results[0].issues.len(), 1);
    assert_eq!(results[0].issues[0].message, "from the lint tool");
}

#[test]
fn test_extractors() {
    assert_eq!(extract_features("#![feature(abc)]\nfn a(){}"), vec!["abc"]);
    assert_eq!(extract_cfg_attributes("#[cfg(test)]\nmod t {}"), vec!["test"]);
    assert_eq!(extract_modules("mod a;\nmod b {}\n"), vec!["a", "b"]);
    assert_eq!(
        extract_tauri_commands("#[tauri::command]\npub fn greet() {}"),
        vec!["greet"]
    );
    assert_eq!(
        extract_invoke_handlers("b.invoke_handler(tauri::generate_handler![greet])"),
        vec!["tauri::generate_handler![greet]"]
    );
    let none: Vec<String> = Vec::new();
    assert_eq!(extract_modules("model airplane; method x"), none);
}

#[test]
fn test_counters() {
    // `verified(z)` is not a call of `verify`: the name is followed by
    // another identifier character.
    assert_eq!(count_function_calls("verify(x); verify (y); verified(z)", "verify"), 2);
    assert_eq!(count_function_calls("fn f() {}", "verify"), 0);
    assert_eq!(count_unsafe_blocks("unsafe { } unsafe{ }"), 2);
    assert_eq!(count_unsafe_blocks("fn unsafe_name() {}"), 0);
    assert_eq!(
        count_sensitive_unwraps("verify(a).unwrap();\nauth(b);\nverify(c).unwrap();", "verify"),
        2
    );
    assert_eq!(count_sensitive_unwraps("verify(a);\nx.unwrap();", "verify"), 0);
}

#[test]
fn test_usize_rendering() {
    assert_eq!(usize_to_string(0), "0");
    assert_eq!(usize_to_string(7), "7");
    assert_eq!(usize_to_string(42), "42");
    assert_eq!(usize_to_string(1200), "1200");
}

#[test]
fn test_progress_handler() {
    let (mut handler, opening) = create_progress_display("build", 4).unwrap();
    assert_eq!(opening, "Starting build...");
    assert_eq!(handler.increment(), "build: 25% (1/4)");
    assert_eq!(handler.update(3), "build: 75% (3/4)");
    assert_eq!(handler.complete(), "build: 100% (4/4)\nbuild completed.");
    assert!(create_terminal_ui().is_ok());
}

#[test]
fn test_format_analysis_results_markdown() {
    let issue = CodeIssue {
        file_path: "a.rs".to_string(),
        line_start: 3,
        column_start: 1,
        line_end: 4,
        column_end: 2,
        category: IssueCategory::Syntax,
        severity: Severity::Error,
        message: "Syntax error".to_string(),
        suggested_fix: Some(CodeFix {
            original_code: "old".to_string(),
            replacement_code: "new".to_string(),
            confidence: 85,
            description: "replace".to_string(),
        }),
    };
    let results = vec![
        rust_ai_tool::analysis::AnalysisResult {
            file_path: "a.rs".to_string(),
            issues: vec![issue],
            errors: vec![],
            success: true,
        },
        rust_ai_tool::analysis::AnalysisResult {
            file_path: "b.rs".to_string(),
            issues: vec![],
            errors: vec![],
            success: true,
        },
    ];
    let report = format_analysis_results_markdown(&results);
    let expected = "# Rust AI Tool Analysis Results\n\n\
                    **Total Issues Found**: 1\n\n\
                    ## a.rs\n\n\
                    ### Issue at a.rs:3-4\n\n\
                    **Category**: Syntax\n\n\
                    **Severity**: Error\n\n\
                    **Message**: Syntax error\n\n\
                    **Suggested Fix**:\n\n```rust\nnew\n```\n\n\
                    Confidence: 85%\n\n\
                    ---\n\n";
    assert_eq!(report, expected);
}

#[test]
fn test_format_analysis_results_console() {
    let issue = CodeIssue {
        file_path: "a.rs".to_string(),
        line_start: 3,
        column_start: 1,
        line_end: 4,
        column_end: 2,
        category: IssueCategory::CustomRule("no-unwrap".to_string()),
        severity: Severity::Warning,
        message: "avoid unwrap".to_string(),
        suggested_fix: Some(CodeFix {
            original_code: "x.unwrap()".to_string(),
            replacement_code: "x?;\nrest".to_string(),
            confidence: 60,
            description: "replace".to_string(),
        }),
    };
    let results = vec![rust_ai_tool::analysis::AnalysisResult {
        file_path: "a.rs".to_string(),
        issues: vec![issue],
        errors: vec![],
        success: true,
    }];
    let report = format_analysis_results_console(&results);
    let expected = "Found 1 issues in 1 files\n\n\
                    File: a.rs\n\
                    \u{20} Issue #1: a.rs:3-4 (CustomRule(no-unwrap), Warning)\n\
                    \u{20}   Message: avoid unwrap\n\
                    \u{20}   Suggested Fix:\n\
                    \u{20}     x?;\n\
                    \u{20}     rest\n\
                    \u{20}   Confidence: 60%\n\n\
                    ---\n\n";
    assert_eq!(report, expected);
}
