use rust_ai_tool::modification::apply_validated_fixes;
use rust_ai_tool::modification::create_modification;
use rust_ai_tool::store::FileStore;
use rust_ai_tool::validation::validate_fix;
use rust_ai_tool::validation::validate_fixes;
use rust_ai_tool::validation::validate_security_implications;
use rust_ai_tool::validation::validate_semantics;
use rust_ai_tool::validation::validate_structural_integrity;
use rust_ai_tool::validation::validate_syntax;
use rust_ai_tool::validation::validate_tauri_compatibility;
use rust_ai_tool::validation::is_tauri_file;
use rust_ai_tool::validation::FixToValidate;
use rust_ai_tool::validation::ValidationMessageType;
use rust_ai_tool::validation::ValidationPartialResult;
use rust_ai_tool::validation::ValidationSeverity;
use rust_ai_tool::report::format_validation_results;
use rust_ai_tool::ValidationOptions;

fn full_options() -> ValidationOptions {
    ValidationOptions {
        syntax_only: false,
        tauri_compatibility: true,
        security_validation: true,
    }
}

fn fix(path: &str, original: &str, modified: &str) -> FixToValidate {
    FixToValidate {
        file_path: path.to_string(),
        original_code: original.to_string(),
        modified_code: modified.to_string(),
        description: "suggested fix".to_string(),
    }
}

#[test]
fn test_severity_lattice() {
    // Join is the maximum of the explicit order.
    assert_eq!(
        ValidationSeverity::NoIssues.combine(ValidationSeverity::Minor),
        ValidationSeverity::Minor
    );
    assert_eq!(
        ValidationSeverity::Minor.combine(ValidationSeverity::NoIssues),
        ValidationSeverity::Minor
    );
    assert_eq!(
        ValidationSeverity::Minor.combine(ValidationSeverity::Major),
        ValidationSeverity::Major
    );
    assert_eq!(
        ValidationSeverity::Critical.combine(ValidationSeverity::Major),
        ValidationSeverity::Critical
    );
    // Identity element.
    assert_eq!(
        ValidationSeverity::Major.combine(ValidationSeverity::NoIssues),
        ValidationSeverity::Major
    );
    // Associativity on a sample.
    assert_eq!(
        ValidationSeverity::NoIssues
            .combine(ValidationSeverity::Major)
            .combine(ValidationSeverity::Critical),
        ValidationSeverity::NoIssues
            .combine(ValidationSeverity::Major.combine(ValidationSeverity::Critical))
    );
    // Acceptance threshold.
    assert!(ValidationSeverity::NoIssues.is_valid());
    assert!(ValidationSeverity::Minor.is_valid());
    assert!(!ValidationSeverity::Major.is_valid());
    assert!(!ValidationSeverity::Critical.is_valid());
}

#[test]
fn test_partial_result_updates() {
    let mut partial = ValidationPartialResult::new();
    assert_eq!(partial.severity, ValidationSeverity::NoIssues);
    partial.add_info("info".to_string(), None);
    assert_eq!(partial.severity, ValidationSeverity::NoIssues);
    partial.add_warning("warn".to_string(), None);
    assert_eq!(partial.severity, ValidationSeverity::Minor);
    partial.add_error("err".to_string(), None);
    assert_eq!(partial.severity, ValidationSeverity::Major);
    partial.add_critical_error("crit".to_string(), None);
    assert_eq!(partial.severity, ValidationSeverity::Critical);
    // A later plain error does not lower a critical severity.
    partial.add_error("late".to_string(), None);
    assert_eq!(partial.severity, ValidationSeverity::Critical);
    assert_eq!(partial.messages.len(), 5);
}

#[test]
fn test_syntax_pass_rejects_truncated_code() {
    // A truncated function must be reported as a critical syntax issue.
    let result = validate_syntax("fn main(");
    assert_eq!(result.severity, ValidationSeverity::Critical);
    assert_eq!(result.messages.len(), 1);
    assert_eq!(result.messages[0].message_type, ValidationMessageType::Error);
    assert!(result.messages[0].text.starts_with("Found "));
    assert!(result.messages[0].text.ends_with(" syntax errors in the modified code"));
}

#[test]
fn test_syntax_pass_accepts_valid_code() {
    let result = validate_syntax("fn main(){}");
    assert_eq!(result.severity, ValidationSeverity::NoIssues);
    assert_eq!(result.messages.len(), 1);
    assert_eq!(result.messages[0].text, "Syntax validation passed");
}

#[test]
fn test_syntax_pass_idempotent() {
    // Running the syntax pass twice on identical text yields an
    // identical finding set.
    let first = validate_syntax("fn main(");
    let second = validate_syntax("fn main(");
    assert_eq!(first.messages.len(), second.messages.len());
    for (a, b) in first.messages.iter().zip(second.messages.iter()) {
        assert_eq!(a.text, b.text);
        assert_eq!(a.message_type, b.message_type);
    }
    assert_eq!(first.severity, second.severity);
}

#[test]
fn test_truncated_candidate_rejected_and_never_applied() {
    // End to end: a candidate whose proposed text does not parse gets a
    // critical, invalid verdict, and the validated-apply step never
    // touches the file.
    let original = "fn main(){}";
    let modified = "fn main(";
    let candidate = fix("src/main.rs", original, modified);
    let verdicts = validate_fixes(&vec![candidate], &full_options()).unwrap();
    assert_eq!(verdicts.len(), 1);
    assert_eq!(verdicts[0].severity, ValidationSeverity::Critical);
    assert!(!verdicts[0].is_valid);

    let mut store = FileStore::new();
    store.write_file("src/main.rs", original.to_string());
    let modification = create_modification(
        "src/main.rs".to_string(),
        original.to_string(),
        modified.to_string(),
        "truncate".to_string(),
        10,
    );
    let changes = apply_validated_fixes(&mut store, &vec![modification], &verdicts, true).unwrap();
    assert_eq!(changes.len(), 0);
    assert_eq!(store.read_file("src/main.rs").unwrap(), original);
    assert!(!store.contains_path("src/main.bak"));
}

#[test]
fn test_semantic_pass_markers() {
    let clean = validate_semantics("lib.rs", "fn a(){}");
    assert_eq!(clean.severity, ValidationSeverity::NoIssues);
    assert_eq!(clean.messages[0].text, "Semantic validation passed");

    let todo = validate_semantics("lib.rs", "// TODO: later\nfn a(){}");
    assert_eq!(todo.severity, ValidationSeverity::Minor);
    assert_eq!(todo.messages[0].text, "Code contains TODO or FIXME comments");

    let bad = validate_semantics("lib.rs", "unresolved_macro!();");
    assert_eq!(bad.severity, ValidationSeverity::Major);
    assert_eq!(bad.messages[0].text, "Code contains unresolved macros");
}

#[test]
fn test_structural_pass_module_removed() {
    // Two structurally identical files, except the modified version
    // deletes the declared sub-module `legacy`.
    let original = "mod legacy;\nfn a(){}";
    let modified = "fn a(){}";
    let result = validate_structural_integrity(original, modified);
    assert_eq!(result.severity, ValidationSeverity::Major);
    let removals: Vec<_> = result
        .messages
        .iter()
        .filter(|m| m.text == "Module 'legacy' was removed")
        .collect();
    assert_eq!(removals.len(), 1);
    assert_eq!(removals[0].message_type, ValidationMessageType::Error);

    let verdict = validate_fix(&fix("src/lib.rs", original, modified), &full_options()).unwrap();
    assert!(!verdict.is_valid);
}

#[test]
fn test_structural_pass_feature_change() {
    let original = "#![feature(abc)]\nfn a(){}";
    let modified = "fn a(){}";
    let result = validate_structural_integrity(original, modified);
    assert_eq!(result.severity, ValidationSeverity::Major);
    assert_eq!(result.messages[0].text, "Crate features were modified");
}

#[test]
fn test_structural_pass_identical_files() {
    let text = "#![feature(abc)]\n#[cfg(test)]\nmod tests;\nfn a(){}";
    let result = validate_structural_integrity(text, text);
    assert_eq!(result.severity, ValidationSeverity::NoIssues);
    assert_eq!(result.messages.len(), 1);
    assert_eq!(result.messages[0].text, "Structural integrity validation passed");
}

#[test]
fn test_tauri_pass_unregistered_command() {
    // The command `greet` exists in both versions, but the modified
    // handler registration no longer mentions it.
    let original = "#[tauri::command]\nfn greet() {}\n\
                    fn main() { builder.invoke_handler(tauri::generate_handler![greet]); }";
    let modified = "#[tauri::command]\nfn greet() {}\n\
                    fn main() { builder.invoke_handler(tauri::generate_handler![other]); }";
    let result = validate_tauri_compatibility(original, modified);
    assert_eq!(result.severity, ValidationSeverity::Major);
    assert!(result.messages.iter().any(|m| {
        m.message_type == ValidationMessageType::Error
            && m.text.starts_with("Tauri invoke handler '")
            && m.text.ends_with("' was removed")
    }));
    assert!(result.messages.iter().any(|m| {
        m.text == "Tauri command 'greet' is not registered in any invoke_handler"
    }));

    let verdict = validate_fix(
        &fix("app/src-tauri/src/main.rs", original, modified),
        &full_options(),
    )
    .unwrap();
    assert!(!verdict.is_valid);
    assert_eq!(verdict.severity, ValidationSeverity::Major);
}

#[test]
fn test_tauri_pass_clean() {
    let text = "#[tauri::command]\nfn greet() {}\n\
                fn main() { builder.invoke_handler(tauri::generate_handler![greet]); }";
    let result = validate_tauri_compatibility(text, text);
    assert_eq!(result.severity, ValidationSeverity::NoIssues);
    assert_eq!(result.messages[0].text, "Tauri compatibility validation passed");
}

#[test]
fn test_is_tauri_file() {
    assert!(is_tauri_file("app/src-tauri/src/main.rs"));
    assert!(is_tauri_file("conf/tauri.conf.json"));
    assert!(!is_tauri_file("src/lib.rs"));
}

#[test]
fn test_security_pass_unsafe_added() {
    let original = "fn f() {}";
    let modified = "fn f() { unsafe { } }";
    let result = validate_security_implications(original, modified);
    assert_eq!(result.severity, ValidationSeverity::Major);
    assert_eq!(result.messages[0].text, "Added 1 new unsafe blocks");
}

#[test]
fn test_security_pass_call_count_changed() {
    let original = "fn f() { verify(token); }";
    let modified = "fn f() { }";
    let result = validate_security_implications(original, modified);
    assert_eq!(result.severity, ValidationSeverity::Major);
    assert!(result
        .messages
        .iter()
        .any(|m| m.text == "Security function 'verify' calls were modified"));
}

#[test]
fn test_security_pass_sensitive_unwrap() {
    let original = "fn f() { let t = verify(token); }";
    let modified = "fn f() { let t = verify(token).unwrap(); }";
    let result = validate_security_implications(original, modified);
    assert_eq!(result.severity, ValidationSeverity::Major);
    assert!(result.messages.iter().any(|m| {
        m.text == "Added unwrap() on security-sensitive operation matching 'verify'"
    }));
}

#[test]
fn test_security_pass_clean() {
    let text = "fn f() { verify(token); }";
    let result = validate_security_implications(text, text);
    assert_eq!(result.severity, ValidationSeverity::NoIssues);
    assert_eq!(result.messages[0].text, "Security validation passed");
}

#[test]
fn test_validate_fix_accepts_good_change() {
    let verdict = validate_fix(
        &fix("src/lib.rs", "fn a(){}", "fn a(){}\nfn b(){}"),
        &full_options(),
    )
    .unwrap();
    assert!(verdict.is_valid);
    assert_eq!(verdict.severity, ValidationSeverity::NoIssues);
    assert_eq!(verdict.file_path, "src/lib.rs");
}

#[test]
fn test_validate_fix_syntax_only_skips_other_passes() {
    // With syntax_only set, a removed module goes unnoticed.
    let verdict = validate_fix(
        &fix("src/lib.rs", "mod legacy;\nfn a(){}", "fn a(){}"),
        &ValidationOptions {
            syntax_only: true,
            tauri_compatibility: true,
            security_validation: true,
        },
    )
    .unwrap();
    assert!(verdict.is_valid);
    assert_eq!(verdict.messages.len(), 1);
}

#[test]
fn test_batch_isolation() {
    // One malformed candidate does not shorten the verdict list; its own
    // verdict is critical and invalid, the others are untouched.
    let fixes = vec![
        fix("a.rs", "fn a(){}", "fn a("),
        fix("b.rs", "fn b(){}", "fn b(){}\nfn c(){}"),
    ];
    let verdicts = validate_fixes(&fixes, &full_options()).unwrap();
    assert_eq!(verdicts.len(), 2);
    assert_eq!(verdicts[0].severity, ValidationSeverity::Critical);
    assert!(!verdicts[0].is_valid);
    assert!(verdicts[1].is_valid);
}

#[test]
fn test_format_validation_results() {
    let fixes = vec![
        fix("a.rs", "fn a(){}", "fn a(){}"),
        fix("b.rs", "mod legacy;\nfn b(){}", "fn b(){}"),
    ];
    let verdicts = validate_fixes(&fixes, &full_options()).unwrap();
    let rendered = format_validation_results(&verdicts);
    assert!(rendered.starts_with("Validation Results: 1/2 fixes are valid\n\n"));
    assert!(rendered.contains("Fix #1 for a.rs: VALID\n"));
    assert!(rendered.contains("Fix #2 for b.rs: INVALID\n"));
    assert!(rendered.contains("  Severity: Major\n"));
    assert!(rendered.contains("  - ERROR: Module 'legacy' was removed\n"));
}

#[test]
fn test_non_ascii_text() {
    // Scanning is character-based and survives non-ASCII text.
    let original = "mod alt;\n// größe\nfn f(){}";
    let modified = "// größe\nfn f(){}";
    let result = validate_structural_integrity(original, modified);
    assert_eq!(result.severity, ValidationSeverity::Major);
    assert!(result.messages.iter().any(|m| m.text == "Module 'alt' was removed"));

    let clean = validate_semantics("lib.rs", "// smürf\nfn f(){}");
    assert_eq!(clean.severity, ValidationSeverity::NoIssues);
}
