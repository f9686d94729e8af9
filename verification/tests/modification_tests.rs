use rust_ai_tool::modification::apply_modification;
use rust_ai_tool::modification::apply_modifications;
use rust_ai_tool::modification::apply_validated_fixes;
use rust_ai_tool::modification::backup_path;
use rust_ai_tool::modification::create_change_report;
use rust_ai_tool::modification::create_modification;
use rust_ai_tool::modification::generate_diff;
use rust_ai_tool::modification::restore_backups;
use rust_ai_tool::modification::update_code_section;
use rust_ai_tool::modification::apply_file_changes;
use rust_ai_tool::modification::FileUpdate;
use rust_ai_tool::modification::CodeModification;
use rust_ai_tool::modification::FileChange;
use rust_ai_tool::store::FileStore;
use rust_ai_tool::RustAiToolError;

fn store_with(files: &[(&str, &str)]) -> FileStore {
    let mut store = FileStore::new();
    for (path, content) in files {
        store.write_file(path, (*content).to_string());
    }
    store
}

#[test]
fn test_apply_modification() {
    let original_content = "fn main() {\n    println!(\"Hello\");\n}";
    let modified_content = "fn main() {\n    println!(\"Hello, world!\");\n}";
    let mut store = store_with(&[("test.rs", original_content)]);

    let modification = CodeModification {
        file_path: "test.rs".to_string(),
        original_content: original_content.to_string(),
        modified_content: modified_content.to_string(),
        description: "Update greeting".to_string(),
        confidence: 90,
    };

    let change = apply_modification(&mut store, &modification, true).unwrap();

    assert_eq!(change.file_path, "test.rs");
    assert_eq!(change.original_content, Some(original_content.to_string()));
    assert_eq!(change.new_content, modified_content);
    assert!(change.backup_created);
    assert!(change.backup_path.is_some());

    // The file was updated.
    let updated_content = store.read_file("test.rs").unwrap();
    assert_eq!(updated_content, modified_content);

    // The backup was created.
    let backup_content = store.read_file("test.bak").unwrap();
    assert_eq!(backup_content, original_content);
}

#[test]
fn test_apply_missing_file_fails() {
    let mut store = FileStore::new();
    let modification = create_modification(
        "absent.rs".to_string(),
        "a".to_string(),
        "b".to_string(),
        "change".to_string(),
        50,
    );
    let result = apply_modification(&mut store, &modification, false);
    assert!(matches!(result, Err(RustAiToolError::InputNotFound(_))));
    assert!(!store.contains_path("absent.rs"));
}

#[test]
fn test_concurrent_modification_refused() {
    // The stored content diverged from the recorded original: the apply
    // must fail and must not touch the file.
    let mut store = store_with(&[("a.rs", "changed elsewhere")]);
    let modification = create_modification(
        "a.rs".to_string(),
        "what the author saw".to_string(),
        "proposed".to_string(),
        "change".to_string(),
        50,
    );
    let result = apply_modification(&mut store, &modification, true);
    assert!(matches!(result, Err(RustAiToolError::ConcurrentModification(_))));
    assert_eq!(store.read_file("a.rs").unwrap(), "changed elsewhere");
    assert!(!store.contains_path("a.bak"));
}

#[test]
fn test_backup_holds_previous_content() {
    // Apply with a backup on a file holding "A" and proposed content "B":
    // afterwards the target holds "B" and the backup holds "A".
    let mut store = store_with(&[("file.rs", "A")]);
    let modification = create_modification(
        "file.rs".to_string(),
        "A".to_string(),
        "B".to_string(),
        "swap letter".to_string(),
        100,
    );
    let change = apply_modification(&mut store, &modification, true).unwrap();
    assert_eq!(store.read_file("file.rs").unwrap(), "B");
    assert_eq!(store.read_file("file.bak").unwrap(), "A");
    assert_eq!(change.backup_path, Some("file.bak".to_string()));
}

#[test]
fn test_restore_round_trip() {
    let mut store = store_with(&[("file.rs", "A")]);
    let modification = create_modification(
        "file.rs".to_string(),
        "A".to_string(),
        "B".to_string(),
        "swap letter".to_string(),
        100,
    );
    let change = apply_modification(&mut store, &modification, true).unwrap();
    let restored = restore_backups(&mut store, &vec![change]).unwrap();
    assert_eq!(restored, 1);
    assert_eq!(store.read_file("file.rs").unwrap(), "A");
    assert!(!store.contains_path("file.bak"));
}

#[test]
fn test_restore_skips_missing_backup() {
    let mut store = store_with(&[("file.rs", "B")]);
    let change = FileChange {
        file_path: "file.rs".to_string(),
        original_content: Some("A".to_string()),
        new_content: "B".to_string(),
        description: "swap letter".to_string(),
        backup_created: true,
        backup_path: Some("file.bak".to_string()),
    };
    let restored = restore_backups(&mut store, &vec![change]).unwrap();
    assert_eq!(restored, 0);
    assert_eq!(store.read_file("file.rs").unwrap(), "B");
}

#[test]
fn test_apply_batch_fails_fast_keeps_earlier_changes() {
    let mut store = store_with(&[("one.rs", "1")]);
    let first = create_modification(
        "one.rs".to_string(),
        "1".to_string(),
        "one".to_string(),
        "first".to_string(),
        80,
    );
    let second = create_modification(
        "two.rs".to_string(),
        "2".to_string(),
        "two".to_string(),
        "second".to_string(),
        80,
    );
    let result = apply_modifications(&mut store, &vec![first, second], false);
    assert!(matches!(result, Err(RustAiToolError::InputNotFound(_))));
    // The change already applied stays applied.
    assert_eq!(store.read_file("one.rs").unwrap(), "one");
}

#[test]
fn test_apply_batch_all_ok() {
    let mut store = store_with(&[("one.rs", "1"), ("two.rs", "2")]);
    let mods = vec![
        create_modification(
            "one.rs".to_string(),
            "1".to_string(),
            "one".to_string(),
            "first".to_string(),
            80,
        ),
        create_modification(
            "two.rs".to_string(),
            "2".to_string(),
            "two".to_string(),
            "second".to_string(),
            80,
        ),
    ];
    let changes = apply_modifications(&mut store, &mods, false).unwrap();
    assert_eq!(changes.len(), 2);
    assert_eq!(store.read_file("one.rs").unwrap(), "one");
    assert_eq!(store.read_file("two.rs").unwrap(), "two");
    assert!(!changes[0].backup_created);
    assert_eq!(changes[0].backup_path, None);
}

#[test]
fn test_backup_path_convention() {
    assert_eq!(backup_path("test.rs"), "test.bak");
    assert_eq!(backup_path("dir/file.rs"), "dir/file.bak");
    assert_eq!(backup_path("dir/file"), "dir/file.bak");
    assert_eq!(backup_path(".hidden"), ".hidden.bak");
    assert_eq!(backup_path("dir.v2/file"), "dir.v2/file.bak");
    assert_eq!(backup_path("a.b.c"), "a.b.bak");
}

#[test]
fn test_generate_diff_exact() {
    let diff = generate_diff("a\nb\nc", "a\nx\nc\nd");
    assert_eq!(diff, "  a\n- b\n+ x\n  c\n+ d\n");
}

#[test]
fn test_generate_diff_empty_sides() {
    assert_eq!(generate_diff("", ""), "");
    assert_eq!(generate_diff("a", ""), "- a\n");
    assert_eq!(generate_diff("", "b"), "+ b\n");
}

#[test]
fn test_change_report_exact() {
    let change = FileChange {
        file_path: "file.rs".to_string(),
        original_content: Some("A".to_string()),
        new_content: "B".to_string(),
        description: "swap letter".to_string(),
        backup_created: true,
        backup_path: Some("file.bak".to_string()),
    };
    let report = create_change_report(&vec![change]);
    let expected = "# Code Modification Report\n\n\
                    Total files modified: 1\n\n\
                    ## 1. file.rs\n\n\
                    Description: swap letter\n\n\
                    ### Changes\n\n```diff\n- A\n+ B\n```\n\n\
                    Backup created: file.bak\n\n\
                    ---\n\n";
    assert_eq!(report, expected);
}

#[test]
fn test_error_details() {
    assert_eq!(
        RustAiToolError::InputNotFound("p".to_string()).detail(),
        "p"
    );
    assert_eq!(
        RustAiToolError::ConcurrentModification("q".to_string()).detail(),
        "q"
    );
    assert_eq!(RustAiToolError::ParseFailure("r".to_string()).detail(), "r");
    assert_eq!(RustAiToolError::Configuration("s".to_string()).detail(), "s");
    assert_eq!(RustAiToolError::Io("t".to_string()).detail(), "t");
}

#[test]
fn test_apply_file_changes_skips_unchanged() {
    let mut store = store_with(&[("same.rs", "keep"), ("diff.rs", "old")]);
    let updates = vec![
        FileUpdate { path: "same.rs".to_string(), content: "keep".to_string() },
        FileUpdate { path: "diff.rs".to_string(), content: "new".to_string() },
    ];
    let changes = apply_file_changes(&mut store, &updates, true).unwrap();
    // The unchanged file is skipped without a record or a backup.
    assert_eq!(changes.len(), 1);
    assert_eq!(changes[0].file_path, "diff.rs");
    assert_eq!(changes[0].description, "Modified file content");
    assert!(!store.contains_path("same.bak"));
    assert_eq!(store.read_file("diff.rs").unwrap(), "new");
    assert_eq!(store.read_file("diff.bak").unwrap(), "old");
}

#[test]
fn test_apply_file_changes_missing_file() {
    let mut store = FileStore::new();
    let updates = vec![FileUpdate { path: "gone.rs".to_string(), content: "x".to_string() }];
    let result = apply_file_changes(&mut store, &updates, false);
    assert!(matches!(result, Err(RustAiToolError::InputNotFound(_))));
}

#[test]
fn test_update_code_section() {
    let mut store = store_with(&[("lib.rs", "fn a() { old(); }
fn b() { old(); }")]);
    let change = update_code_section(&mut store, "lib.rs", "old()", "new()", true).unwrap();
    assert_eq!(store.read_file("lib.rs").unwrap(), "fn a() { new(); }
fn b() { new(); }");
    assert_eq!(store.read_file("lib.bak").unwrap(), "fn a() { old(); }
fn b() { old(); }");
    assert_eq!(change.description, "Updated code section in lib.rs");
    assert_eq!(change.new_content, "fn a() { new(); }
fn b() { new(); }");
}

#[test]
fn test_update_code_section_search_missing() {
    let mut store = store_with(&[("lib.rs", "fn a() {}")]);
    let result = update_code_section(&mut store, "lib.rs", "absent", "x", true);
    assert!(matches!(result, Err(RustAiToolError::InputNotFound(_))));
    assert_eq!(store.read_file("lib.rs").unwrap(), "fn a() {}");
    assert!(!store.contains_path("lib.bak"));
}

#[test]
fn test_same_path_twice_in_one_batch() {
    // Two candidates naming the same path: the second sees the first's
    // write and is refused as a concurrent modification.
    let mut store = store_with(&[("a.rs", "v1")]);
    let mods = vec![
        create_modification(
            "a.rs".to_string(),
            "v1".to_string(),
            "v2".to_string(),
            "first".to_string(),
            80,
        ),
        create_modification(
            "a.rs".to_string(),
            "v1".to_string(),
            "v3".to_string(),
            "second".to_string(),
            80,
        ),
    ];
    let result = apply_modifications(&mut store, &mods, false);
    assert!(matches!(result, Err(RustAiToolError::ConcurrentModification(_))));
    assert_eq!(store.read_file("a.rs").unwrap(), "v2");
}

#[test]
fn test_generate_diff_crlf_lines() {
    // A carriage return before a line feed belongs to the line ending,
    // not to the line.
    assert_eq!(generate_diff("a\r\nb", "a\nb"), "  a\n  b\n");
    assert_eq!(generate_diff("a\r\nb", "a\nc"), "  a\n- b\n+ c\n");
}
