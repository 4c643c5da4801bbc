use appscreener_pattern_sync::scaffold::model::{RuleScaffoldSpec, ScaffoldPatternType};
use appscreener_pattern_sync::scaffold::templates::{
    build_script, markdown_table_cell, pattern_catalog, patterns_manifest, readme, rule_metadata,
};
use appscreener_pattern_sync::scaffold::validation::{
    ensure_target_absent, validate_spec, PathFacts, ScaffoldError,
};
use appscreener_pattern_sync::scaffold::writer::{
    first_staging_action, next_staging_action, scaffold_directories, scaffold_files,
    staging_directory_name, CreateOutcome, StagingAction,
};

/// A rules root that exists and is a directory, with no rule directory yet.
const FRESH_ROOT: PathFacts = PathFacts {
    root_exists: true,
    root_is_dir: true,
    target_exists: false,
};

fn test_spec(rules_root: &str) -> RuleScaffoldSpec {
    RuleScaffoldSpec {
        rules_root: rules_root.to_owned(),
        dir_name: "custom-memory-rule".to_owned(),
        title: None,
        cwe: None,
        pattern_type: ScaffoldPatternType::Reporting,
        severity: 3,
        confidence: 1,
    }
}

#[test]
fn accepts_arbitrary_directory_name_without_cwe() {
    let rules_root = "/tmp/appscreener-pattern-sync-valid-spec";
    let spec = test_spec(rules_root);

    let target = validate_spec(&spec, FRESH_ROOT).unwrap();

    assert_eq!(target, format!("{rules_root}/custom-memory-rule"));
}

#[test]
fn rejects_missing_or_non_directory_rules_root() {
    let missing_spec = test_spec("/tmp/appscreener-pattern-sync-invalid-root/missing");
    let missing = PathFacts {
        root_exists: false,
        root_is_dir: false,
        target_exists: false,
    };

    let error = validate_spec(&missing_spec, missing).unwrap_err();

    assert!(
        error.message().contains("rules root does not exist"),
        "unexpected error: {}",
        error.message()
    );

    let file_spec = test_spec("/tmp/appscreener-pattern-sync-invalid-root/rules.txt");
    let file = PathFacts {
        root_exists: true,
        root_is_dir: false,
        target_exists: false,
    };
    let error = validate_spec(&file_spec, file).unwrap_err();

    assert!(
        error.message().contains("rules root is not a directory"),
        "unexpected error: {}",
        error.message()
    );
}

#[test]
fn rejects_invalid_directory_names() {
    let rules_root = "/tmp/appscreener-pattern-sync-invalid-names";

    let invalid_names = [
        "",
        " leading-space",
        "trailing-space ",
        "trailing-dot.",
        "nested/directory",
        r"nested\directory",
        "invalid:name",
        "invalid*name",
        "CON",
        "con.txt",
        "NUL",
        "COM1",
        "lpt9.log",
        ".",
        "..",
    ];

    for name in invalid_names {
        let mut spec = test_spec(rules_root);
        spec.dir_name = name.to_owned();

        assert!(
            validate_spec(&spec, FRESH_ROOT).is_err(),
            "directory name `{name}` should be rejected"
        );
    }

    let mut spec = test_spec(rules_root);
    spec.dir_name = "a".repeat(256);

    assert!(
        validate_spec(&spec, FRESH_ROOT).is_err(),
        "a directory name longer than 255 UTF-16 code units should be rejected"
    );
}

#[test]
fn rejects_invalid_metadata_values() {
    let rules_root = "/tmp/appscreener-pattern-sync-invalid-metadata";

    let mut spec = test_spec(rules_root);
    spec.title = Some("   ".to_owned());
    assert!(validate_spec(&spec, FRESH_ROOT).is_err());

    let mut spec = test_spec(rules_root);
    spec.title = Some("invalid\ntitle".to_owned());
    assert!(validate_spec(&spec, FRESH_ROOT).is_err());

    let mut spec = test_spec(rules_root);
    spec.cwe = Some(0);
    assert!(validate_spec(&spec, FRESH_ROOT).is_err());

    for severity in [-1, 4] {
        let mut spec = test_spec(rules_root);
        spec.severity = severity;

        assert!(
            validate_spec(&spec, FRESH_ROOT).is_err(),
            "severity {severity} should be rejected"
        );
    }
}

#[test]
fn rejects_existing_target_directory() {
    let spec = test_spec("/tmp/appscreener-pattern-sync-existing-target");
    let existing = PathFacts {
        root_exists: true,
        root_is_dir: true,
        target_exists: true,
    };

    let error = validate_spec(&spec, existing).unwrap_err();

    assert!(
        error.message().contains("target directory already exists"),
        "unexpected error: {}",
        error.message()
    );
}

#[test]
fn names_the_specific_problem() {
    let cases: [(&str, &str); 6] = [
        ("", "directory name cannot be empty"),
        (" x", "directory name must not contain leading or trailing whitespace"),
        ("x.", "directory name must not end with a dot"),
        ("a\u{7}b", "directory name must not contain control characters"),
        ("a|b", "directory name contains a character forbidden on Windows"),
        ("Com7.backup", "directory name is reserved on Windows: Com7.backup"),
    ];
    for (name, message) in cases {
        let mut spec = test_spec("/rules");
        spec.dir_name = name.to_owned();
        let error = validate_spec(&spec, FRESH_ROOT).unwrap_err();
        assert_eq!(error.message(), message);
    }

    let mut spec = test_spec("/rules");
    spec.dir_name = "😀".repeat(128);
    assert!(matches!(
        validate_spec(&spec, FRESH_ROOT),
        Err(ScaffoldError::NameTooLong)
    ));
    spec.dir_name = "😀".repeat(127);
    assert!(validate_spec(&spec, FRESH_ROOT).is_ok());

    let mut spec = test_spec("/rules/");
    spec.dir_name = "COM10".to_owned();
    assert_eq!(validate_spec(&spec, FRESH_ROOT).unwrap(), "/rules/COM10");
}

fn documented_spec() -> RuleScaffoldSpec {
    RuleScaffoldSpec {
        rules_root: "/rules".to_owned(),
        dir_name: "custom-rule".to_owned(),
        title: Some("Custom | Rule".to_owned()),
        cwe: Some(273),
        pattern_type: ScaffoldPatternType::Dataflow,
        severity: 3,
        confidence: 1,
    }
}

#[test]
fn headings_and_labels() {
    let spec = documented_spec();
    assert_eq!(spec.target_path(), "/rules/custom-rule");
    assert_eq!(spec.display_title(), "Custom | Rule");
    assert_eq!(spec.cwe_label(), "CWE-273");
    assert_eq!(spec.document_heading(), "CWE-273 — Custom | Rule");
    assert_eq!(spec.pattern_catalog_heading(), "Каталог паттернов CWE-273");

    let mut plain = documented_spec();
    plain.cwe = None;
    plain.title = None;
    assert_eq!(plain.cwe_label(), "TODO");
    assert_eq!(plain.document_heading(), "custom-rule");
    assert_eq!(plain.pattern_catalog_heading(), "Каталог паттернов custom-rule");
    assert_eq!(ScaffoldPatternType::Dataflow.as_manifest_value(), "DATAFLOW");
    assert_eq!(
        ScaffoldPatternType::Reporting.analysis_label(),
        "AST Matcher / Reporting"
    );
}

#[test]
fn templates_fill_in_the_spec() {
    let spec = documented_spec();
    assert_eq!(
        patterns_manifest(&spec),
        "version: 1\n\ndefaults:\n  type: DATAFLOW\n  severity: 3\n  confidence: 1\n  active: true\n\npatterns: {}\n"
    );
    assert!(readme(&spec).starts_with("# CWE-273 — Custom | Rule\n\n"));
    assert!(pattern_catalog(&spec).starts_with("# Каталог паттернов CWE-273\n"));
    let metadata = rule_metadata(&spec);
    assert!(metadata.contains("| Название | Custom \\| Rule |"));
    assert!(metadata.contains("| CWE | CWE-273 |"));
    assert!(metadata.contains("| Тип анализа | DataFlow |"));
    assert!(metadata.contains("| Pattern type | `DATAFLOW` |"));
    assert!(build_script().starts_with("#!/usr/bin/env bash\n"));
    assert_eq!(markdown_table_cell("a|b|"), "a\\|b\\|");
}

#[test]
fn layout_lists_directories_and_files() {
    let spec = documented_spec();
    assert_eq!(
        scaffold_directories(),
        vec![
            "docs",
            "rule",
            "rule/patterns",
            "tests",
            "tests/include",
            "tests/src"
        ]
    );
    let files = scaffold_files(&spec);
    let paths: Vec<&str> = files.iter().map(|f| f.relative_path.as_str()).collect();
    assert_eq!(
        paths,
        vec![
            "README.md",
            "docs/pattern-catalog.md",
            "rule/rule-metadata.md",
            "rule/patterns/patterns.yaml",
            "tests/build.sh",
            "tests/include/.gitkeep",
            "tests/src/.gitkeep",
        ]
    );
    assert_eq!(files[0].content, readme(&spec));
    assert!(files[4].executable);
    assert!(files[6].content.is_empty());
}

#[test]
fn creates_complete_rule_scaffold_layout() {
    let spec = documented_spec();
    let layout = appscreener_pattern_sync::scaffold::create_rule_scaffold(&spec, FRESH_ROOT).unwrap();
    assert_eq!(layout.target, format!("{}/{}", spec.rules_root, spec.dir_name));
    assert_eq!(layout.directories, scaffold_directories());
    assert_eq!(layout.files.len(), 7);
    assert_eq!(layout.files[3].content, patterns_manifest(&spec));
    let result = layout.result();
    assert_eq!(result.target, layout.target);
    assert_eq!(
        result.relative_files(),
        &vec![
            "README.md".to_owned(),
            "docs/pattern-catalog.md".to_owned(),
            "rule/rule-metadata.md".to_owned(),
            "rule/patterns/patterns.yaml".to_owned(),
            "tests/build.sh".to_owned(),
            "tests/include/.gitkeep".to_owned(),
            "tests/src/.gitkeep".to_owned(),
        ]
    );
}

#[test]
fn layout_is_refused_like_the_spec() {
    let spec = documented_spec();
    let existing = PathFacts {
        root_exists: true,
        root_is_dir: true,
        target_exists: true,
    };
    let error = appscreener_pattern_sync::scaffold::create_rule_scaffold(&spec, existing).unwrap_err();
    assert_eq!(
        error.message(),
        format!(
            "target directory already exists: {}/{}",
            spec.rules_root, spec.dir_name
        )
    );
}

#[test]
fn staging_directory_is_hidden_next_to_target() {
    assert_eq!(
        staging_directory_name("custom-rule", 4242, 0),
        ".custom-rule.tmp-4242-0"
    );
    assert_eq!(
        staging_directory_name("custom-rule", 7, 999),
        ".custom-rule.tmp-7-999"
    );
}

#[test]
fn refuses_target_that_appeared_meanwhile() {
    assert!(ensure_target_absent("/rules/custom-rule", false).is_ok());
    let error = ensure_target_absent("/rules/custom-rule", true).unwrap_err();
    assert!(matches!(error, ScaffoldError::TargetAppeared { .. }));
    assert_eq!(
        error.message(),
        "target directory appeared during generation: /rules/custom-rule"
    );
}

#[test]
fn staging_tries_the_next_name_until_one_is_free() {
    match first_staging_action("custom-rule", 7) {
        StagingAction::Create { attempt, name } => {
            assert_eq!(attempt, 0);
            assert_eq!(name, ".custom-rule.tmp-7-0");
        }
        other => panic!("expected a creation, got {other:?}"),
    }
    match next_staging_action("/rules", "custom-rule", 7, 0, CreateOutcome::AlreadyExists) {
        StagingAction::Create { attempt, name } => {
            assert_eq!(attempt, 1);
            assert_eq!(name, ".custom-rule.tmp-7-1");
        }
        other => panic!("expected a creation, got {other:?}"),
    }
    match next_staging_action("/rules", "custom-rule", 7, 1, CreateOutcome::Created) {
        StagingAction::Use { name } => assert_eq!(name, ".custom-rule.tmp-7-1"),
        other => panic!("expected the directory, got {other:?}"),
    }
}

#[test]
fn staging_gives_up_after_the_last_name_or_on_errors() {
    match next_staging_action("/rules", "r", 1, 999, CreateOutcome::AlreadyExists) {
        StagingAction::Fail(error) => assert_eq!(
            error.message(),
            "failed to allocate a temporary directory in /rules"
        ),
        other => panic!("expected a failure, got {other:?}"),
    }
    match next_staging_action("/rules", "r", 1, 998, CreateOutcome::AlreadyExists) {
        StagingAction::Create { attempt, .. } => assert_eq!(attempt, 999),
        other => panic!("expected a creation, got {other:?}"),
    }
    let failed = CreateOutcome::Failed {
        cause: "Permission denied (os error 13)".to_owned(),
    };
    match next_staging_action("/rules", "r", 1, 3, failed) {
        StagingAction::Fail(error) => assert_eq!(
            error.message(),
            "failed to create temporary directory in /rules: Permission denied (os error 13)"
        ),
        other => panic!("expected a failure, got {other:?}"),
    }
}
