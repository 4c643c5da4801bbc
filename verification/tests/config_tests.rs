use appscreener_pattern_sync::config::{
    ConfigError, Manifest, ManifestEntry, PatternSettings, SettingsProblem,
};
use appscreener_pattern_sync::dto::PatternType;

fn settings() -> PatternSettings {
    PatternSettings::default()
}

fn entry(key: &str, settings: PatternSettings) -> ManifestEntry {
    ManifestEntry {
        key: key.to_owned(),
        settings,
    }
}

#[test]
fn applies_defaults_and_specific_overrides() {
    // version: 1
    // defaults: { type: DATAFLOW, active: true, confidence: 3 }
    // patterns: { source: { confidence: 5, severity: 2 } }
    let manifest = Manifest::new(
        1,
        PatternSettings {
            pattern_type: Some(PatternType::Dataflow),
            active: Some(true),
            confidence: Some(3),
            ..settings()
        },
        vec![entry(
            "source",
            PatternSettings {
                confidence: Some(5),
                severity: Some(2),
                ..settings()
            },
        )],
    );

    manifest.validate().unwrap();

    let resolved = manifest.resolve("source", "source.xml").unwrap();

    assert_eq!(resolved.settings.pattern_type, Some(PatternType::Dataflow));

    assert_eq!(resolved.settings.active, Some(true));

    assert_eq!(resolved.settings.confidence, Some(5));

    assert_eq!(resolved.settings.severity, Some(2));
}

#[test]
fn rejects_missing_type() {
    // version: 1
    // defaults: { active: true }
    // patterns: {}
    let manifest = Manifest::new(
        1,
        PatternSettings {
            active: Some(true),
            ..settings()
        },
        vec![],
    );

    manifest.validate().unwrap();

    assert!(manifest.resolve("source", "source.xml").is_err());
}

#[test]
fn rejects_name_in_defaults() {
    // version: 1
    // defaults: { name: same-name, type: DATAFLOW }
    let manifest = Manifest::new(
        1,
        PatternSettings {
            name: Some("same-name".to_owned()),
            pattern_type: Some(PatternType::Dataflow),
            ..settings()
        },
        vec![],
    );

    assert!(manifest.validate().is_err());
}

fn dataflow_manifest(patterns: Vec<ManifestEntry>) -> Manifest {
    Manifest::new(
        1,
        PatternSettings {
            pattern_type: Some(PatternType::Dataflow),
            severity: Some(3),
            confidence: Some(1),
            ..settings()
        },
        patterns,
    )
}

#[test]
fn merges_every_field_and_defaults_active_to_true() {
    let defaults = PatternSettings {
        pattern_type: Some(PatternType::Reporting),
        severity: Some(1),
        confidence: Some(1),
        file_regex: Some(".*".to_owned()),
        ..settings()
    };
    let specific = PatternSettings {
        name: Some("custom".to_owned()),
        severity: Some(0),
        ..settings()
    };
    let merged = PatternSettings::merged(&defaults, &specific);
    assert_eq!(merged.name.as_deref(), Some("custom"));
    assert_eq!(merged.pattern_type, Some(PatternType::Reporting));
    assert_eq!(merged.severity, Some(0));
    assert_eq!(merged.confidence, Some(1));
    assert_eq!(merged.active, Some(true));
    assert_eq!(merged.file_regex.as_deref(), Some(".*"));
}

#[test]
fn resolves_by_file_name_and_reports_the_key() {
    let manifest = dataflow_manifest(vec![entry(
        "P005.xml",
        PatternSettings {
            active: Some(false),
            ..settings()
        },
    )]);
    let resolved = manifest.resolve("P005", "P005.xml").unwrap();
    assert_eq!(resolved.manifest_key.as_deref(), Some("P005.xml"));
    assert_eq!(resolved.settings.active, Some(false));

    let unlisted = manifest.resolve("other", "other.xml").unwrap();
    assert_eq!(unlisted.manifest_key, None);
    assert_eq!(unlisted.settings.active, Some(true));
}

#[test]
fn rejects_both_stem_and_file_name_entries() {
    let manifest = dataflow_manifest(vec![
        entry("P003", settings()),
        entry("P003.xml", settings()),
    ]);
    let error = manifest.resolve("P003", "P003.xml").err().unwrap();
    assert!(matches!(error, ConfigError::DuplicateEntry { .. }));
    assert_eq!(
        error.message(),
        "manifest contains two entries for P003.xml: `P003` and `P003.xml`"
    );
}

#[test]
fn rejects_bad_pattern_settings() {
    let manifest = dataflow_manifest(vec![
        entry(
            "bad-severity",
            PatternSettings {
                severity: Some(4),
                ..settings()
            },
        ),
        entry(
            "blank-name",
            PatternSettings {
                name: Some("  ".to_owned()),
                ..settings()
            },
        ),
        entry(
            "empty-regex",
            PatternSettings {
                file_regex: Some(String::new()),
                ..settings()
            },
        ),
    ]);
    let error = manifest
        .resolve("bad-severity", "bad-severity.xml")
        .err()
        .unwrap();
    assert!(matches!(
        error,
        ConfigError::InvalidSettings {
            problem: SettingsProblem::SeverityOutOfRange,
            ..
        }
    ));
    assert_eq!(
        error.message(),
        "bad-severity.xml: severity must be between 0 and 3"
    );
    let error = manifest.resolve("blank-name", "blank-name.xml").err().unwrap();
    assert_eq!(error.message(), "blank-name.xml: name cannot be empty");
    let error = manifest
        .resolve("empty-regex", "empty-regex.xml")
        .err()
        .unwrap();
    assert_eq!(error.message(), "empty-regex.xml: fileRegex cannot be empty");
}

#[test]
fn reports_unused_entries_in_order() {
    let manifest = dataflow_manifest(vec![
        entry("a", settings()),
        entry("b", settings()),
        entry("c", settings()),
    ]);
    assert!(manifest
        .ensure_all_entries_used(&vec!["a".to_owned(), "b".to_owned(), "c".to_owned()])
        .is_ok());
    let error = manifest
        .ensure_all_entries_used(&vec!["b".to_owned()])
        .err()
        .unwrap();
    assert_eq!(
        error.message(),
        "manifest entries without matching XML files: a, c"
    );
}

#[test]
fn validates_manifest_header() {
    let dataflow = dataflow_manifest(vec![]);
    let manifest = Manifest::new(2, dataflow.defaults().clone(), vec![]);
    let error = manifest.validate().err().unwrap();
    assert_eq!(error.message(), "unsupported manifest version 2; expected 1");

    let mut defaults = dataflow.defaults().clone();
    defaults.severity = Some(-1);
    let manifest = Manifest::new(1, defaults, vec![]);
    let error = manifest.validate().err().unwrap();
    assert_eq!(error.message(), "defaults.severity must be between 0 and 3");

    let manifest = dataflow_manifest(vec![entry(" ", settings())]);
    let error = manifest.validate().err().unwrap();
    assert_eq!(error.message(), "manifest pattern key cannot be empty");
}

#[test]
fn rejects_missing_severity_or_confidence() {
    let manifest = Manifest::new(
        1,
        PatternSettings {
            pattern_type: Some(PatternType::Dataflow),
            ..settings()
        },
        vec![entry(
            "rated",
            PatternSettings {
                severity: Some(2),
                ..settings()
            },
        )],
    );
    let error = manifest.resolve("p", "p.xml").err().unwrap();
    assert!(matches!(
        error,
        ConfigError::InvalidSettings {
            problem: SettingsProblem::MissingSeverity,
            ..
        }
    ));
    assert_eq!(
        error.message(),
        "p.xml: `severity` must be configured in defaults or in the pattern entry"
    );
    let error = manifest.resolve("rated", "rated.xml").err().unwrap();
    assert_eq!(
        error.message(),
        "rated.xml: `confidence` must be configured in defaults or in the pattern entry"
    );
}

#[test]
fn manifest_keeps_entries_in_key_order_with_the_last_of_a_key() {
    let manifest = dataflow_manifest(vec![
        entry(
            "b",
            PatternSettings {
                severity: Some(1),
                ..settings()
            },
        ),
        entry("a", settings()),
        entry(
            "b",
            PatternSettings {
                severity: Some(2),
                ..settings()
            },
        ),
        entry("B", settings()),
    ]);
    assert_eq!(manifest.version(), 1);
    let keys: Vec<&str> = manifest.entries().iter().map(|e| e.key.as_str()).collect();
    assert_eq!(keys, vec!["B", "a", "b"]);
    assert_eq!(manifest.entries()[2].settings.severity, Some(2));
}
