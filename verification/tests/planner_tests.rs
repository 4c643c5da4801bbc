use appscreener_pattern_sync::config::PatternSettings;
use appscreener_pattern_sync::dto::{PatternDto, PatternType, QueryType};
use appscreener_pattern_sync::local::LocalPattern;
use appscreener_pattern_sync::sync::model::PlannedOperation;
use appscreener_pattern_sync::sync::planner::{build_sync_plan, normalized_name, PlanError};
use appscreener_pattern_sync::xml::xml_sha256;

fn local_pattern(name: &str, xml: &str) -> LocalPattern {
    LocalPattern {
        source_path: format!("patterns/{name}.xml"),
        file_name: format!("{name}.xml"),
        name: name.to_owned(),
        xml: xml.to_owned(),
        xml_hash: xml_sha256(xml),

        settings: PatternSettings {
            pattern_type: Some(PatternType::Dataflow),

            severity: Some(3),

            confidence: Some(1),

            active: Some(true),

            ..PatternSettings::default()
        },
    }
}

fn server_pattern(uuid: &str, name: &str, xml: &str) -> PatternDto {
    PatternDto {
        uuid: Some(uuid.to_owned()),
        rule_id: Some("rule-id".to_owned()),
        severity: Some(3),
        confidence: Some(1),
        name: name.to_owned(),
        xml: xml.to_owned(),

        pattern_type: Some(PatternType::Dataflow),

        active: Some(true),
        shared: None,
        user: None,
        query_type: None,
        file_regex: None,
    }
}

#[test]
fn creates_updates_skips_and_deletes() {
    let local = vec![
        local_pattern("unchanged", "<condition/>"),
        local_pattern("changed", "<condition id=\"new\"/>"),
        local_pattern("new-pattern", "<condition id=\"new-pattern\"/>"),
    ];

    let server = vec![
        server_pattern("uuid-1", "unchanged", "<condition/>"),
        server_pattern("uuid-2", "changed", "<condition id=\"old\"/>"),
        server_pattern("uuid-3", "obsolete", "<condition/>"),
    ];

    let plan = build_sync_plan("rule-id", &local, &server).unwrap();

    let counts = plan.counts();

    assert_eq!(counts.create, 1);
    assert_eq!(counts.update, 1);
    assert_eq!(counts.skip, 1);
    assert_eq!(counts.delete, 1);
}

#[test]
fn rejects_duplicate_server_names() {
    let server = vec![
        server_pattern("uuid-1", "Pattern", "<condition/>"),
        server_pattern("uuid-2", "pattern", "<condition/>"),
    ];

    let error = build_sync_plan("rule-id", &[], &server).unwrap_err();

    assert!(error.message().contains("duplicate pattern names"));
}

#[test]
fn updates_pattern_when_type_is_missing() {
    let local = vec![local_pattern("source", "<condition/>")];

    let mut current = server_pattern("uuid-1", "source", "<condition/>");

    current.pattern_type = None;

    let plan = build_sync_plan("rule-id", &local, &[current]).unwrap();

    assert_eq!(plan.counts().update, 1);
}

#[test]
fn matches_names_ignoring_case() {
    let local = vec![local_pattern("Pattern", "<condition/>")];

    let server = vec![server_pattern("uuid-1", "pattern", "<condition/>")];

    let plan = build_sync_plan("rule-id", &local, &server).unwrap();

    assert_eq!(plan.counts().update, 1);
}

#[test]
fn operations_follow_local_order_then_sorted_deletes() {
    let local = vec![
        local_pattern("b-new", "<condition/>"),
        local_pattern("a-same", "<condition/>"),
    ];
    let server = vec![
        server_pattern("uuid-z", "Zeta", "<condition/>"),
        server_pattern("uuid-s", "a-same", "  <condition/>\r\n"),
        server_pattern("uuid-a", "alpha", "<condition/>"),
    ];
    let plan = build_sync_plan("rule-id", &local, &server).unwrap();
    let ops = plan.operations();
    assert_eq!(ops.len(), 4);
    assert_eq!(ops[0].action_name(), "CREATE");
    assert_eq!(ops[0].pattern_name(), "b-new");
    assert_eq!(ops[0].details(), "not present on server");
    assert_eq!(ops[1].action_name(), "SKIP");
    assert_eq!(ops[1].details(), "already synchronized");
    assert_eq!(ops[2].pattern_name(), "alpha");
    assert_eq!(ops[3].pattern_name(), "Zeta");
    assert_eq!(ops[3].details(), "not present in local directory");
    assert_eq!(plan.deletes().len(), 2);
    assert_eq!(plan.creates().len(), 1);
    assert!(plan.updates().is_empty());
    assert!(plan.has_writes());
    assert_eq!(plan.counts().writes(), 3);
}

#[test]
fn update_keeps_uuid_and_server_filters() {
    let mut local = local_pattern("Source", "<condition id=\"2\"/>");
    local.settings.severity = Some(2);
    let mut current = server_pattern("uuid-7", "source ", "<condition id=\"1\"/>");
    current.severity = Some(1);
    current.confidence = Some(4);
    current.query_type = Some(QueryType::Xpath);
    current.file_regex = Some(".*\\.c".to_owned());
    current.active = None;

    let plan = build_sync_plan("rule-id", &[local], &[current]).unwrap();
    match &plan.operations()[0] {
        PlannedOperation::Update {
            before,
            desired,
            changes,
        } => {
            assert_eq!(before.uuid.as_deref(), Some("uuid-7"));
            assert_eq!(desired.uuid.as_deref(), Some("uuid-7"));
            assert_eq!(desired.rule_id, "rule-id");
            assert_eq!(desired.name, "Source");
            assert_eq!(desired.severity, 2);
            assert_eq!(desired.confidence, 1);
            assert_eq!(desired.query_type, Some(QueryType::Xpath));
            assert_eq!(desired.file_regex.as_deref(), Some(".*\\.c"));
            assert!(desired.active);
            assert_eq!(
                changes,
                &vec![
                    "name changed".to_owned(),
                    "XML changed".to_owned(),
                    "active: None -> true".to_owned(),
                    "severity: Some(1) -> 2".to_owned(),
                    "confidence: Some(4) -> 1".to_owned(),
                ]
            );
            assert_eq!(
                plan.operations()[0].details(),
                "name changed, XML changed, active: None -> true, severity: Some(1) -> 2, \
                 confidence: Some(4) -> 1"
            );
        }
        other => panic!("expected an update, got {other:?}"),
    }
}

#[test]
fn create_takes_settings_and_leaves_unset_filters_empty() {
    let local = local_pattern("fresh", "<condition/>");
    let plan = build_sync_plan("rule-id", &[local], &[]).unwrap();
    match &plan.operations()[0] {
        PlannedOperation::Create { desired } => {
            assert_eq!(desired.uuid, None);
            assert_eq!(desired.severity, 3);
            assert_eq!(desired.confidence, 1);
            assert_eq!(desired.query_type, None);
            assert_eq!(desired.file_regex, None);
            assert_eq!(desired.pattern_type, PatternType::Dataflow);
            assert_eq!(desired.shared, None);
        }
        other => panic!("expected a create, got {other:?}"),
    }
}

#[test]
fn reports_type_change_text() {
    let local = local_pattern("source", "<condition/>");
    let mut current = server_pattern("uuid-1", "source", "<condition/>");
    current.pattern_type = Some(PatternType::Reporting);
    let plan = build_sync_plan("rule-id", &[local], &[current]).unwrap();
    assert_eq!(
        plan.operations()[0].details(),
        "type: Some(Reporting) -> Dataflow"
    );
}

#[test]
fn rejects_invalid_server_patterns() {
    let mut no_uuid = server_pattern("uuid-1", "a", "<condition/>");
    no_uuid.uuid = Some("  ".to_owned());
    let error = build_sync_plan("rule-id", &[], &[no_uuid]).unwrap_err();
    assert!(matches!(error, PlanError::MissingServerUuid { .. }));
    assert_eq!(error.message(), "server pattern \"a\" has no UUID");

    let blank = server_pattern("uuid-1", " ", "<condition/>");
    let error = build_sync_plan("rule-id", &[], &[blank]).unwrap_err();
    assert!(matches!(error, PlanError::EmptyServerName));

    let mut untyped = local_pattern("a", "<condition/>");
    untyped.settings.pattern_type = None;
    let error = build_sync_plan("rule-id", &[untyped], &[]).unwrap_err();
    assert_eq!(
        error.message(),
        "internal error: pattern type was not resolved"
    );

    let mut no_severity = local_pattern("b", "<condition/>");
    no_severity.settings.severity = None;
    let mut no_confidence = local_pattern("c", "<condition/>");
    no_confidence.settings.confidence = None;
    let error = build_sync_plan(
        "rule-id",
        &[local_pattern("a", "<condition/>"), no_severity, no_confidence],
        &[],
    )
    .unwrap_err();
    assert!(matches!(error, PlanError::UnresolvedSeverity));
    assert_eq!(
        error.message(),
        "internal error: pattern severity was not resolved"
    );
    let mut no_confidence = local_pattern("c", "<condition/>");
    no_confidence.settings.confidence = None;
    let error = build_sync_plan("rule-id", &[no_confidence], &[]).unwrap_err();
    assert!(matches!(error, PlanError::UnresolvedConfidence));
}

#[test]
fn duplicate_message_names_both_patterns() {
    let server = vec![
        server_pattern("uuid-1", "Pattern", "<condition/>"),
        server_pattern("uuid-2", "other", "<condition/>"),
        server_pattern("uuid-3", " pattern ", "<condition/>"),
    ];
    let error = build_sync_plan("rule-id", &[], &server).unwrap_err();
    assert_eq!(
        error.message(),
        "server contains duplicate pattern names ignoring case: \"Pattern\" and \" pattern \""
    );
}

#[test]
fn normalizes_names_for_matching() {
    assert_eq!(normalized_name("  MiXeD Case\t"), "mixed case");
}

#[test]
fn prints_plan_as_a_table_with_summary() {
    let local = vec![
        local_pattern("P003-sensitive-source-arg2", "<condition/>"),
        local_pattern("P004-sensitive-source-arg3", "<condition id=\"new\"/>"),
        local_pattern("P005-sensitive-source-arg4", "<condition/>"),
    ];
    let server = vec![
        server_pattern("uuid-4", "P004-sensitive-source-arg3", "<condition id=\"old\"/>"),
        server_pattern("uuid-5", "P005-sensitive-source-arg4", "<condition/>"),
        server_pattern("uuid-9", "obsolete-pattern", "<condition/>"),
    ];
    let plan = build_sync_plan("rule-id", &local, &server).unwrap();
    let lines = plan.report_lines();
    let expected = vec![
        format!("{:<8} {:<45} DETAILS", "ACTION", "PATTERN"),
        format!("{:-<8} {:-<45} {:-<30}", "", "", ""),
        format!(
            "{:<8} {:<45} {}",
            "CREATE", "P003-sensitive-source-arg2", "not present on server"
        ),
        format!("{:<8} {:<45} {}", "UPDATE", "P004-sensitive-source-arg3", "XML changed"),
        format!(
            "{:<8} {:<45} {}",
            "SKIP", "P005-sensitive-source-arg4", "already synchronized"
        ),
        format!(
            "{:<8} {:<45} {}",
            "DELETE", "obsolete-pattern", "not present in local directory"
        ),
        String::new(),
        "Summary: create=1, update=1, skip=1, delete=1".to_owned(),
    ];
    assert_eq!(lines, expected);
    assert_eq!(
        lines[0],
        "ACTION   PATTERN                                       DETAILS"
    );
}

#[test]
fn long_names_are_not_cut_in_the_table() {
    let name = "a-pattern-name-that-is-longer-than-forty-five-characters";
    let plan = build_sync_plan("rule-id", &[local_pattern(name, "<condition/>")], &[]).unwrap();
    let lines = plan.report_lines();
    assert_eq!(lines[2], format!("CREATE   {name} not present on server"));
}
