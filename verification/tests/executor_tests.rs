use appscreener_pattern_sync::config::PatternSettings;
use appscreener_pattern_sync::dto::{PatternDto, PatternType, PatternWrite};
use appscreener_pattern_sync::local::LocalPattern;
use appscreener_pattern_sync::sync::executor::{
    apply_decision, ApplyDecision, ExecAction, ExecError, ExecEvent, Stage, SyncExecution,
};
use appscreener_pattern_sync::sync::planner::build_sync_plan;
use appscreener_pattern_sync::xml::xml_sha256;

fn local_pattern(name: &str, xml: &str) -> LocalPattern {
    LocalPattern {
        source_path: format!("patterns/{name}.xml"),
        file_name: format!("{name}.xml"),
        name: name.to_owned(),
        xml: xml.to_owned(),
        xml_hash: xml_sha256(xml),
        settings: PatternSettings {
            pattern_type: Some(PatternType::Dataflow),
            severity: Some(3),
            confidence: Some(1),
            active: Some(true),
            ..PatternSettings::default()
        },
    }
}

fn server_pattern(uuid: &str, name: &str, xml: &str) -> PatternDto {
    PatternDto {
        uuid: Some(uuid.to_owned()),
        rule_id: Some("rule-id".to_owned()),
        severity: Some(3),
        confidence: Some(1),
        name: name.to_owned(),
        xml: xml.to_owned(),
        pattern_type: Some(PatternType::Dataflow),
        active: Some(true),
        shared: None,
        user: None,
        query_type: None,
        file_regex: None,
    }
}

/// A server that stores what it is asked to store.
struct FakeServer {
    patterns: Vec<PatternDto>,
    next_uuid: u32,
}

impl FakeServer {
    fn save(&mut self, write: &PatternWrite) {
        let uuid = write.uuid.clone().unwrap();
        let dto = PatternDto {
            uuid: Some(uuid.clone()),
            rule_id: Some(write.rule_id.clone()),
            severity: Some(write.severity),
            confidence: Some(write.confidence),
            name: write.name.clone(),
            xml: write.xml.clone(),
            pattern_type: Some(write.pattern_type),
            active: Some(write.active),
            shared: write.shared,
            user: write.user.clone(),
            query_type: write.query_type,
            file_regex: write.file_regex.clone(),
        };
        match self
            .patterns
            .iter()
            .position(|p| p.uuid.as_deref() == Some(uuid.as_str()))
        {
            Some(index) => self.patterns[index] = dto,
            None => self.patterns.push(dto),
        }
    }
}

fn run(execution: &mut SyncExecution, server: &mut FakeServer) -> (Vec<&'static str>, ExecAction) {
    let mut trace = Vec::new();
    let mut event = ExecEvent::Start;
    loop {
        assert!(execution.accepts(&event));
        let action = execution.step(event);
        event = match &action {
            ExecAction::Update(write) => {
                trace.push("PUT");
                server.save(write);
                ExecEvent::Updated
            }
            ExecAction::Create(write) => {
                trace.push("POST");
                server.next_uuid += 1;
                let mut created = write.clone();
                created.uuid = Some(format!("new-{}", server.next_uuid));
                created.shared = Some(false);
                created.user = Some("admin".to_owned());
                server.save(&created);
                ExecEvent::Created(server.patterns.last().unwrap().clone())
            }
            ExecAction::FetchPatterns => {
                trace.push("GET");
                ExecEvent::Fetched(server.patterns.clone())
            }
            ExecAction::Delete { uuid, .. } => {
                trace.push("DELETE");
                server
                    .patterns
                    .retain(|p| p.uuid.as_deref() != Some(uuid.as_str()));
                ExecEvent::Deleted
            }
            ExecAction::Finish | ExecAction::Fail(_) => return (trace, action),
        };
    }
}

#[test]
fn applies_plan_in_safe_order_and_verifies() {
    let local = vec![
        local_pattern("unchanged", "<condition/>"),
        local_pattern("changed", "<condition id=\"new\"/>"),
        local_pattern("new-pattern", "<condition id=\"new-pattern\"/>"),
    ];
    let mut server = FakeServer {
        patterns: vec![
            server_pattern("uuid-1", "unchanged", "<condition/>"),
            server_pattern("uuid-2", "changed", "<condition id=\"old\"/>"),
            server_pattern("uuid-3", "obsolete", "<condition/>"),
        ],
        next_uuid: 0,
    };
    let plan = build_sync_plan("rule-id", &local, &server.patterns).unwrap();
    assert_eq!(apply_decision(&plan, local.len(), false), ApplyDecision::Proceed);

    let mut execution = SyncExecution::new("rule-id", local, &plan);
    let (trace, last) = run(&mut execution, &mut server);
    assert_eq!(trace, vec!["PUT", "POST", "PUT", "GET", "DELETE", "GET"]);
    assert!(matches!(last, ExecAction::Finish));
    assert_eq!(execution.stage(), Stage::Done);
    assert_eq!(server.patterns.len(), 3);
    let created = server
        .patterns
        .iter()
        .find(|p| p.name == "new-pattern")
        .unwrap();
    assert_eq!(created.uuid.as_deref(), Some("new-1"));
    assert_eq!(created.user.as_deref(), Some("admin"));
}

#[test]
fn stops_before_deleting_when_a_write_did_not_stick() {
    let local = vec![local_pattern("changed", "<condition id=\"new\"/>")];
    let mut server = FakeServer {
        patterns: vec![
            server_pattern("uuid-2", "changed", "<condition id=\"old\"/>"),
            server_pattern("uuid-3", "obsolete", "<condition/>"),
        ],
        next_uuid: 0,
    };
    let plan = build_sync_plan("rule-id", &local, &server.patterns).unwrap();
    let mut execution = SyncExecution::new("rule-id", local, &plan);

    let action = execution.step(ExecEvent::Start);
    assert!(matches!(action, ExecAction::Update(_)));
    // The server ignores the update.
    let action = execution.step(ExecEvent::Updated);
    assert!(matches!(action, ExecAction::FetchPatterns));
    let action = execution.step(ExecEvent::Fetched(server.patterns.clone()));
    match action {
        ExecAction::Fail(error) => {
            assert!(matches!(error, ExecError::NotPresent { create: 0, update: 1 }));
            assert_eq!(
                error.message(),
                "post-write verification failed: create=0, update=1"
            );
        }
        other => panic!("expected a failure, got {other:?}"),
    }
    assert_eq!(execution.stage(), Stage::Failed);
    server.patterns.truncate(2);
    assert_eq!(server.patterns.len(), 2);
}

#[test]
fn refuses_created_pattern_without_uuid() {
    let local = vec![local_pattern("fresh", "<condition/>")];
    let plan = build_sync_plan("rule-id", &local, &[]).unwrap();
    let mut execution = SyncExecution::new("rule-id", local, &plan);
    assert!(matches!(
        execution.step(ExecEvent::Start),
        ExecAction::Create(_)
    ));
    let mut created = server_pattern("x", "fresh", "<condition/>");
    created.uuid = None;
    match execution.step(ExecEvent::Created(created)) {
        ExecAction::Fail(error) => assert_eq!(
            error.message(),
            "appScreener created a pattern but returned no UUID"
        ),
        other => panic!("expected a failure, got {other:?}"),
    }
}

#[test]
fn apply_decision_guards_empty_directories() {
    let server = vec![server_pattern("uuid-3", "obsolete", "<condition/>")];
    let plan = build_sync_plan("rule-id", &[], &server).unwrap();
    assert_eq!(apply_decision(&plan, 0, false), ApplyDecision::RefuseEmpty);
    assert_eq!(apply_decision(&plan, 0, true), ApplyDecision::Proceed);
    let empty = build_sync_plan("rule-id", &[], &[]).unwrap();
    assert_eq!(apply_decision(&empty, 0, false), ApplyDecision::UpToDate);
}

#[test]
fn final_check_reports_count_mismatch() {
    // Two local patterns whose names match the same server pattern.
    let local = vec![
        local_pattern("same", "<condition/>"),
        local_pattern("same", "<condition/>"),
    ];
    let server = vec![server_pattern("uuid-1", "same", "<condition/>")];
    let plan = build_sync_plan("rule-id", &local, &server).unwrap();
    assert!(!plan.has_writes());
    let mut execution = SyncExecution::new("rule-id", local, &plan);
    assert!(matches!(
        execution.step(ExecEvent::Start),
        ExecAction::FetchPatterns
    ));
    assert!(matches!(
        execution.step(ExecEvent::Fetched(server.clone())),
        ExecAction::FetchPatterns
    ));
    match execution.step(ExecEvent::Fetched(server)) {
        ExecAction::Fail(error) => assert_eq!(
            error.message(),
            "final pattern count mismatch: local=2, server=1"
        ),
        other => panic!("expected a failure, got {other:?}"),
    }
}

#[test]
fn replanning_after_apply_finds_nothing_to_do() {
    let locals = || {
        vec![
            local_pattern("unchanged", "<condition/>"),
            local_pattern("changed", "<condition id=\"new\"/>"),
            local_pattern("new-pattern", "<condition id=\"new-pattern\"/>"),
        ]
    };
    let mut server = FakeServer {
        patterns: vec![
            server_pattern("uuid-1", "unchanged", "<condition/>"),
            server_pattern("uuid-2", "changed", "<condition id=\"old\"/>"),
            server_pattern("uuid-3", "obsolete", "<condition/>"),
        ],
        next_uuid: 0,
    };
    let plan = build_sync_plan("rule-id", &locals(), &server.patterns).unwrap();
    let mut execution = SyncExecution::new("rule-id", locals(), &plan);
    let (_, last) = run(&mut execution, &mut server);
    assert!(matches!(last, ExecAction::Finish));

    let again = build_sync_plan("rule-id", &locals(), &server.patterns).unwrap();
    assert!(!again.has_writes());
    let counts = again.counts();
    assert_eq!(
        (counts.create, counts.update, counts.skip, counts.delete),
        (0, 0, 3, 0)
    );
    assert_eq!(
        again.report_lines().last().unwrap(),
        "Summary: create=0, update=0, skip=3, delete=0"
    );
}
