use tedge_gateway::json::Json;
use tedge_gateway::mqtt::topic::Topic;
use tedge_gateway::mqtt_topics::MqttSchema;
use tedge_gateway::workflow::definition::{OperationAction, WorkflowDefinitionError};
use tedge_gateway::workflow::loader::{
    load_workflows, parse_number, read_action, read_workflow, Loaded, WorkflowFile,
};
use tedge_gateway::workflow::script::{ScriptExit, StateExcerpt};
use tedge_gateway::workflow::supervisor::{ActionOutcome, WorkflowSupervisor};

fn json(text: &str) -> Json {
    Json::parse(text.as_bytes()).unwrap()
}

fn action(text: &str) -> Result<OperationAction, String> {
    match json(text) {
        Json::Object(fields) => read_action(&fields),
        _ => panic!("an object was expected"),
    }
}

#[test]
fn numbers_are_read() {
    assert_eq!(parse_number("0", 10), Some(0));
    assert_eq!(parse_number("007", 10), Some(7));
    assert_eq!(parse_number("10", 10), Some(10));
    assert_eq!(parse_number("11", 10), None);
    assert_eq!(parse_number("", 10), None);
    assert_eq!(parse_number("1a", 100), None);
    assert_eq!(parse_number("-1", 100), None);
    assert_eq!(parse_number("18446744073709551615", u64::MAX), Some(u64::MAX));
    assert_eq!(parse_number("18446744073709551616", u64::MAX), None);
    assert_eq!(parse_number("99999999999999999999999", u64::MAX), None);
}

#[test]
fn actions_are_read() {
    assert!(matches!(
        action(r#"{"action":"proceed","on_success":"next"}"#),
        Ok(OperationAction::MoveTo(next)) if next == "next"
    ));
    assert!(matches!(action(r#"{"action":"builtin"}"#), Ok(OperationAction::BuiltIn)));
    assert!(matches!(action(r#"{"action":"cleanup"}"#), Ok(OperationAction::Clear)));
    match action(r#"{"action":"await-agent-restart","on_success":"up","on_timeout":"late","timeout_sec":30}"#) {
        Ok(OperationAction::AwaitingAgentRestart(handlers)) => {
            assert_eq!(handlers.on_success, "up");
            assert_eq!(handlers.on_timeout, Some("late".to_string()));
            assert_eq!(handlers.on_error, None);
            assert_eq!(handlers.timeout_sec, Some(30));
        }
        other => panic!("unexpected: {:?}", other),
    }
    match action(r#"{"action":"await-operation-completion","on_success":"done","output":["a","b"]}"#) {
        Ok(OperationAction::AwaitOperationCompletion(handlers, StateExcerpt::Fields(names))) => {
            assert_eq!(handlers.on_success, "done");
            assert_eq!(names, vec!["a", "b"]);
        }
        other => panic!("unexpected: {:?}", other),
    }
    match action(
        r#"{"script":"/bin/check  --level ${.payload.level} ","on_success":"ok","on_exit":{"2":"retry","3":"skip"},"timeout_sec":5}"#,
    ) {
        Ok(OperationAction::Script(script, handlers)) => {
            assert_eq!(script.command, "/bin/check");
            assert_eq!(script.args, vec!["--level", "${.payload.level}"]);
            assert_eq!(handlers.on_success, Some("ok".to_string()));
            assert_eq!(handlers.on_exit, vec![(2, "retry".to_string()), (3, "skip".to_string())]);
            assert_eq!(handlers.timeout_sec, Some(5));
            assert!(matches!(handlers.excerpt, StateExcerpt::Whole));
        }
        other => panic!("unexpected: {:?}", other),
    }
    match action(r#"{"background_script":"sudo systemctl restart tedge-agent","on_exec":"waiting"}"#) {
        Ok(OperationAction::BgScript(script, handlers)) => {
            assert_eq!(script.to_string(), "sudo systemctl restart tedge-agent");
            assert_eq!(handlers.on_exec, "waiting");
        }
        other => panic!("unexpected: {:?}", other),
    }
    match action(r#"{"operation":"inner","input_script":"in.sh x","input":["logfile"],"on_exec":"waiting"}"#) {
        Ok(OperationAction::Operation(name, Some(script), StateExcerpt::Fields(names), handlers)) => {
            assert_eq!(name, "inner");
            assert_eq!(script.command, "in.sh");
            assert_eq!(names, vec!["logfile"]);
            assert_eq!(handlers.on_exec, "waiting");
        }
        other => panic!("unexpected: {:?}", other),
    }
}

#[test]
fn malformed_actions_name_the_field_at_fault() {
    let cases = [
        (r#"{}"#, "action"),
        (r#"{"action":"jump"}"#, "action"),
        (r#"{"action":7}"#, "action"),
        (r#"{"action":"proceed"}"#, "on_success"),
        (r#"{"action":"await-agent-restart"}"#, "on_success"),
        (r#"{"action":"await-agent-restart","on_success":"x","timeout_sec":"soon"}"#, "timeout_sec"),
        (r#"{"action":"await-agent-restart","on_success":"x","timeout_sec":1.5}"#, "timeout_sec"),
        (r#"{"action":"await-operation-completion","on_success":"x","output":"all"}"#, "output"),
        (r#"{"action":"await-operation-completion","on_success":"x","output":[1]}"#, "output"),
        (r#"{"script":"   "}"#, "script"),
        (r#"{"script":["a"]}"#, "script"),
        (r#"{"script":"x","on_error":false}"#, "on_error"),
        (r#"{"script":"x","on_exit":{"two":"x"}}"#, "on_exit"),
        (r#"{"script":"x","on_exit":{"2":3}}"#, "on_exit"),
        (r#"{"script":"x","on_exit":[]}"#, "on_exit"),
        (r#"{"background_script":"x"}"#, "on_exec"),
        (r#"{"operation":"x"}"#, "on_exec"),
        (r#"{"operation":"x","on_exec":"y","input_script":""}"#, "input_script"),
    ];
    for (text, field) in cases {
        assert_eq!(action(text).unwrap_err(), field, "{}", text);
    }
}

const VERIFY: &str = r#"{
    "operation": "check",
    "on_error": "failed",
    "timeout_sec": 60,
    "states": {
        "init": {"action": "proceed", "on_success": "verify"},
        "verify": {"script": "/usr/bin/false", "on_error": "failed"}
    }
}"#;

#[test]
fn a_workflow_is_read_from_its_definition() {
    let workflow = read_workflow(&json(VERIFY)).unwrap();
    assert_eq!(workflow.operation.name(), "check");
    assert!(!workflow.built_in);
    assert_eq!(workflow.handlers.timeout_sec, Some(60));
    assert_eq!(workflow.states.len(), 4);
    match workflow.states.get("verify") {
        Some(OperationAction::Script(script, handlers)) => {
            assert_eq!(script.command, "/usr/bin/false");
            assert_eq!(handlers.timeout_sec, Some(60));
            assert_eq!(handlers.on_error, Some("failed".to_string()));
            assert_eq!(handlers.on_kill, None);
        }
        other => panic!("unexpected: {:?}", other),
    }
}

#[test]
fn a_workflow_read_from_a_file_fails_with_its_script() {
    let mut supervisor = WorkflowSupervisor::new(MqttSchema::new());
    supervisor.register_workflow(read_workflow(&json(VERIFY)).unwrap());
    let topic = Topic::new("te/device/main///cmd/check/c1").unwrap();
    let state = supervisor.apply_external_update(&topic, br#"{"status":"init"}"#).unwrap().unwrap();
    let state = supervisor.advance(state, ActionOutcome::Done).unwrap();
    assert_eq!(state.status, "verify");
    let exit = ScriptExit::Exited { code: 1, stdout: vec![] };
    let state = supervisor.advance(state, ActionOutcome::ScriptEnded(exit)).unwrap();
    assert_eq!(state.status, "failed");
    let payload: serde_json::Value = serde_json::from_str(&state.payload.to_text().unwrap()).unwrap();
    assert_eq!(payload["exit_code"], 1);
}

#[test]
fn malformed_definitions_are_refused() {
    let cases = [
        (r#"[]"#, "", None),
        (r#"{"states":{}}"#, "operation", None),
        (r#"{"operation":"x"}"#, "states", None),
        (r#"{"operation":"x","states":[]}"#, "states", None),
        (r#"{"operation":"x","timeout_sec":"x","states":{}}"#, "timeout_sec", None),
        (r#"{"operation":"x","on_error":1,"states":{}}"#, "on_error", None),
        (r#"{"operation":"x","states":{"init":"proceed"}}"#, "", Some("init")),
        (r#"{"operation":"x","states":{"a":{"action":"builtin"},"init":{"action":"proceed"}}}"#, "on_success", Some("init")),
    ];
    for (text, expected_field, expected_state) in cases {
        match (read_workflow(&json(text)).unwrap_err(), expected_state) {
            (WorkflowDefinitionError::MalformedDefinition { field }, None) => {
                assert_eq!(field, expected_field, "{}", text)
            }
            (WorkflowDefinitionError::MalformedState { state, field }, Some(expected)) => {
                assert_eq!((state.as_str(), field.as_str()), (expected, expected_field), "{}", text)
            }
            (other, _) => panic!("unexpected: {:?}", other),
        }
    }
    assert!(matches!(
        read_workflow(&json(r#"{"operation":"x","states":{"start":{"action":"builtin"}}}"#)).unwrap_err(),
        WorkflowDefinitionError::MissingState { .. }
    ));
    assert!(matches!(
        read_workflow(&json(r#"{"operation":"x","states":{"init":{"action":"proceed","on_success":"lost"}}}"#))
            .unwrap_err(),
        WorkflowDefinitionError::UnknownTarget { .. }
    ));
}

#[test]
fn one_bad_file_does_not_keep_the_others_from_loading() {
    let files = vec![
        WorkflowFile { name: "check".to_string(), definition: Some(json(VERIFY)) },
        WorkflowFile { name: "check~".to_string(), definition: Some(json(VERIFY)) },
        WorkflowFile { name: "broken".to_string(), definition: Some(json("{}")) },
        WorkflowFile { name: "unreadable".to_string(), definition: None },
        WorkflowFile { name: ".hidden".to_string(), definition: None },
        WorkflowFile {
            name: "restart_2".to_string(),
            definition: Some(json(
                r#"{"operation":"restart","states":{"init":{"action":"proceed","on_success":"successful"}}}"#,
            )),
        },
    ];
    let outcomes = load_workflows(&files);
    assert_eq!(outcomes.len(), 6);
    assert!(matches!(&outcomes[0], Loaded::Accepted(w) if w.operation.name() == "check"));
    assert!(matches!(&outcomes[1], Loaded::Ignored));
    assert!(matches!(&outcomes[2], Loaded::Rejected(WorkflowDefinitionError::MalformedDefinition { .. })));
    assert!(matches!(&outcomes[3], Loaded::Unreadable));
    assert!(matches!(&outcomes[4], Loaded::Ignored));
    assert!(matches!(&outcomes[5], Loaded::Accepted(w) if w.operation.name() == "restart"));
}
