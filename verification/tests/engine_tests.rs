use tedge_gateway::json::Json;
use tedge_gateway::mqtt::message::MqttMessage;
use tedge_gateway::mqtt::topic::Topic;
use tedge_gateway::mqtt_topics::{MqttSchema, OperationType};
use tedge_gateway::string_map::StringMap;
use tedge_gateway::workflow::definition::{OperationAction, OperationWorkflow};
use tedge_gateway::workflow::engine::{Effect, Warning};
use tedge_gateway::workflow::script::{
    AwaitHandlers, BgExitHandlers, DefaultHandlers, ExitHandlers, ScriptExit, ShellScript,
    StateExcerpt,
};
use tedge_gateway::workflow::state::GenericCommandState;
use tedge_gateway::workflow::supervisor::{ActionOutcome, CommandUpdateError, WorkflowSupervisor};

fn message(topic: &str, payload: &str) -> MqttMessage {
    MqttMessage::new(&Topic::new(topic).unwrap(), payload.as_bytes().to_vec()).with_retain()
}

fn parsed(text: &str) -> serde_json::Value {
    serde_json::from_str(text).unwrap()
}

fn payload_of(message: &MqttMessage) -> serde_json::Value {
    serde_json::from_slice(&message.payload).unwrap()
}

fn states(list: Vec<(&str, OperationAction)>) -> StringMap<OperationAction> {
    let mut states = StringMap::new();
    for (name, action) in list {
        states.insert(name.to_string(), action);
    }
    states
}

fn workflow(operation: &str, list: Vec<(&str, OperationAction)>) -> OperationWorkflow {
    OperationWorkflow::try_new(
        OperationType::Custom(operation.into()),
        DefaultHandlers::new(),
        states(list),
    )
    .unwrap()
}

fn move_to(state: &str) -> OperationAction {
    OperationAction::MoveTo(state.to_string())
}

fn await_handlers(on_success: &str) -> AwaitHandlers {
    AwaitHandlers {
        timeout_sec: None,
        on_success: on_success.to_string(),
        on_error: None,
        on_timeout: None,
    }
}

/// Effects in short: what is done, and with which status.
fn shown(effects: &[Effect]) -> Vec<String> {
    effects
        .iter()
        .map(|effect| match effect {
            Effect::Persist(state) => format!("persist {}", state.status),
            Effect::Forget(topic) => format!("forget {}", topic),
            Effect::Publish(message) if message.payload.is_empty() => {
                format!("clear {}", message.topic.name())
            }
            Effect::Publish(message) => {
                let status = payload_of(message)["status"].as_str().unwrap().to_string();
                format!("publish {}", status)
            }
            Effect::Start(script) => format!("start {}", script.command),
            Effect::Perform(state, action) => {
                format!("perform {} at {}", action.to_string(), state.status)
            }
            Effect::Warn(Warning::MissingReference { reference, .. }) => {
                format!("warn of {}", reference)
            }
            Effect::Warn(Warning::UnreadableOutput { .. }) => "warn of the output".to_string(),
        })
        .collect()
}

/// The engine with a broker that hands back what the engine publishes. What
/// is left to the one who runs the engine is kept, for the test to answer.
struct Bench {
    supervisor: WorkflowSupervisor,
    inbox: Vec<MqttMessage>,
    retained: Vec<MqttMessage>,
    asked: Vec<(GenericCommandState, OperationAction)>,
    told: Vec<String>,
}

impl Bench {
    fn new(workflows: Vec<OperationWorkflow>) -> Bench {
        let mut supervisor = WorkflowSupervisor::new(MqttSchema::new());
        for workflow in workflows {
            supervisor.register_workflow(workflow);
        }
        Bench { supervisor, inbox: vec![], retained: vec![], asked: vec![], told: vec![] }
    }

    fn bring_about(&mut self, effects: Vec<Effect>) {
        self.told.extend(shown(&effects));
        for effect in effects {
            match effect {
                Effect::Publish(message) => {
                    self.retained.retain(|m| m.topic.name() != message.topic.name());
                    if !message.payload.is_empty() {
                        self.retained.push(message.clone());
                    }
                    self.inbox.push(message);
                }
                Effect::Perform(state, action) => self.asked.push((state, action)),
                Effect::Persist(_) | Effect::Forget(_) | Effect::Start(_) | Effect::Warn(_) => {}
            }
        }
    }

    /// Hands the engine what the broker holds for it, until nothing is left.
    fn settle(&mut self) {
        while !self.inbox.is_empty() {
            let message = self.inbox.remove(0);
            let effects = self.supervisor.on_message(&message, false).unwrap();
            self.bring_about(effects);
        }
    }

    fn send(&mut self, topic: &str, payload: &str) {
        self.inbox.push(message(topic, payload));
        self.settle();
    }

    fn answer(&mut self, outcome: ActionOutcome) {
        let (state, _) = self.asked.remove(0);
        let effects = self.supervisor.on_outcome(state, outcome);
        self.bring_about(effects);
        self.settle();
    }

    fn told(&mut self) -> Vec<String> {
        std::mem::take(&mut self.told)
    }
}

#[test]
fn the_engine_runs_the_restart_workflow() {
    let topic = "te/device/main///cmd/restart/c1";
    let mut bench = Bench::new(vec![OperationWorkflow::built_in(OperationType::Restart)]);
    bench.send(topic, r#"{"status":"init"}"#);
    assert_eq!(
        bench.told(),
        vec!["persist init", "publish scheduled", "persist scheduled", "perform builtin at scheduled"]
    );
    bench.answer(ActionOutcome::BuiltInReply { status: "executing".to_string(), fields: vec![] });
    assert_eq!(
        bench.told(),
        vec!["publish executing", "persist executing", "perform builtin at executing"]
    );
    assert_eq!(bench.retained.len(), 1);
    assert_eq!(payload_of(&bench.retained[0]), parsed(r#"{"status":"executing"}"#));

    // the agent starts again, and finds the command on the broker
    let found = bench.retained[0].clone();
    let mut bench = Bench::new(vec![OperationWorkflow::built_in(OperationType::Restart)]);
    let effects = bench.supervisor.on_message(&found, true).unwrap();
    bench.bring_about(effects);
    assert_eq!(bench.told(), vec!["persist executing", "perform builtin at executing"]);
    bench.answer(ActionOutcome::BuiltInReply { status: "successful".to_string(), fields: vec![] });
    assert_eq!(
        bench.told(),
        vec![
            "publish successful".to_string(),
            format!("forget {topic}"),
            format!("clear {topic}"),
        ]
    );
    assert!(bench.retained.is_empty());
    assert!(bench.asked.is_empty());
    assert!(bench.supervisor.commands.get(topic).is_none());
}

#[test]
fn the_engine_fails_a_command_with_its_script() {
    let topic = "te/device/main///cmd/check/c1";
    let handlers = ExitHandlers {
        on_success: None,
        on_error: Some("failed".to_string()),
        on_kill: None,
        on_exit: vec![],
        timeout_sec: None,
        excerpt: StateExcerpt::Whole,
    };
    let script = ShellScript { command: "/usr/bin/false".to_string(), args: vec![] };
    let mut bench = Bench::new(vec![workflow(
        "check",
        vec![("init", move_to("verify")), ("verify", OperationAction::Script(script, handlers))],
    )]);
    bench.send(topic, r#"{"status":"init"}"#);
    assert_eq!(bench.told()[1..], ["publish verify", "persist verify", "perform /usr/bin/false at verify"]);
    match &bench.asked[0].1 {
        OperationAction::Script(script, _) => assert_eq!(script.command, "/usr/bin/false"),
        other => panic!("unexpected: {:?}", other),
    }
    bench.inbox.clear();
    let exit = ScriptExit::Exited { code: 1, stdout: vec![] };
    let (state, _) = bench.asked.remove(0);
    let effects = bench.supervisor.on_outcome(state, ActionOutcome::ScriptEnded(exit));
    assert_eq!(shown(&effects), vec!["publish failed"]);
    match &effects[0] {
        Effect::Publish(message) => {
            assert_eq!(message.topic.name(), topic);
            assert!(message.retain);
            assert_eq!(payload_of(message), parsed(r#"{"status":"failed","exit_code":1}"#));
        }
        other => panic!("unexpected: {:?}", other),
    }
    bench.bring_about(effects);
    bench.settle();
    assert_eq!(bench.told()[1..], [format!("forget {topic}"), format!("clear {topic}")]);
    assert!(bench.retained.is_empty());
}

#[test]
fn a_state_is_written_down_before_anything_is_published_for_it() {
    let outer = workflow(
        "outer",
        vec![
            (
                "init",
                OperationAction::Operation(
                    "inner".to_string(),
                    None,
                    StateExcerpt::Fields(vec!["x".to_string()]),
                    BgExitHandlers { on_exec: "waiting".to_string() },
                ),
            ),
            (
                "waiting",
                OperationAction::AwaitOperationCompletion(
                    await_handlers("successful"),
                    StateExcerpt::Fields(vec!["result".to_string()]),
                ),
            ),
        ],
    );
    let mut supervisor = WorkflowSupervisor::new(MqttSchema::new());
    supervisor.register_workflow(outer);
    let init = message("te/device/main///cmd/outer/c1", r#"{"status":"init","x":1,"y":2}"#);
    let effects = supervisor.on_message(&init, false).unwrap();
    assert_eq!(shown(&effects), vec!["persist init", "publish init", "publish waiting"]);
    match &effects[1] {
        Effect::Publish(first) => {
            assert_eq!(first.topic.name(), "te/device/main///cmd/inner/sub:outer:c1");
            assert_eq!(payload_of(first), parsed(r#"{"status":"init","x":1}"#));
        }
        other => panic!("unexpected: {:?}", other),
    }
    match &effects[2] {
        Effect::Publish(next) => assert_eq!(next.topic.name(), "te/device/main///cmd/outer/c1"),
        other => panic!("unexpected: {:?}", other),
    }
}

#[test]
fn the_end_of_a_triggered_command_carries_on_the_command_that_triggered_it() {
    let outer = workflow(
        "outer",
        vec![
            (
                "init",
                OperationAction::Operation(
                    "inner".to_string(),
                    None,
                    StateExcerpt::Whole,
                    BgExitHandlers { on_exec: "waiting".to_string() },
                ),
            ),
            (
                "waiting",
                OperationAction::AwaitOperationCompletion(
                    await_handlers("successful"),
                    StateExcerpt::Fields(vec!["result".to_string()]),
                ),
            ),
        ],
    );
    let inner = workflow("inner", vec![("init", move_to("work")), ("work", OperationAction::BuiltIn)]);
    let mut bench = Bench::new(vec![outer, inner]);
    bench.send("te/device/main///cmd/outer/c1", r#"{"status":"init"}"#);
    assert_eq!(
        bench.told(),
        vec![
            "persist init",
            "publish init",
            "publish waiting",
            "persist init",
            "publish work",
            "persist waiting",
            "perform await sub-operation completion at waiting",
            "persist work",
            "perform builtin at work",
        ]
    );
    let (waiting, _) = bench.asked.remove(0);
    assert_eq!(waiting.status, "waiting");
    bench.answer(ActionOutcome::BuiltInReply {
        status: "successful".to_string(),
        fields: vec![("result".to_string(), Json::Number("7".into())), ("noise".to_string(), Json::Null)],
    });
    let told = bench.told();
    assert_eq!(told[0], "publish successful");
    // the inner command ended: the outer one goes on, and the inner one is cleared
    assert_eq!(told[1], "publish successful");
    assert_eq!(told[2], "forget te/device/main///cmd/inner/sub:outer:c1");
    assert_eq!(told[3], "clear te/device/main///cmd/inner/sub:outer:c1");
    assert_eq!(told[4], "forget te/device/main///cmd/outer/c1");
    assert_eq!(told[5], "clear te/device/main///cmd/outer/c1");
    assert_eq!(told.len(), 6);
    assert!(bench.retained.is_empty());
}

#[test]
fn the_outcome_of_a_triggered_command_goes_into_the_payload() {
    let outer = || {
        workflow(
            "outer",
            vec![
                ("init", move_to("waiting")),
                (
                    "waiting",
                    OperationAction::AwaitOperationCompletion(
                        AwaitHandlers {
                            timeout_sec: None,
                            on_success: "done".to_string(),
                            on_error: Some("undone".to_string()),
                            on_timeout: None,
                        },
                        StateExcerpt::Fields(vec!["result".to_string()]),
                    ),
                ),
                ("done", OperationAction::BuiltIn),
                ("undone", OperationAction::BuiltIn),
            ],
        )
    };
    let inner = || workflow("inner", vec![("init", OperationAction::BuiltIn)]);
    let run = |ending: &str| {
        let mut supervisor = WorkflowSupervisor::new(MqttSchema::new());
        supervisor.register_workflow(outer());
        supervisor.register_workflow(inner());
        let t = "te/device/main///cmd/outer/c1";
        supervisor.on_message(&message(t, r#"{"status":"init"}"#), false).unwrap();
        supervisor.on_message(&message(t, r#"{"status":"waiting"}"#), false).unwrap();
        let sub = "te/device/main///cmd/inner/sub:outer:c1";
        supervisor.on_message(&message(sub, r#"{"status":"init"}"#), false).unwrap();
        supervisor.on_message(&message(sub, ending), false).unwrap()
    };
    let effects = run(r#"{"status":"successful","result":7,"noise":1}"#);
    match &effects[0] {
        Effect::Publish(next) => {
            assert_eq!(next.topic.name(), "te/device/main///cmd/outer/c1");
            assert_eq!(payload_of(next), parsed(r#"{"status":"done","result":7}"#));
        }
        other => panic!("unexpected: {:?}", other),
    }
    let effects = run(r#"{"status":"failed","reason":"so"}"#);
    match &effects[0] {
        Effect::Publish(next) => {
            assert_eq!(payload_of(next), parsed(r#"{"status":"undone"}"#));
        }
        other => panic!("unexpected: {:?}", other),
    }
    let effects = run(r#"{"status":"working"}"#);
    assert_eq!(shown(&effects), vec!["persist working", "publish failed"]);
}

#[test]
fn a_command_of_an_unknown_operation_fails_once() {
    let topic = "te/device/main///cmd/unheard/c1";
    let mut bench = Bench::new(vec![]);
    bench.send(topic, r#"{"status":"init"}"#);
    assert_eq!(bench.told(), vec!["persist init", "publish failed"]);
    assert_eq!(
        payload_of(&bench.retained[0]),
        parsed(r#"{"status":"failed","reason":"unknown operation"}"#)
    );
    assert!(bench.asked.is_empty());
}

#[test]
fn a_command_in_an_unknown_state_fails() {
    let topic = "te/device/main///cmd/restart/c1";
    let mut bench = Bench::new(vec![OperationWorkflow::built_in(OperationType::Restart)]);
    bench.send(topic, r#"{"status":"init"}"#);
    bench.told();
    bench.asked.clear();
    bench.send(topic, r#"{"status":"dreaming"}"#);
    assert_eq!(
        bench.told(),
        vec![
            "persist dreaming".to_string(),
            "publish failed".to_string(),
            format!("forget {topic}"),
            format!("clear {topic}"),
        ]
    );
}

#[test]
fn messages_that_start_no_command_are_not_taken() {
    let topic = "te/device/main///cmd/restart/c1";
    let mut bench = Bench::new(vec![OperationWorkflow::built_in(OperationType::Restart)]);
    let late = message(topic, r#"{"status":"executing"}"#);
    assert!(matches!(
        bench.supervisor.on_message(&late, false),
        Err(CommandUpdateError::NotStarted { topic: t }) if t == topic
    ));
    assert!(bench.supervisor.commands.get(topic).is_none());
    let broken = message(topic, "{");
    assert!(matches!(
        bench.supervisor.on_message(&broken, false),
        Err(CommandUpdateError::InvalidPayload { topic: t }) if t == topic
    ));
    assert!(matches!(
        bench.supervisor.on_message(&broken, true),
        Err(CommandUpdateError::InvalidPayload { .. })
    ));
    // nothing is done for a command that was cleared, however often
    let cleared = message(topic, "");
    assert!(bench.supervisor.on_message(&cleared, false).unwrap().is_empty());
    assert!(bench.supervisor.on_message(&cleared, false).unwrap().is_empty());
    assert!(bench.supervisor.on_message(&cleared, true).unwrap().is_empty());
}

#[test]
fn an_outcome_that_comes_too_late_is_dropped() {
    let topic = "te/device/main///cmd/restart/c1";
    let mut bench = Bench::new(vec![OperationWorkflow::built_in(OperationType::Restart)]);
    bench.send(topic, r#"{"status":"init"}"#);
    let (scheduled, _) = bench.asked.remove(0);
    bench.send(topic, r#"{"status":"executing"}"#);
    bench.told();
    let reply = || ActionOutcome::BuiltInReply { status: "successful".to_string(), fields: vec![] };
    assert!(bench.supervisor.on_outcome(scheduled, reply()).is_empty());
    let (executing, _) = bench.asked.remove(0);
    assert_eq!(shown(&bench.supervisor.on_outcome(executing, reply())), vec!["publish successful"]);
}

#[test]
fn the_agent_finds_the_command_that_awaited_its_restart() {
    let upgrade = || {
        workflow(
            "upgrade",
            vec![
                ("init", move_to("restarting")),
                ("restarting", OperationAction::AwaitingAgentRestart(await_handlers("restarted"))),
                ("restarted", move_to("successful")),
            ],
        )
    };
    let topic = "te/device/main///cmd/upgrade/c1";
    let mut bench = Bench::new(vec![upgrade()]);
    bench.send(topic, r#"{"status":"init"}"#);
    assert_eq!(
        bench.told(),
        vec![
            "persist init",
            "publish restarting",
            "persist restarting",
            "perform await agent restart at restarting",
        ]
    );
    let found = bench.retained[0].clone();

    // the time runs out before the agent has restarted
    bench.answer(ActionOutcome::TimedOut);
    assert_eq!(bench.told()[0], "publish failed");

    // the agent restarts in time
    let mut bench = Bench::new(vec![upgrade()]);
    let effects = bench.supervisor.on_message(&found, true).unwrap();
    bench.bring_about(effects);
    bench.settle();
    assert_eq!(
        bench.told(),
        vec![
            "persist restarting".to_string(),
            "publish restarted".to_string(),
            "persist restarted".to_string(),
            "publish successful".to_string(),
            format!("forget {topic}"),
            format!("clear {topic}"),
        ]
    );
    assert!(bench.asked.is_empty());
}

#[test]
fn a_background_script_is_started_and_not_awaited() {
    let script = ShellScript {
        command: "/bin/restart".to_string(),
        args: vec!["${.payload.when}".to_string()],
    };
    let mut bench = Bench::new(vec![workflow(
        "reboot",
        vec![
            ("init", OperationAction::BgScript(script, BgExitHandlers { on_exec: "waiting".to_string() })),
            ("waiting", OperationAction::BuiltIn),
        ],
    )]);
    let init = message("te/device/main///cmd/reboot/c1", r#"{"status":"init","when":"now"}"#);
    let effects = bench.supervisor.on_message(&init, false).unwrap();
    assert_eq!(shown(&effects), vec!["persist init", "start /bin/restart", "publish waiting"]);
    match &effects[1] {
        Effect::Start(script) => assert_eq!(script.args, vec!["now"]),
        other => panic!("unexpected: {:?}", other),
    }
}

#[test]
fn a_script_can_give_the_input_of_a_triggered_command() {
    let topic = "te/device/main///cmd/outer/c1";
    let outer = || {
        workflow(
            "outer",
            vec![
                (
                    "init",
                    OperationAction::Operation(
                        "inner".to_string(),
                        Some(ShellScript {
                            command: "/bin/input".to_string(),
                            args: vec!["${.payload.x}".to_string()],
                        }),
                        StateExcerpt::Fields(vec!["x".to_string()]),
                        BgExitHandlers { on_exec: "waiting".to_string() },
                    ),
                ),
                ("waiting", OperationAction::BuiltIn),
            ],
        )
    };
    let start = || {
        let mut supervisor = WorkflowSupervisor::new(MqttSchema::new());
        supervisor.register_workflow(outer());
        let init = message(topic, r#"{"status":"init","x":1,"y":2}"#);
        let mut effects = supervisor.on_message(&init, false).unwrap();
        assert_eq!(
            shown(&effects),
            vec!["persist init", "perform execute inner as sub-operation, with input payload derived from: /bin/input 1 at init"]
        );
        match effects.remove(1) {
            Effect::Perform(state, _) => (supervisor, state),
            other => panic!("unexpected: {:?}", other),
        }
    };

    let (supervisor, state) = start();
    let exit = ScriptExit::Exited { code: 0, stdout: br#"{"z":3,"x":"one"}"#.to_vec() };
    let effects = supervisor.on_outcome(state, ActionOutcome::ScriptEnded(exit));
    assert_eq!(shown(&effects), vec!["publish init", "publish waiting"]);
    match &effects[0] {
        Effect::Publish(first) => {
            assert_eq!(first.topic.name(), "te/device/main///cmd/inner/sub:outer:c1");
            assert_eq!(payload_of(first), parsed(r#"{"status":"init","x":"one","z":3}"#));
        }
        other => panic!("unexpected: {:?}", other),
    }

    // an output that is no object gives no field
    let (supervisor, state) = start();
    let exit = ScriptExit::Exited { code: 0, stdout: b"done".to_vec() };
    let effects = supervisor.on_outcome(state, ActionOutcome::ScriptEnded(exit));
    match &effects[0] {
        Effect::Publish(first) => assert_eq!(payload_of(first), parsed(r#"{"status":"init","x":1}"#)),
        other => panic!("unexpected: {:?}", other),
    }

    // a script that fails triggers nothing
    let (supervisor, state) = start();
    let exit = ScriptExit::Exited { code: 2, stdout: vec![] };
    let effects = supervisor.on_outcome(state, ActionOutcome::ScriptEnded(exit));
    assert_eq!(shown(&effects), vec!["publish failed"]);
    match &effects[0] {
        Effect::Publish(next) => assert_eq!(
            payload_of(next),
            parsed(r#"{"status":"failed","x":1,"y":2,"reason":"input script failed"}"#)
        ),
        other => panic!("unexpected: {:?}", other),
    }
    let (supervisor, state) = start();
    let effects = supervisor.on_outcome(state, ActionOutcome::ScriptEnded(ScriptExit::Killed));
    assert_eq!(shown(&effects), vec!["publish failed"]);
}

#[test]
fn a_command_that_is_cleared_from_outside_is_forgotten_once() {
    let topic = "te/device/main///cmd/restart/c1";
    let mut bench = Bench::new(vec![OperationWorkflow::built_in(OperationType::Restart)]);
    bench.send(topic, r#"{"status":"init"}"#);
    assert!(bench.supervisor.commands.get(topic).is_some());
    let cleared = message(topic, "");
    let effects = bench.supervisor.on_message(&cleared, false).unwrap();
    assert_eq!(shown(&effects), vec![format!("forget {topic}")]);
    assert!(bench.supervisor.commands.get(topic).is_none());
    assert!(bench.supervisor.on_message(&cleared, false).unwrap().is_empty());
    // what comes of an action of the cleared command is dropped
    let (scheduled, _) = bench.asked.remove(0);
    let reply = ActionOutcome::BuiltInReply { status: "executing".to_string(), fields: vec![] };
    assert!(bench.supervisor.on_outcome(scheduled, reply).is_empty());
}

#[test]
fn a_warning_is_due_for_output_that_is_no_json() {
    let topic = "te/device/main///cmd/check/c1";
    let start = || {
        let handlers = ExitHandlers {
            on_success: Some("checked".to_string()),
            on_error: None,
            on_kill: None,
            on_exit: vec![],
            timeout_sec: None,
            excerpt: StateExcerpt::Whole,
        };
        let script = ShellScript { command: "/bin/check".to_string(), args: vec![] };
        let mut bench = Bench::new(vec![workflow(
            "check",
            vec![
                ("init", OperationAction::Script(script, handlers)),
                ("checked", OperationAction::BuiltIn),
            ],
        )]);
        bench.send(topic, r#"{"status":"init","x":1}"#);
        assert_eq!(bench.told(), vec!["persist init", "perform /bin/check at init"]);
        let (state, _) = bench.asked.remove(0);
        (bench, state)
    };
    let ended = |stdout: &[u8], code: i32| {
        ActionOutcome::ScriptEnded(ScriptExit::Exited { code, stdout: stdout.to_vec() })
    };

    // the script ends well: the command goes on, its payload as it was, and a warning is due
    let (bench, state) = start();
    let effects = bench.supervisor.on_outcome(state, ended(b"all is well", 0));
    assert_eq!(shown(&effects), vec!["publish checked", "warn of the output"]);
    match &effects[0] {
        Effect::Publish(next) => {
            assert_eq!(payload_of(next), parsed(r#"{"status":"checked","x":1}"#))
        }
        other => panic!("unexpected: {:?}", other),
    }
    assert!(matches!(
        &effects[1],
        Effect::Warn(Warning::UnreadableOutput { topic: t }) if t == topic
    ));
    let (bench, state) = start();
    assert_eq!(
        shown(&bench.supervisor.on_outcome(state, ended(b"", 0))),
        vec!["publish checked", "warn of the output"]
    );

    // no warning for JSON, nor for a script that failed
    let (bench, state) = start();
    let effects = bench.supervisor.on_outcome(state, ended(br#"{"y":2}"#, 0));
    assert_eq!(shown(&effects), vec!["publish checked"]);
    let (bench, state) = start();
    assert_eq!(shown(&bench.supervisor.on_outcome(state, ended(b"oops", 3))), vec!["publish failed"]);
    let (bench, state) = start();
    let killed = ActionOutcome::ScriptEnded(ScriptExit::Killed);
    assert_eq!(shown(&bench.supervisor.on_outcome(state, killed)), vec!["publish failed"]);

    assert!(ScriptExit::Exited { code: 0, stdout: b"{".to_vec() }.has_unreadable_output());
    assert!(!ScriptExit::Exited { code: 0, stdout: b"{}".to_vec() }.has_unreadable_output());
    assert!(!ScriptExit::Exited { code: 1, stdout: b"{".to_vec() }.has_unreadable_output());
    assert!(!ScriptExit::Killed.has_unreadable_output());
}

#[test]
fn a_warning_is_due_for_each_missing_reference() {
    let topic = "te/device/main///cmd/check/c1";
    let script = ShellScript {
        command: "/bin/${.payload.tool}".to_string(),
        args: vec![
            "${.payload.x}".to_string(),
            "--on=${.topic}".to_string(),
            "${.payload.deep.er}-${.nowhere}".to_string(),
        ],
    };
    let handlers = ExitHandlers {
        on_success: None,
        on_error: None,
        on_kill: None,
        on_exit: vec![],
        timeout_sec: None,
        excerpt: StateExcerpt::Whole,
    };
    let mut supervisor = WorkflowSupervisor::new(MqttSchema::new());
    supervisor.register_workflow(workflow("check", vec![("init", OperationAction::Script(script, handlers))]));
    let init = message(topic, r#"{"status":"init","x":1}"#);
    let effects = supervisor.on_message(&init, false).unwrap();
    assert_eq!(
        shown(&effects),
        vec![
            "persist init",
            "perform /bin/ 1 --on=te/device/main///cmd/check/c1 - at init",
            "warn of .payload.tool",
            "warn of .payload.deep.er",
            "warn of .nowhere",
        ]
    );
    assert!(matches!(
        &effects[2],
        Effect::Warn(Warning::MissingReference { topic: t, reference }) if t == topic && reference == ".payload.tool"
    ));
}
