//! The workflow engine: what state follows a state, and the commands that
//! are under way.

use crate::json::{field_views, remove_field, without_field, Json, JsonView};
use crate::mqtt::message::MqttMessage;
use crate::mqtt::topic::Topic;
use crate::mqtt_topics::{parsed_topic, Channel, ChannelView, MqttSchema};
use crate::string_map::StringMap;
use crate::text::{owned, same_text};
use crate::workflow::definition::{
    exit_targets, is_well_defined, ActionView, AwaitHandlersView, OperationAction,
    OperationWorkflow, WorkflowExecutionError,
};
use crate::workflow::script::{exit_target, target_or, AwaitHandlers, ScriptExit};
use crate::workflow::state::{
    command_state_of, failed_status, init_status, successful_status, CommandStateView,
    GenericCommandState,
};
use vstd::prelude::*;

verus! {

/// What came of carrying out the action of a state.
#[derive(Debug)]
pub enum ActionOutcome {
    /// The action was carried out, and there is nothing to say of it: the
    /// move was made, the script or the operation was started.
    Done,
    /// The actor of the operation answered with a status and with fields
    /// for the payload.
    BuiltInReply { status: String, fields: Vec<(String, Json)> },
    /// The script ended.
    ScriptEnded(ScriptExit),
    /// The operation that was triggered ended, with this payload.
    SubOperationEnded { successful: bool, payload: Json },
    /// The agent started again and found the command waiting for that.
    AgentRestarted,
    /// The time ran out.
    TimedOut,
}

/// An outcome as contracts speak of it.
pub enum OutcomeView {
    Done,
    BuiltInReply { status: Seq<char>, fields: Seq<(Seq<char>, JsonView)> },
    ScriptEnded { code: Option<i32>, stdout: Seq<u8> },
    SubOperationEnded { successful: bool, payload: JsonView },
    AgentRestarted,
    TimedOut,
}

impl ActionOutcome {
    pub open spec fn view(&self) -> OutcomeView {
        match self {
            ActionOutcome::Done => OutcomeView::Done,
            ActionOutcome::BuiltInReply { status, fields } => OutcomeView::BuiltInReply {
                status: status@,
                fields: field_views(fields@),
            },
            ActionOutcome::ScriptEnded(ScriptExit::Exited { code, stdout }) => {
                OutcomeView::ScriptEnded { code: Some(*code), stdout: stdout@ }
            },
            ActionOutcome::ScriptEnded(ScriptExit::Killed) => OutcomeView::ScriptEnded {
                code: None,
                stdout: Seq::empty(),
            },
            ActionOutcome::SubOperationEnded { successful, payload } => {
                OutcomeView::SubOperationEnded { successful: *successful, payload: payload@ }
            },
            ActionOutcome::AgentRestarted => OutcomeView::AgentRestarted,
            ActionOutcome::TimedOut => OutcomeView::TimedOut,
        }
    }
}

/// The state of a command to which something happened that its action does
/// not provide for.
pub open spec fn unexpected(state: CommandStateView) -> CommandStateView {
    state.failed_with("unexpected outcome"@)
}

/// The state after a wait ended.
pub open spec fn after_wait(
    handlers: AwaitHandlersView,
    state: CommandStateView,
    outcome: OutcomeView,
    awaited: bool,
) -> CommandStateView {
    match outcome {
        OutcomeView::TimedOut => state.moved_to(target_or(handlers.on_timeout, failed_status())),
        _ => if awaited {
            state.moved_to(handlers.on_success)
        } else {
            unexpected(state)
        },
    }
}

/// The state that follows a state, given the state's action, the names of
/// the workflow's states, and what came of carrying the action out. No state
/// follows a state that is to be cleared.
pub open spec fn stepped(
    known: Set<Seq<char>>,
    action: ActionView,
    state: CommandStateView,
    outcome: OutcomeView,
) -> Option<CommandStateView> {
    match action {
        ActionView::Clear => None,
        ActionView::MoveTo(next) => Some(
            match outcome {
                OutcomeView::Done => state.moved_to(next),
                _ => unexpected(state),
            },
        ),
        ActionView::BuiltIn => Some(
            match outcome {
                OutcomeView::BuiltInReply { status, fields } => if known.contains(status) {
                    state.moved_to(status).with_values(without_field(fields, "status"@))
                } else {
                    state.failed_with("unknown state"@)
                },
                _ => unexpected(state),
            },
        ),
        ActionView::Script(_, handlers) => Some(
            match outcome {
                OutcomeView::ScriptEnded { code, stdout } => handlers.state_after(
                    state,
                    code,
                    stdout,
                ),
                OutcomeView::TimedOut => handlers.state_after(state, None, Seq::empty()),
                _ => unexpected(state),
            },
        ),
        ActionView::BgScript(_, on_exec) => Some(
            match outcome {
                OutcomeView::Done => state.moved_to(on_exec),
                _ => unexpected(state),
            },
        ),
        ActionView::Operation(_, script, _, on_exec) => Some(
            match outcome {
                OutcomeView::Done => state.moved_to(on_exec),
                OutcomeView::ScriptEnded { code, .. } => if script is None {
                    unexpected(state)
                } else if code == Some(0i32) {
                    state.moved_to(on_exec)
                } else {
                    state.failed_with("input script failed"@)
                },
                _ => unexpected(state),
            },
        ),
        ActionView::AwaitOperationCompletion(handlers, excerpt) => Some(
            match outcome {
                OutcomeView::SubOperationEnded { successful, payload } => if successful {
                    state.moved_to(handlers.on_success).with_values(excerpt.of(payload))
                } else {
                    state.moved_to(target_or(handlers.on_error, failed_status()))
                },
                _ => after_wait(handlers, state, outcome, false),
            },
        ),
        ActionView::AwaitingAgentRestart(handlers) => Some(
            after_wait(handlers, state, outcome, outcome is AgentRestarted),
        ),
    }
}

/// The states that can follow a state with the given action: `failed`, and
/// the states that the action leads to. After a built-in action, any state of
/// the workflow can follow. Nothing follows a state that is to be cleared.
pub open spec fn is_successor(known: Set<Seq<char>>, action: ActionView, next: Seq<char>) -> bool {
    action != ActionView::Clear && (next == failed_status() || match action {
        ActionView::MoveTo(target) => next == target,
        ActionView::BuiltIn => known.contains(next),
        ActionView::Script(_, handlers) => {
            ||| next == target_or(handlers.on_success, successful_status())
            ||| next == target_or(handlers.on_error, failed_status())
            ||| next == target_or(handlers.on_kill, failed_status())
            ||| exit_targets(handlers.on_exit).contains(next)
        },
        ActionView::BgScript(_, on_exec) => next == on_exec,
        ActionView::Operation(_, _, _, on_exec) => next == on_exec,
        ActionView::AwaitOperationCompletion(handlers, _) => {
            ||| next == handlers.on_success
            ||| next == target_or(handlers.on_error, failed_status())
            ||| next == target_or(handlers.on_timeout, failed_status())
        },
        ActionView::AwaitingAgentRestart(handlers) => {
            ||| next == handlers.on_success
            ||| next == target_or(handlers.on_error, failed_status())
            ||| next == target_or(handlers.on_timeout, failed_status())
        },
        ActionView::Clear => false,
    })
}

/// Setting fields of the payload leaves the status and the topic as they are.
pub proof fn lemma_with_values_keeps_status(
    state: CommandStateView,
    fields: Seq<(Seq<char>, JsonView)>,
)
    ensures
        state.with_values(fields).status == state.status,
        state.with_values(fields).topic == state.topic,
    decreases fields.len(),
{
    if fields.len() > 0 {
        lemma_with_values_keeps_status(state, fields.drop_last());
    }
}

proof fn lemma_exit_target_is_target(table: Seq<(i32, Seq<char>)>, code: i32)
    ensures
        exit_target(table, code) matches Some(status) ==> exit_targets(table).contains(status),
    decreases table.len(),
{
    if table.len() > 0 {
        if table[0].0 == code {
            assert(exit_targets(table)[0] == table[0].1);
        } else {
            lemma_exit_target_is_target(table.drop_first(), code);
            if let Some(status) = exit_target(table.drop_first(), code) {
                let rest = exit_targets(table.drop_first());
                let k = choose|k: int| 0 <= k < rest.len() && rest[k] == status;
                assert(exit_targets(table)[k + 1] == status);
            }
        }
    }
}

/// The state that follows a state is one of the state's successors.
pub proof fn lemma_step_follows_graph(
    known: Set<Seq<char>>,
    action: ActionView,
    state: CommandStateView,
    outcome: OutcomeView,
)
    ensures
        stepped(known, action, state, outcome) matches Some(next) ==> is_successor(
            known,
            action,
            next.status,
        ) && next.topic == state.topic,
{
    match action {
        ActionView::BuiltIn => {
            if let OutcomeView::BuiltInReply { status, fields } = outcome {
                lemma_with_values_keeps_status(
                    state.moved_to(status),
                    without_field(fields, "status"@),
                );
            }
        },
        ActionView::Script(_, handlers) => {
            let (code, stdout) = match outcome {
                OutcomeView::ScriptEnded { code, stdout } => (code, stdout),
                _ => (None, Seq::empty()),
            };
            let moved = state.moved_to(handlers.next_status(code));
            if let Some(c) = code {
                lemma_exit_target_is_target(handlers.on_exit, c);
                if c == 0 {
                    if let Some(output) = crate::json_codec::json_parsed(stdout) {
                        lemma_with_values_keeps_status(moved, handlers.excerpt.of(output));
                    }
                }
            }
        },
        ActionView::AwaitOperationCompletion(handlers, excerpt) => {
            if let OutcomeView::SubOperationEnded { successful, payload } = outcome {
                lemma_with_values_keeps_status(
                    state.moved_to(handlers.on_success),
                    excerpt.of(payload),
                );
            }
        },
        _ => {},
    }
}

/// Carries a command from a state to the next, given the state's action and
/// what came of carrying it out. Whether a warning is due for the output of
/// a script is told by `ScriptExit::has_unreadable_output`; the engine's
/// `on_outcome` gives it among its effects.
pub fn next_state(
    workflow: &OperationWorkflow,
    action: &OperationAction,
    state: GenericCommandState,
    outcome: ActionOutcome,
) -> (r: Option<GenericCommandState>)
    ensures
        match stepped(workflow.states@.dom(), action@, state@, outcome@) {
            Some(next) => r matches Some(found) && found@ == next,
            None => r is None,
        },
{
    match action {
        OperationAction::Clear => None,
        OperationAction::MoveTo(next) => Some(
            match outcome {
                ActionOutcome::Done => state.move_to(next.as_str()),
                _ => state.fail_with("unexpected outcome"),
            },
        ),
        OperationAction::BuiltIn => Some(
            match outcome {
                ActionOutcome::BuiltInReply { status, fields } => {
                    if workflow.states.contains_key(status.as_str()) {
                        state.move_to(status.as_str()).update_with_values(
                            remove_field(fields, "status"),
                        )
                    } else {
                        state.fail_with("unknown state")
                    }
                },
                _ => state.fail_with("unexpected outcome"),
            },
        ),
        OperationAction::Script(_, handlers) => Some(
            match outcome {
                ActionOutcome::ScriptEnded(exit) => handlers.state_update(state, &exit),
                ActionOutcome::TimedOut => handlers.state_update(state, &ScriptExit::Killed),
                _ => state.fail_with("unexpected outcome"),
            },
        ),
        OperationAction::BgScript(_, handlers) => Some(
            match outcome {
                ActionOutcome::Done => state.move_to(handlers.on_exec.as_str()),
                _ => state.fail_with("unexpected outcome"),
            },
        ),
        OperationAction::Operation(_, script, _, handlers) => Some(
            match outcome {
                ActionOutcome::Done => state.move_to(handlers.on_exec.as_str()),
                ActionOutcome::ScriptEnded(exit) => {
                    let ended_well = match exit {
                        ScriptExit::Exited { code, .. } => code == 0,
                        ScriptExit::Killed => false,
                    };
                    if script.is_none() {
                        state.fail_with("unexpected outcome")
                    } else if ended_well {
                        state.move_to(handlers.on_exec.as_str())
                    } else {
                        state.fail_with("input script failed")
                    }
                },
                _ => state.fail_with("unexpected outcome"),
            },
        ),
        OperationAction::AwaitOperationCompletion(handlers, excerpt) => Some(
            match outcome {
                ActionOutcome::SubOperationEnded { successful, payload } => {
                    if successful {
                        state.move_to(handlers.on_success.as_str()).update_with_values(
                            excerpt.extract_from(&payload),
                        )
                    } else {
                        state.move_to(error_target(handlers))
                    }
                },
                ActionOutcome::TimedOut => state.move_to(timeout_target(handlers)),
                _ => state.fail_with("unexpected outcome"),
            },
        ),
        OperationAction::AwaitingAgentRestart(handlers) => Some(
            match outcome {
                ActionOutcome::AgentRestarted => state.move_to(handlers.on_success.as_str()),
                ActionOutcome::TimedOut => state.move_to(timeout_target(handlers)),
                _ => state.fail_with("unexpected outcome"),
            },
        ),
    }
}

fn error_target(handlers: &AwaitHandlers) -> (status: &str)
    ensures
        status@ == target_or(AwaitHandlersView::of(*handlers).on_error, failed_status()),
{
    match &handlers.on_error {
        Some(status) => status.as_str(),
        None => "failed",
    }
}

fn timeout_target(handlers: &AwaitHandlers) -> (status: &str)
    ensures
        status@ == target_or(AwaitHandlersView::of(*handlers).on_timeout, failed_status()),
{
    match &handlers.on_timeout {
        Some(status) => status.as_str(),
        None => "failed",
    }
}

/// The state to which the engine carries a command: `failed` where the
/// workflow does not have the command's state; else the state that follows
/// by the state's action, with the values of the command put into it.
pub open spec fn advanced(
    actions: Map<Seq<char>, ActionView>,
    state: CommandStateView,
    outcome: OutcomeView,
) -> Option<CommandStateView> {
    if !actions.contains_key(state.status) {
        Some(state.failed_with("unknown step"@))
    } else {
        stepped(
            actions.dom(),
            actions[state.status].injected(state.topic, state.payload),
            state,
            outcome,
        )
    }
}

/// An edge of a workflow's state graph: both states are states of the
/// workflow, and the second can follow the first.
pub open spec fn is_transition(
    actions: Map<Seq<char>, ActionView>,
    from: Seq<char>,
    to: Seq<char>,
) -> bool {
    &&& actions.contains_key(from)
    &&& actions.contains_key(to)
    &&& is_successor(actions.dom(), actions[from], to)
}

/// A run of a command: it starts in `init`, and each state is the one to
/// which the engine carried the state before it.
pub open spec fn is_run(
    actions: Map<Seq<char>, ActionView>,
    trace: Seq<CommandStateView>,
    outcomes: Seq<OutcomeView>,
) -> bool {
    &&& trace.len() == outcomes.len() + 1
    &&& trace[0].status == init_status()
    &&& forall|i: int|
        0 <= i < outcomes.len() ==> advanced(actions, #[trigger] trace[i], outcomes[i]) == Some(
            trace[i + 1],
        )
}

proof fn lemma_successor_is_known(actions: Map<Seq<char>, ActionView>, from: Seq<char>, to: Seq<char>)
    requires
        is_well_defined(actions),
        actions.contains_key(from),
        is_successor(actions.dom(), actions[from], to),
    ensures
        actions.contains_key(to),
{
    let targets = actions[from].targets();
    if to != failed_status() {
        match actions[from] {
            ActionView::MoveTo(target) => {
                assert(targets[0] == to);
            },
            ActionView::Script(_, handlers) => {
                let a = crate::workflow::definition::optional(handlers.on_success);
                let b = crate::workflow::definition::optional(handlers.on_error);
                let c = crate::workflow::definition::optional(handlers.on_kill);
                let d = exit_targets(handlers.on_exit);
                if handlers.on_success is Some && to == handlers.on_success.unwrap() {
                    assert(targets[0] == to);
                } else if handlers.on_error is Some && to == handlers.on_error.unwrap() {
                    assert(targets[a.len() as int] == to);
                } else if handlers.on_kill is Some && to == handlers.on_kill.unwrap() {
                    assert(targets[(a.len() + b.len()) as int] == to);
                } else if d.contains(to) {
                    let k = choose|k: int| 0 <= k < d.len() && d[k] == to;
                    assert(targets[(a.len() + b.len() + c.len()) as int + k] == to);
                }
            },
            ActionView::BgScript(_, on_exec) => {
                assert(targets[0] == to);
            },
            ActionView::Operation(_, _, _, on_exec) => {
                assert(targets[0] == to);
            },
            ActionView::AwaitOperationCompletion(handlers, _) => {
                lemma_wait_target(handlers, to);
                let k = choose|k: int| 0 <= k < targets.len() && targets[k] == to;
                assert(actions.contains_key(actions[from].targets()[k]));
            },
            ActionView::AwaitingAgentRestart(handlers) => {
                lemma_wait_target(handlers, to);
                let k = choose|k: int| 0 <= k < targets.len() && targets[k] == to;
                assert(actions.contains_key(actions[from].targets()[k]));
            },
            _ => {},
        }
    }
}

proof fn lemma_wait_target(handlers: AwaitHandlersView, to: Seq<char>)
    requires
        to != failed_status(),
        to == handlers.on_success || to == target_or(handlers.on_error, failed_status()) || to
            == target_or(handlers.on_timeout, failed_status()),
    ensures
        exists|k: int| 0 <= k < handlers.targets().len() && handlers.targets()[k] == to,
{
    let targets = handlers.targets();
    let b = crate::workflow::definition::optional(handlers.on_error);
    if to == handlers.on_success {
        assert(targets[0] == to);
    } else if handlers.on_error is Some && to == handlers.on_error.unwrap() {
        assert(targets[1] == to);
    } else {
        assert(targets[1 + b.len() as int] == to);
    }
}

/// Putting a command's values into an action changes nothing of what can
/// follow it.
pub proof fn lemma_injection_keeps_successors(
    known: Set<Seq<char>>,
    action: ActionView,
    topic: Seq<char>,
    payload: JsonView,
    next: Seq<char>,
)
    ensures
        is_successor(known, action.injected(topic, payload), next) == is_successor(
            known,
            action,
            next,
        ),
{
}

/// The states that a command goes through, carried by the engine from
/// `init` on, make a path in the graph of a well-defined workflow: each
/// state is a state of the workflow, and each follows the one before it by an
/// edge of the graph.
pub proof fn lemma_run_is_path(
    actions: Map<Seq<char>, ActionView>,
    trace: Seq<CommandStateView>,
    outcomes: Seq<OutcomeView>,
)
    requires
        is_well_defined(actions),
        is_run(actions, trace, outcomes),
    ensures
        trace[0].status == init_status(),
        forall|i: int|
            0 <= i < outcomes.len() ==> is_transition(
                actions,
                (#[trigger] trace[i]).status,
                trace[i + 1].status,
            ),
    decreases outcomes.len(),
{
    if outcomes.len() > 0 {
        let n = outcomes.len() - 1;
        let shorter_trace = trace.drop_last();
        let shorter = outcomes.drop_last();
        assert forall|i: int| 0 <= i < shorter.len() implies advanced(
            actions,
            #[trigger] shorter_trace[i],
            shorter[i],
        ) == Some(shorter_trace[i + 1]) by {
            assert(advanced(actions, trace[i], outcomes[i]) == Some(trace[i + 1]));
        }
        lemma_run_is_path(actions, shorter_trace, shorter);
        assert(actions.contains_key(trace[n].status)) by {
            if n > 0 {
                assert(is_transition(
                    actions,
                    shorter_trace[n - 1].status,
                    shorter_trace[n].status,
                ));
            }
        }
        let state = trace[n];
        let action = actions[state.status];
        assert(advanced(actions, trace[n], outcomes[n]) == Some(trace[n + 1]));
        lemma_step_follows_graph(
            actions.dom(),
            action.injected(state.topic, state.payload),
            state,
            outcomes[n],
        );
        lemma_injection_keeps_successors(
            actions.dom(),
            action,
            state.topic,
            state.payload,
            trace[n + 1].status,
        );
        lemma_successor_is_known(actions, state.status, trace[n + 1].status);
        assert forall|i: int| 0 <= i < outcomes.len() implies is_transition(
            actions,
            (#[trigger] trace[i]).status,
            trace[i + 1].status,
        ) by {
            if i < n {
                assert(is_transition(
                    actions,
                    shorter_trace[i].status,
                    shorter_trace[i + 1].status,
                ));
            }
        }
    }
}

/// Why a message on a command's topic was not taken.
#[derive(Debug)]
pub enum CommandUpdateError {
    /// The payload is no state of a command.
    InvalidPayload { topic: String },
    /// The command is not known, and the message does not start it: the first
    /// state of a command must be `init`.
    NotStarted { topic: String },
}

/// Why a message on a command's topic is not taken, as contracts speak of it.
pub enum UpdateFault {
    InvalidPayload,
    NotStarted,
}

impl CommandUpdateError {
    /// Whether the error says this of this topic.
    pub open spec fn tells(self, fault: UpdateFault, topic: Seq<char>) -> bool {
        match fault {
            UpdateFault::InvalidPayload => self matches CommandUpdateError::InvalidPayload {
                topic: t,
            } && t@ == topic,
            UpdateFault::NotStarted => self matches CommandUpdateError::NotStarted { topic: t }
                && t@ == topic,
        }
    }
}

/// The operation that a command's topic names.
pub open spec fn operation_of(root: Seq<char>, topic: Seq<char>) -> Option<Seq<char>> {
    match parsed_topic(root, topic) {
        Ok((_, ChannelView::Command(operation, _))) => Some(operation),
        _ => None,
    }
}

/// The commands after a message came on a command's topic, and what the
/// message says. An empty payload clears the command. A state is taken where
/// the command is known, or where the state is `init`; it is then the
/// command's state.
pub open spec fn external_update(
    commands: Map<Seq<char>, CommandStateView>,
    topic: Seq<char>,
    payload: Seq<u8>,
) -> (Map<Seq<char>, CommandStateView>, Result<Option<CommandStateView>, UpdateFault>) {
    match command_state_of(topic, payload) {
        Err(_) => (commands, Err(UpdateFault::InvalidPayload)),
        Ok(None) => (commands.remove(topic), Ok(None)),
        Ok(Some(state)) => if commands.contains_key(topic) || state.status == init_status() {
            (commands.insert(topic, state), Ok(Some(state)))
        } else {
            (commands, Err(UpdateFault::NotStarted))
        },
    }
}

/// Clearing a command twice is clearing it once.
pub proof fn lemma_clear_is_idempotent(commands: Map<Seq<char>, CommandStateView>, topic: Seq<char>)
    ensures
        commands.remove(topic).remove(topic) == commands.remove(topic),
        !commands.remove(topic).contains_key(topic),
{
    assert(commands.remove(topic).remove(topic) =~= commands.remove(topic));
}

/// The workflows of the operations, and the commands that are under way.
#[derive(Debug)]
pub struct WorkflowSupervisor {
    pub schema: MqttSchema,
    /// The workflows, by the names of their operations.
    pub workflows: StringMap<OperationWorkflow>,
    /// The states of the commands, by the names of their topics.
    pub commands: StringMap<GenericCommandState>,
}

impl WorkflowSupervisor {
    /// The states of the commands under way, by the names of their topics.
    pub open spec fn command_states(&self) -> Map<Seq<char>, CommandStateView> {
        self.commands@.map_values(|state: GenericCommandState| state@)
    }

    /// A supervisor without workflow or command.
    pub fn new(schema: MqttSchema) -> (supervisor: WorkflowSupervisor)
        ensures
            supervisor.schema == schema,
            supervisor.workflows@ == Map::<Seq<char>, OperationWorkflow>::empty(),
            supervisor.command_states() == Map::<Seq<char>, CommandStateView>::empty(),
    {
        let supervisor = WorkflowSupervisor {
            schema,
            workflows: StringMap::new(),
            commands: StringMap::new(),
        };
        assert(supervisor.command_states() =~= Map::<Seq<char>, CommandStateView>::empty());
        supervisor
    }

    /// Takes a workflow for its operation. A workflow that a user provided
    /// is not given up for a built-in one; in every other case the new
    /// workflow takes the place of the one that was there.
    pub fn register_workflow(&mut self, workflow: OperationWorkflow)
        ensures
            final(self).schema == old(self).schema,
            final(self).commands == old(self).commands,
            final(self).workflows@ == if old(self).workflows@.contains_key(
                workflow.operation.name_text(),
            ) && !old(self).workflows@[workflow.operation.name_text()].built_in
                && workflow.built_in {
                old(self).workflows@
            } else {
                old(self).workflows@.insert(workflow.operation.name_text(), workflow)
            },
    {
        let name = workflow.operation.name();
        let keep = match self.workflows.get(name.as_str()) {
            Some(known) => !known.built_in && workflow.built_in,
            None => false,
        };
        if !keep {
            self.workflows.insert(name, workflow);
        }
    }

    /// Takes what a message on a command's topic says.
    pub fn apply_external_update(&mut self, topic: &Topic, payload: &[u8]) -> (r: Result<
        Option<GenericCommandState>,
        CommandUpdateError,
    >)
        ensures
            final(self).schema == old(self).schema,
            final(self).workflows == old(self).workflows,
            final(self).command_states() == external_update(
                old(self).command_states(),
                topic@,
                payload@,
            ).0,
            match external_update(old(self).command_states(), topic@, payload@).1 {
                Ok(Some(view)) => r matches Ok(Some(state)) && state@ == view,
                Ok(None) => r matches Ok(None),
                Err(fault) => r matches Err(e) && e.tells(fault, topic@),
            },
    {
        let ghost before = self.command_states();
        match GenericCommandState::from_command_message(topic, payload) {
            Err(_) => Err(CommandUpdateError::InvalidPayload { topic: owned(topic.name()) }),
            Ok(None) => {
                self.commands.remove(topic.name());
                assert(self.command_states() =~= before.remove(topic@));
                Ok(None)
            },
            Ok(Some(state)) => {
                if self.commands.contains_key(topic.name()) || same_text(
                    state.status.as_str(),
                    "init",
                ) {
                    self.commands.insert(owned(topic.name()), state.clone());
                    assert(self.command_states() =~= before.insert(topic@, state@));
                    Ok(Some(state))
                } else {
                    Err(CommandUpdateError::NotStarted { topic: owned(topic.name()) })
                }
            },
        }
    }

    /// Takes the state of a command as it is, as is done with the states
    /// found when the agent starts, and with those that the engine itself
    /// has made.
    pub fn store(&mut self, state: GenericCommandState)
        ensures
            final(self).schema == old(self).schema,
            final(self).workflows == old(self).workflows,
            final(self).command_states() == old(self).command_states().insert(
                state.topic@,
                state@,
            ),
    {
        let ghost before = self.command_states();
        self.commands.insert(owned(state.topic.name()), state);
        assert(self.command_states() =~= before.insert(state.topic@, state@));
    }

    /// Clears a command: the command is dropped, and the message that comes
    /// back takes the command's state off the broker. Nothing is done, and
    /// nothing comes back, for a command that is not under way.
    pub fn clear(&mut self, topic: &Topic) -> (r: Option<MqttMessage>)
        ensures
            final(self).schema == old(self).schema,
            final(self).workflows == old(self).workflows,
            final(self).command_states() == old(self).command_states().remove(topic@),
            match r {
                Some(message) => {
                    &&& old(self).command_states().contains_key(topic@)
                    &&& message@ == old(self).command_states()[topic@].clearing_message()
                },
                None => {
                    &&& !old(self).command_states().contains_key(topic@)
                    &&& final(self).command_states() == old(self).command_states()
                },
            },
    {
        let ghost before = self.command_states();
        match self.commands.remove(topic.name()) {
            Some(state) => {
                assert(self.command_states() =~= before.remove(topic@));
                Some(state.clearing_message())
            },
            None => {
                assert(self.command_states() =~= before.remove(topic@));
                assert(before.remove(topic@) =~= before);
                None
            },
        }
    }

    /// The workflow of the operation that a command's topic names.
    pub fn workflow_of(&self, topic: &Topic) -> (r: Option<&OperationWorkflow>)
        ensures
            match operation_of(self.schema.root@, topic@) {
                Some(operation) if self.workflows@.contains_key(operation) => r matches Some(
                    workflow,
                ) && *workflow == self.workflows@[operation],
                _ => r is None,
            },
    {
        match self.schema.entity_channel_of(topic.name()) {
            Ok((_, Channel::Command { operation, .. })) => self.workflows.get(
                operation.name().as_str(),
            ),
            _ => None,
        }
    }

    /// Return the action to be performed on a given state.
    pub fn get_action(&self, state: &GenericCommandState) -> (r: Result<
        OperationAction,
        WorkflowExecutionError,
    >)
        ensures
            match operation_of(self.schema.root@, state.topic@) {
                Some(operation) if self.workflows@.contains_key(operation) => {
                    let states = self.workflows@[operation].states@;
                    if states.contains_key(state.status@) {
                        r matches Ok(action) && action@ == states[state.status@]@.injected(
                            state.topic@,
                            state.payload@,
                        )
                    } else {
                        &&& r matches Err(
                            WorkflowExecutionError::UnknownStep { operation: name, step },
                        )
                        &&& name@ == self.workflows@[operation].operation.name_text()
                        &&& step@ == state.status@
                    }
                },
                _ => r matches Err(WorkflowExecutionError::UnknownOperation { operation: name })
                    && name@ == state.topic@,
            },
    {
        match self.workflow_of(&state.topic) {
            Some(workflow) => workflow.get_action(state),
            None => Err(
                WorkflowExecutionError::UnknownOperation { operation: owned(state.topic.name()) },
            ),
        }
    }

    /// Carries a command from its state to the next, given what came of
    /// carrying out the state's action. A command of an operation without
    /// workflow fails. Nothing comes back for a state that is to be cleared.
    pub fn advance(&self, state: GenericCommandState, outcome: ActionOutcome) -> (r: Option<
        GenericCommandState,
    >)
        ensures
            match operation_of(self.schema.root@, state.topic@) {
                Some(operation) if self.workflows@.contains_key(operation) => match advanced(
                    self.workflows@[operation].actions(),
                    state@,
                    outcome@,
                ) {
                    Some(next) => r matches Some(found) && found@ == next,
                    None => r is None,
                },
                _ => r matches Some(found) && found@ == state@.failed_with(
                    "unknown operation"@,
                ),
            },
    {
        match self.workflow_of(&state.topic) {
            Some(workflow) => match workflow.get_action(&state) {
                Ok(action) => {
                    assert(workflow.actions().dom() =~= workflow.states@.dom());
                    next_state(workflow, &action, state, outcome)
                },
                Err(_) => Some(state.fail_with("unknown step")),
            },
            None => Some(state.fail_with("unknown operation")),
        }
    }
}

} // verus!
