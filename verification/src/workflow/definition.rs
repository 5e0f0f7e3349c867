//! Workflows: for each state of an operation, what is to be done in it.

use crate::json::JsonView;
use crate::mqtt::message::{MqttMessage, MqttMessageView};
use crate::mqtt::topic::{is_valid_topic, QoS};
use crate::mqtt_topics::{capability_topic_text, EntityTopicId, MqttSchema, OperationType};
use crate::string_map::StringMap;
use crate::text::{option_view, owned, texts};
use crate::workflow::script::{
    AwaitHandlers, BgExitHandlers, DefaultHandlers, DefaultHandlersView, ExcerptView, ExitHandlers,
    ExitHandlersView, ShellScript, ShellScriptView, StateExcerpt,
};
use crate::workflow::state::{failed_status, init_status, successful_status, GenericCommandState};
use crate::workflow::template::{missing_references, push_missing_references, rendered};
use vstd::prelude::*;
use vstd::utf8::encode_utf8;

verus! {

/// What needs to be done to advance a command in some state.
#[derive(Debug)]
pub enum OperationAction {
    /// Nothing has to be done: simply move to the next state.
    MoveTo(String),
    /// The built-in behavior is used: the actor of the operation answers
    /// with the next state.
    BuiltIn,
    /// Await the agent's restart. If the time runs out first, the step fails;
    /// if the agent stops before and finds this state when it starts again,
    /// the step is successful.
    AwaitingAgentRestart(AwaitHandlers),
    /// A script has to be executed.
    Script(ShellScript, ExitHandlers),
    /// A script has to be started, and the next state follows at once.
    BgScript(ShellScript, BgExitHandlers),
    /// Another operation has to be triggered; the next state follows at
    /// once, from where the outcome of that operation will be awaited.
    Operation(String, Option<ShellScript>, StateExcerpt, BgExitHandlers),
    /// Await the completion of the operation that was triggered.
    AwaitOperationCompletion(AwaitHandlers, StateExcerpt),
    /// The command has been fully processed and needs to be cleared.
    Clear,
}

/// The handlers of a wait as contracts speak of them.
pub struct AwaitHandlersView {
    pub timeout_sec: Option<u64>,
    pub on_success: Seq<char>,
    pub on_error: Option<Seq<char>>,
    pub on_timeout: Option<Seq<char>>,
}

impl AwaitHandlersView {
    pub open spec fn of(handlers: AwaitHandlers) -> AwaitHandlersView {
        AwaitHandlersView {
            timeout_sec: handlers.timeout_sec,
            on_success: handlers.on_success@,
            on_error: option_view(handlers.on_error),
            on_timeout: option_view(handlers.on_timeout),
        }
    }

    pub open spec fn with_default(self, default: DefaultHandlersView) -> AwaitHandlersView {
        AwaitHandlersView {
            timeout_sec: if self.timeout_sec is None {
                default.timeout_sec
            } else {
                self.timeout_sec
            },
            on_success: self.on_success,
            on_error: if self.on_error is None {
                default.on_error
            } else {
                self.on_error
            },
            on_timeout: if self.on_timeout is None {
                default.on_timeout
            } else {
                self.on_timeout
            },
        }
    }

    /// The states that the wait names.
    pub open spec fn targets(self) -> Seq<Seq<char>> {
        seq![self.on_success] + optional(self.on_error) + optional(self.on_timeout)
    }
}

/// An action as contracts speak of it.
pub enum ActionView {
    MoveTo(Seq<char>),
    BuiltIn,
    AwaitingAgentRestart(AwaitHandlersView),
    Script(ShellScriptView, ExitHandlersView),
    BgScript(ShellScriptView, Seq<char>),
    Operation(Seq<char>, Option<ShellScriptView>, ExcerptView, Seq<char>),
    AwaitOperationCompletion(AwaitHandlersView, ExcerptView),
    Clear,
}

/// The one text of an optional text, or none.
pub open spec fn optional(text: Option<Seq<char>>) -> Seq<Seq<char>> {
    match text {
        Some(t) => seq![t],
        None => Seq::empty(),
    }
}

/// The states that a table of exit codes names.
pub open spec fn exit_targets(table: Seq<(i32, Seq<char>)>) -> Seq<Seq<char>> {
    table.map_values(|entry: (i32, Seq<char>)| entry.1)
}

impl ActionView {
    /// The action with the defaults taken where its handlers say nothing.
    pub open spec fn with_default(self, default: DefaultHandlersView) -> ActionView {
        match self {
            ActionView::Script(script, handlers) => ActionView::Script(
                script,
                handlers.with_default(default),
            ),
            ActionView::AwaitingAgentRestart(handlers) => ActionView::AwaitingAgentRestart(
                handlers.with_default(default),
            ),
            ActionView::AwaitOperationCompletion(handlers, excerpt) => {
                ActionView::AwaitOperationCompletion(handlers.with_default(default), excerpt)
            },
            action => action,
        }
    }

    /// The action with the values of a command's state put into its scripts
    /// and into the name of the operation that it triggers.
    pub open spec fn injected(self, topic: Seq<char>, payload: JsonView) -> ActionView {
        match self {
            ActionView::Script(script, handlers) => ActionView::Script(
                script.injected(topic, payload),
                handlers,
            ),
            ActionView::BgScript(script, on_exec) => ActionView::BgScript(
                script.injected(topic, payload),
                on_exec,
            ),
            ActionView::Operation(operation, script, input, on_exec) => ActionView::Operation(
                rendered(topic, payload, operation),
                match script {
                    Some(s) => Some(s.injected(topic, payload)),
                    None => None,
                },
                input,
                on_exec,
            ),
            action => action,
        }
    }

    /// The references of the action that are missing for a command's state:
    /// those of its scripts and of the name of the operation that it
    /// triggers. A warning is due for each.
    pub open spec fn missing_references(self, topic: Seq<char>, payload: JsonView) -> Seq<
        Seq<char>,
    > {
        match self {
            ActionView::Script(script, _) => script.missing_references(topic, payload),
            ActionView::BgScript(script, _) => script.missing_references(topic, payload),
            ActionView::Operation(operation, script, _, _) => missing_references(
                topic,
                payload,
                operation,
            ) + match script {
                Some(s) => s.missing_references(topic, payload),
                None => Seq::empty(),
            },
            _ => Seq::empty(),
        }
    }

    /// The states that the action names.
    pub open spec fn targets(self) -> Seq<Seq<char>> {
        match self {
            ActionView::MoveTo(state) => seq![state],
            ActionView::BuiltIn => Seq::empty(),
            ActionView::AwaitingAgentRestart(handlers) => handlers.targets(),
            ActionView::Script(_, handlers) => optional(handlers.on_success) + optional(
                handlers.on_error,
            ) + optional(handlers.on_kill) + exit_targets(handlers.on_exit),
            ActionView::BgScript(_, on_exec) => seq![on_exec],
            ActionView::Operation(_, _, _, on_exec) => seq![on_exec],
            ActionView::AwaitOperationCompletion(handlers, _) => handlers.targets(),
            ActionView::Clear => Seq::empty(),
        }
    }

    /// What the action does, in words.
    pub open spec fn description(self) -> Seq<char> {
        match self {
            ActionView::MoveTo(step) => "move to "@ + step + " state"@,
            ActionView::BuiltIn => "builtin"@,
            ActionView::AwaitingAgentRestart(_) => "await agent restart"@,
            ActionView::Script(script, _) => script.text(),
            ActionView::BgScript(script, _) => script.text(),
            ActionView::Operation(operation, script, _, _) => match script {
                None => "execute "@ + operation + " as sub-operation"@,
                Some(s) => "execute "@ + operation
                    + " as sub-operation, with input payload derived from: "@ + s.text(),
            },
            ActionView::AwaitOperationCompletion(_, _) => "await sub-operation completion"@,
            ActionView::Clear => "wait for the requester to finalize the command"@,
        }
    }
}

impl OperationAction {
    pub open spec fn view(&self) -> ActionView {
        match self {
            OperationAction::MoveTo(state) => ActionView::MoveTo(state@),
            OperationAction::BuiltIn => ActionView::BuiltIn,
            OperationAction::AwaitingAgentRestart(handlers) => ActionView::AwaitingAgentRestart(
                AwaitHandlersView::of(*handlers),
            ),
            OperationAction::Script(script, handlers) => ActionView::Script(script@, handlers@),
            OperationAction::BgScript(script, handlers) => ActionView::BgScript(
                script@,
                handlers.on_exec@,
            ),
            OperationAction::Operation(operation, script, input, handlers) => {
                ActionView::Operation(
                    operation@,
                    match script {
                        Some(s) => Some(s@),
                        None => None,
                    },
                    input@,
                    handlers.on_exec@,
                )
            },
            OperationAction::AwaitOperationCompletion(handlers, excerpt) => {
                ActionView::AwaitOperationCompletion(AwaitHandlersView::of(*handlers), excerpt@)
            },
            OperationAction::Clear => ActionView::Clear,
        }
    }

    /// Takes the defaults where the action's handlers say nothing.
    pub fn with_default(self, default: &DefaultHandlers) -> (action: OperationAction)
        ensures
            action@ == self@.with_default(default@),
    {
        match self {
            OperationAction::Script(script, handlers) => {
                OperationAction::Script(script, handlers.with_default(default))
            },
            OperationAction::AwaitingAgentRestart(handlers) => {
                OperationAction::AwaitingAgentRestart(handlers.with_default(default))
            },
            OperationAction::AwaitOperationCompletion(handlers, state_excerpt) => {
                OperationAction::AwaitOperationCompletion(
                    handlers.with_default(default),
                    state_excerpt,
                )
            },
            action => action,
        }
    }

    /// Puts the values of a command's state into the action's scripts and
    /// into the name of the operation that it triggers.
    pub fn inject_state(&self, state: &GenericCommandState) -> (action: OperationAction)
        ensures
            action@ == self@.injected(state.topic@, state.payload@),
    {
        match self {
            OperationAction::Script(script, handlers) => OperationAction::Script(
                Self::inject_values_into_script(state, script),
                handlers.clone(),
            ),
            OperationAction::BgScript(script, handlers) => OperationAction::BgScript(
                Self::inject_values_into_script(state, script),
                handlers.clone(),
            ),
            OperationAction::Operation(operation_expr, optional_script, input, handlers) => {
                let operation = state.inject_values_into_template(operation_expr.as_str());
                let optional_script = match optional_script {
                    Some(script) => Some(Self::inject_values_into_script(state, script)),
                    None => None,
                };
                OperationAction::Operation(
                    operation,
                    optional_script,
                    input.clone(),
                    handlers.clone(),
                )
            },
            _ => self.clone(),
        }
    }

    /// The references of the action that are missing for a command's state,
    /// each of which is replaced by nothing when the values are put in.
    pub fn missing_references(&self, state: &GenericCommandState) -> (paths: Vec<String>)
        ensures
            texts(paths@) == self@.missing_references(state.topic@, state.payload@),
    {
        let mut paths: Vec<String> = Vec::new();
        let topic = state.topic.name();
        assert(texts(paths@) =~= Seq::<Seq<char>>::empty());
        match self {
            OperationAction::Script(script, _) => {
                script.push_missing_references(&mut paths, topic, &state.payload);
            },
            OperationAction::BgScript(script, _) => {
                script.push_missing_references(&mut paths, topic, &state.payload);
            },
            OperationAction::Operation(operation, script, _, _) => {
                push_missing_references(&mut paths, topic, &state.payload, operation.as_str());
                let ghost first = texts(paths@);
                match script {
                    Some(s) => {
                        s.push_missing_references(&mut paths, topic, &state.payload);
                    },
                    None => {
                        assert(first =~= first + Seq::<Seq<char>>::empty());
                    },
                }
                assert(first =~= missing_references(state.topic@, state.payload@, operation@));
            },
            _ => {},
        }
        assert(texts(paths@) =~= Seq::<Seq<char>>::empty() + texts(paths@));
        paths
    }

    /// Puts the values of a command's state into a script.
    pub fn inject_values_into_script(state: &GenericCommandState, script: &ShellScript) -> (r:
        ShellScript)
        ensures
            r@ == script@.injected(state.topic@, state.payload@),
    {
        ShellScript {
            command: state.inject_values_into_template(script.command.as_str()),
            args: state.inject_values_into_parameters(&script.args),
        }
    }

    /// What the action does, in words.
    pub fn to_string(&self) -> (text: String)
        ensures
            text@ == self@.description(),
    {
        match self {
            OperationAction::MoveTo(step) => {
                let mut text = owned("move to ");
                text.append(step.as_str());
                text.append(" state");
                text
            },
            OperationAction::BuiltIn => owned("builtin"),
            OperationAction::AwaitingAgentRestart(_) => owned("await agent restart"),
            OperationAction::Script(script, _) => script.to_string(),
            OperationAction::BgScript(script, _) => script.to_string(),
            OperationAction::Operation(operation, maybe_script, _, _) => match maybe_script {
                None => {
                    let mut text = owned("execute ");
                    text.append(operation.as_str());
                    text.append(" as sub-operation");
                    text
                },
                Some(script) => {
                    let mut text = owned("execute ");
                    text.append(operation.as_str());
                    text.append(" as sub-operation, with input payload derived from: ");
                    text.append(script.to_string().as_str());
                    text
                },
            },
            OperationAction::AwaitOperationCompletion(_, _) => owned(
                "await sub-operation completion",
            ),
            OperationAction::Clear => owned("wait for the requester to finalize the command"),
        }
    }

    /// The states that the action names.
    pub fn targets(&self) -> (targets: Vec<String>)
        ensures
            texts(targets@) == self@.targets(),
    {
        let mut targets: Vec<String> = Vec::new();
        assert(texts(targets@) =~= Seq::<Seq<char>>::empty());
        match self {
            OperationAction::MoveTo(state) => {
                targets.push(state.clone());
                assert(texts(targets@) =~= seq![state@]);
            },
            OperationAction::BuiltIn => {},
            OperationAction::AwaitingAgentRestart(handlers) => {
                push_await_targets(&mut targets, handlers);
                assert(texts(targets@) =~= self@.targets());
            },
            OperationAction::Script(_, handlers) => {
                push_optional(&mut targets, &handlers.on_success);
                push_optional(&mut targets, &handlers.on_error);
                push_optional(&mut targets, &handlers.on_kill);
                let ghost start = texts(targets@);
                let ghost table = handlers@.on_exit;
                let mut i: usize = 0;
                assert(start + exit_targets(table).take(0) =~= start);
                while i < handlers.on_exit.len()
                    invariant
                        i <= handlers.on_exit.len(),
                        table == handlers@.on_exit,
                        texts(targets@) == start + exit_targets(table).take(i as int),
                    decreases handlers.on_exit.len() - i,
                {
                    let ghost before = targets@;
                    let state = handlers.on_exit[i].1.clone();
                    targets.push(state);
                    i += 1;
                    assert(texts(targets@) =~= texts(before).push(state@));
                    assert(exit_targets(table).take(i as int) =~= exit_targets(table).take(
                        i - 1,
                    ).push(state@));
                    assert(texts(targets@) =~= start + exit_targets(table).take(i as int));
                }
                assert(exit_targets(table).take(handlers.on_exit.len() as int) =~= exit_targets(
                    table,
                ));
                assert(start =~= optional(handlers@.on_success) + optional(handlers@.on_error)
                    + optional(handlers@.on_kill));
            },
            OperationAction::BgScript(_, handlers) => {
                targets.push(handlers.on_exec.clone());
                assert(texts(targets@) =~= seq![handlers.on_exec@]);
            },
            OperationAction::Operation(_, _, _, handlers) => {
                targets.push(handlers.on_exec.clone());
                assert(texts(targets@) =~= seq![handlers.on_exec@]);
            },
            OperationAction::AwaitOperationCompletion(handlers, _) => {
                push_await_targets(&mut targets, handlers);
                assert(texts(targets@) =~= self@.targets());
            },
            OperationAction::Clear => {},
        }
        targets
    }
}

fn push_optional(targets: &mut Vec<String>, state: &Option<String>)
    ensures
        texts(final(targets)@) == texts(old(targets)@) + optional(option_view(*state)),
{
    match state {
        Some(s) => {
            targets.push(s.clone());
            assert(texts(targets@) =~= texts(old(targets)@) + seq![s@]);
        },
        None => {
            assert(texts(targets@) =~= texts(old(targets)@) + Seq::<Seq<char>>::empty());
        },
    }
}

fn push_await_targets(targets: &mut Vec<String>, handlers: &AwaitHandlers)
    ensures
        texts(final(targets)@) == texts(old(targets)@) + AwaitHandlersView::of(
            *handlers,
        ).targets(),
{
    targets.push(handlers.on_success.clone());
    assert(texts(targets@) =~= texts(old(targets)@) + seq![handlers.on_success@]);
    push_optional(targets, &handlers.on_error);
    push_optional(targets, &handlers.on_timeout);
    assert(texts(targets@) =~= texts(old(targets)@) + AwaitHandlersView::of(
        *handlers,
    ).targets());
}

impl Clone for OperationAction {
    fn clone(&self) -> (copy: OperationAction)
        ensures
            copy@ == self@,
    {
        match self {
            OperationAction::MoveTo(state) => OperationAction::MoveTo(state.clone()),
            OperationAction::BuiltIn => OperationAction::BuiltIn,
            OperationAction::AwaitingAgentRestart(handlers) => {
                OperationAction::AwaitingAgentRestart(handlers.clone())
            },
            OperationAction::Script(script, handlers) => OperationAction::Script(
                script.clone(),
                handlers.clone(),
            ),
            OperationAction::BgScript(script, handlers) => OperationAction::BgScript(
                script.clone(),
                handlers.clone(),
            ),
            OperationAction::Operation(operation, script, input, handlers) => {
                OperationAction::Operation(
                    operation.clone(),
                    match script {
                        Some(s) => Some(s.clone()),
                        None => None,
                    },
                    input.clone(),
                    handlers.clone(),
                )
            },
            OperationAction::AwaitOperationCompletion(handlers, excerpt) => {
                OperationAction::AwaitOperationCompletion(handlers.clone(), excerpt.clone())
            },
            OperationAction::Clear => OperationAction::Clear,
        }
    }
}

/// Why a workflow is ill-defined.
#[derive(Debug)]
pub enum WorkflowDefinitionError {
    /// A state that every workflow must have is missing.
    MissingState { state: String },
    /// A state has an action that it may not have.
    InvalidAction { state: String, action: String },
    /// An action names a state that the workflow does not have.
    UnknownTarget { state: String, target: String },
    /// The default handlers name a state that the workflow does not have.
    UnknownDefaultTarget { target: String },
    /// The definition is no object, or one of its fields is missing or
    /// malformed.
    MalformedDefinition { field: String },
    /// A state is no object, or one of its fields is missing or malformed.
    MalformedState { state: String, field: String },
}

/// Why a workflow is ill-defined, as contracts speak of it.
pub enum DefinitionFault {
    MissingState { state: Seq<char> },
    InvalidAction { state: Seq<char>, action: Seq<char> },
    UnknownTarget { state: Seq<char>, target: Seq<char> },
    UnknownDefaultTarget { target: Seq<char> },
    MalformedDefinition { field: Seq<char> },
    MalformedState { state: Seq<char>, field: Seq<char> },
}

impl WorkflowDefinitionError {
    pub open spec fn view(&self) -> DefinitionFault {
        match self {
            WorkflowDefinitionError::MissingState { state } => DefinitionFault::MissingState {
                state: state@,
            },
            WorkflowDefinitionError::InvalidAction { state, action } => {
                DefinitionFault::InvalidAction { state: state@, action: action@ }
            },
            WorkflowDefinitionError::UnknownTarget { state, target } => {
                DefinitionFault::UnknownTarget { state: state@, target: target@ }
            },
            WorkflowDefinitionError::UnknownDefaultTarget { target } => {
                DefinitionFault::UnknownDefaultTarget { target: target@ }
            },
            WorkflowDefinitionError::MalformedDefinition { field } => {
                DefinitionFault::MalformedDefinition { field: field@ }
            },
            WorkflowDefinitionError::MalformedState { state, field } => {
                DefinitionFault::MalformedState { state: state@, field: field@ }
            },
        }
    }
}

/// Why a command could not be advanced.
#[derive(Debug)]
pub enum WorkflowExecutionError {
    /// No workflow is known for the operation.
    UnknownOperation { operation: String },
    /// The workflow of the operation has no such state.
    UnknownStep { operation: String, step: String },
}

/// The first of the states that is not known.
pub open spec fn unknown_target(targets: Seq<Seq<char>>, known: Set<Seq<char>>) -> Option<
    Seq<char>,
>
    decreases targets.len(),
{
    if targets.len() == 0 {
        None
    } else if !known.contains(targets[0]) {
        Some(targets[0])
    } else {
        unknown_target(targets.drop_first(), known)
    }
}

/// Among the first `n` states, the first whose action names a state that is
/// not known, with the first such state that it names.
pub open spec fn unknown_reference(
    keys: Seq<Seq<char>>,
    states: Map<Seq<char>, ActionView>,
    n: nat,
) -> Option<(Seq<char>, Seq<char>)>
    decreases n,
{
    if n == 0 {
        None
    } else {
        match unknown_reference(keys, states, (n - 1) as nat) {
            Some(found) => Some(found),
            None => match unknown_target(states[keys[n - 1]].targets(), states.dom()) {
                Some(target) => Some((keys[n - 1], target)),
                None => None,
            },
        }
    }
}

/// The states of a workflow once `successful` and `failed` were added
/// where they were missing: both are cleared.
pub open spec fn completed_states(states: Map<Seq<char>, ActionView>) -> Map<
    Seq<char>,
    ActionView,
> {
    let with_success = if states.contains_key("successful"@) {
        states
    } else {
        states.insert("successful"@, ActionView::Clear)
    };
    if with_success.contains_key("failed"@) {
        with_success
    } else {
        with_success.insert("failed"@, ActionView::Clear)
    }
}

/// The actions of a map of states, as contracts speak of them.
pub open spec fn action_views(states: Map<Seq<char>, OperationAction>) -> Map<
    Seq<char>,
    ActionView,
> {
    states.map_values(|action: OperationAction| action@)
}

/// The names of the states, in their order, once `successful` and `failed`
/// were added behind them where they were missing.
pub open spec fn completed_keys(
    keys: Seq<Seq<char>>,
    states: Map<Seq<char>, ActionView>,
) -> Seq<Seq<char>> {
    let with_success = if states.contains_key("successful"@) {
        keys
    } else {
        keys.push("successful"@)
    };
    if states.contains_key("failed"@) || "failed"@ == "successful"@ {
        with_success
    } else {
        with_success.push("failed"@)
    }
}

/// What makes a workflow ill-defined, the first of: no `init` state; a
/// `successful` state that is not cleared; a `failed` state that is not
/// cleared; a state named by the default handlers, or by an action, that the
/// workflow does not have. `None` for a well-defined workflow.
pub open spec fn definition_fault(
    handlers: DefaultHandlersView,
    keys: Seq<Seq<char>>,
    states: Map<Seq<char>, ActionView>,
) -> Option<DefinitionFault> {
    let all = completed_states(states);
    let all_keys = completed_keys(keys, states);
    if !states.contains_key("init"@) {
        Some(DefinitionFault::MissingState { state: "init"@ })
    } else if states.contains_key("successful"@) && states["successful"@] != ActionView::Clear {
        Some(
            DefinitionFault::InvalidAction {
                state: "successful"@,
                action: states["successful"@].description(),
            },
        )
    } else if states.contains_key("failed"@) && states["failed"@] != ActionView::Clear {
        Some(
            DefinitionFault::InvalidAction {
                state: "failed"@,
                action: states["failed"@].description(),
            },
        )
    } else {
        match unknown_target(optional(handlers.on_timeout) + optional(handlers.on_error), all.dom()) {
            Some(target) => Some(DefinitionFault::UnknownDefaultTarget { target }),
            None => match unknown_reference(all_keys, all, all_keys.len()) {
                Some(found) => Some(
                    DefinitionFault::UnknownTarget { state: found.0, target: found.1 },
                ),
                None => None,
            },
        }
    }
}

/// An OperationWorkflow defines the state machine that rules an operation.
#[derive(Debug)]
pub struct OperationWorkflow {
    /// The operation to which this workflow applies.
    pub operation: OperationType,
    /// Whether this is the workflow that the gateway itself gives the
    /// operation.
    pub built_in: bool,
    /// What is done where an action says nothing of it.
    pub handlers: DefaultHandlers,
    /// The states of the state machine.
    pub states: StringMap<OperationAction>,
}

fn first_unknown(targets: &Vec<String>, states: &StringMap<OperationAction>) -> (r: Option<usize>)
    ensures
        match unknown_target(texts(targets@), action_views(states@).dom()) {
            Some(target) => r matches Some(i) && i < targets@.len() && targets@[i as int]@
                == target,
            None => r is None,
        },
{
    let ghost all = texts(targets@);
    let mut i: usize = 0;
    assert(all.skip(0) =~= all);
    while i < targets.len()
        invariant
            i <= targets.len(),
            all == texts(targets@),
            unknown_target(all, action_views(states@).dom()) == unknown_target(
                all.skip(i as int),
                action_views(states@).dom(),
            ),
        decreases targets.len() - i,
    {
        proof {
            assert(all.skip(i as int)[0] == targets@[i as int]@);
            assert(all.skip(i as int).drop_first() =~= all.skip(i + 1));
        }
        if !states.contains_key(targets[i].as_str()) {
            return Some(i);
        }
        i += 1;
    }
    assert(all.skip(i as int).len() == 0);
    None
}

impl OperationWorkflow {
    /// The actions of the states, as contracts speak of them.
    pub open spec fn actions(&self) -> Map<Seq<char>, ActionView> {
        action_views(self.states@)
    }

    /// Return a new OperationWorkflow unless there are errors such as
    /// missing or ill-defined states. The states `successful` and `failed`
    /// can be omitted, and are then added.
    #[verifier::loop_isolation(false)]
    pub fn try_new(
        operation: OperationType,
        handlers: DefaultHandlers,
        states: StringMap<OperationAction>,
    ) -> (r: Result<OperationWorkflow, WorkflowDefinitionError>)
        ensures
            match definition_fault(handlers@, states.keys(), action_views(states@)) {
                Some(fault) => r matches Err(e) && e@ == fault,
                None => {
                    &&& r matches Ok(workflow)
                    &&& workflow.operation == operation
                    &&& !workflow.built_in
                    &&& workflow.handlers == handlers
                    &&& workflow.actions() == completed_states(action_views(states@))
                    &&& workflow.states.keys() == completed_keys(
                        states.keys(),
                        action_views(states@),
                    )
                    &&& is_well_defined(workflow.actions())
                },
            },
    {
        let mut states = states;
        let ghost given = action_views(states@);
        let ghost given_keys = states.keys();
        proof {
            reveal_strlit("failed");
            reveal_strlit("successful");
            assert("failed"@ != "successful"@) by {
                assert("failed"@.len() != "successful"@.len());
            }
        }
        // The init state is required
        if !states.contains_key("init") {
            return Err(WorkflowDefinitionError::MissingState { state: owned("init") });
        }
        // The successful state can be omitted,
        // but must be associated to a `clear` if provided.
        match states.get("successful") {
            Some(OperationAction::Clear) => {},
            Some(action_on_success) => {
                return Err(
                    WorkflowDefinitionError::InvalidAction {
                        state: owned("successful"),
                        action: action_on_success.to_string(),
                    },
                );
            },
            None => {
                states.insert(owned("successful"), OperationAction::Clear);
            },
        }
        // The failed state can be omitted,
        // but must be associated to a `clear` if provided.
        match states.get("failed") {
            Some(OperationAction::Clear) => {},
            Some(action_on_error) => {
                return Err(
                    WorkflowDefinitionError::InvalidAction {
                        state: owned("failed"),
                        action: action_on_error.to_string(),
                    },
                );
            },
            None => {
                states.insert(owned("failed"), OperationAction::Clear);
            },
        }
        assert(action_views(states@) =~= completed_states(given));
        assert(states.keys() =~= completed_keys(given_keys, given));
        // Every state that is named must be there
        let mut defaults: Vec<String> = Vec::new();
        assert(texts(defaults@) =~= Seq::<Seq<char>>::empty());
        push_optional(&mut defaults, &handlers.on_timeout);
        push_optional(&mut defaults, &handlers.on_error);
        assert(texts(defaults@) =~= optional(option_view(handlers.on_timeout)) + optional(
            option_view(handlers.on_error),
        ));
        if let Some(at) = first_unknown(&defaults, &states) {
            return Err(
                WorkflowDefinitionError::UnknownDefaultTarget { target: defaults[at].clone() },
            );
        }
        let n = states.len();
        let mut i: usize = 0;
        while i < n
            invariant
                i <= n,
                n == states.keys().len(),
                unknown_reference(states.keys(), action_views(states@), i as nat) is None,
            decreases n - i,
        {
            let targets = states.value_at(i).targets();
            if let Some(at) = first_unknown(&targets, &states) {
                proof {
                    assert(unknown_reference(
                        states.keys(),
                        action_views(states@),
                        i as nat + 1,
                    ) == Some((states.keys()[i as int], targets@[at as int]@)));
                    lemma_reference_found(
                        states.keys(),
                        action_views(states@),
                        i as nat + 1,
                        n as nat,
                    );
                }
                return Err(
                    WorkflowDefinitionError::UnknownTarget {
                        state: owned(states.key_at(i)),
                        target: targets[at].clone(),
                    },
                );
            }
            i += 1;
        }
        let workflow = OperationWorkflow { operation, built_in: false, handlers, states };
        proof {
            workflow.lemma_well_defined();
        }
        Ok(workflow)
    }

    /// The workflow that the gateway itself gives an operation: from `init`
    /// to `scheduled`, then whatever the operation's actor answers.
    pub fn built_in(operation: OperationType) -> (workflow: OperationWorkflow)
        ensures
            workflow.operation == operation,
            workflow.built_in,
            workflow.handlers.timeout_sec is None,
            workflow.handlers.on_timeout is None,
            workflow.handlers.on_error is None,
            workflow.states.keys() == seq![
                "init"@,
                "scheduled"@,
                "executing"@,
                "successful"@,
                "failed"@,
            ],
            workflow.actions() == Map::<Seq<char>, ActionView>::empty().insert(
                "init"@,
                ActionView::MoveTo("scheduled"@),
            ).insert("scheduled"@, ActionView::BuiltIn).insert(
                "executing"@,
                ActionView::BuiltIn,
            ).insert("successful"@, ActionView::Clear).insert("failed"@, ActionView::Clear),
            is_well_defined(workflow.actions()),
    {
        proof {
            reveal_strlit("init");
            reveal_strlit("scheduled");
            reveal_strlit("executing");
            reveal_strlit("successful");
            reveal_strlit("failed");
            assert("init"@.len() == 4 && "scheduled"@.len() == 9 && "executing"@.len() == 9
                && "successful"@.len() == 10 && "failed"@.len() == 6);
            assert("scheduled"@[0] != "executing"@[0]);
        }
        let mut states: StringMap<OperationAction> = StringMap::new();
        states.insert(owned("init"), OperationAction::MoveTo(owned("scheduled")));
        states.insert(owned("scheduled"), OperationAction::BuiltIn);
        states.insert(owned("executing"), OperationAction::BuiltIn);
        states.insert(owned("successful"), OperationAction::Clear);
        states.insert(owned("failed"), OperationAction::Clear);
        let workflow = OperationWorkflow {
            built_in: true,
            operation,
            handlers: DefaultHandlers::new(),
            states,
        };
        assert(workflow.states.keys() =~= seq![
            "init"@,
            "scheduled"@,
            "executing"@,
            "successful"@,
            "failed"@,
        ]);
        assert(workflow.actions() =~= Map::<Seq<char>, ActionView>::empty().insert(
            "init"@,
            ActionView::MoveTo("scheduled"@),
        ).insert("scheduled"@, ActionView::BuiltIn).insert("executing"@, ActionView::BuiltIn).insert(
            "successful"@,
            ActionView::Clear,
        ).insert("failed"@, ActionView::Clear));
        assert(is_well_defined(workflow.actions())) by {
            assert forall|state: Seq<char>, k: int|
                workflow.actions().contains_key(state) && 0 <= k
                    < workflow.actions()[state].targets().len()
                    implies workflow.actions().contains_key(
                #[trigger] workflow.actions()[state].targets()[k],
            ) by {
                assert(state == "init"@);
                assert(workflow.actions()[state].targets()[k] == "scheduled"@);
            }
        }
        workflow
    }

    /// Return the MQTT message to register support for the operation
    /// described by this workflow: for a custom operation and for restart, an
    /// empty JSON object, retained, on the capability topic. The other
    /// operations publish their own capability message, with the types that
    /// they support.
    pub fn capability_message(&self, schema: &MqttSchema, target: &EntityTopicId) -> (r: Option<
        MqttMessage,
    >)
        ensures
            match capability_of(self.operation, schema.root@, target@) {
                Some(view) => r matches Some(message) && message@ == view,
                None => r is None,
            },
    {
        match &self.operation {
            // Custom operations (and restart) have a generic empty capability message
            OperationType::Custom(_) | OperationType::Restart => {
                match schema.capability_topic_for(target, self.operation.clone()) {
                    Ok(meta_topic) => Some(
                        MqttMessage::from_text(&meta_topic, "{}").with_retain().with_qos(
                            QoS::AtLeastOnce,
                        ),
                    ),
                    Err(_) => None,
                }
            },
            // Builtin operations dynamically publish their capability message,
            // notably to include a list of supported types.
            _ => None,
        }
    }

    /// Return the action to be performed on a given state, with the values
    /// of the state put into it.
    pub fn get_action(&self, command_state: &GenericCommandState) -> (r: Result<
        OperationAction,
        WorkflowExecutionError,
    >)
        ensures
            match r {
                Ok(action) => {
                    &&& self.states@.contains_key(command_state.status@)
                    &&& action@ == self.states@[command_state.status@]@.injected(
                        command_state.topic@,
                        command_state.payload@,
                    )
                },
                Err(e) => {
                    &&& !self.states@.contains_key(command_state.status@)
                    &&& e matches WorkflowExecutionError::UnknownStep { operation, step }
                    &&& operation@ == self.operation.name_text()
                    &&& step@ == command_state.status@
                },
            },
    {
        match self.states.get(command_state.status.as_str()) {
            Some(action) => Ok(action.inject_state(command_state)),
            None => Err(
                WorkflowExecutionError::UnknownStep {
                    operation: self.operation.name(),
                    step: command_state.status.clone(),
                },
            ),
        }
    }
}

/// The capability message of an operation: none but for a custom operation
/// and for restart, and none where the topic's name would hold a wildcard.
pub open spec fn capability_of(operation: OperationType, root: Seq<char>, target: Seq<char>) -> Option<
    MqttMessageView,
> {
    let topic = capability_topic_text(root, target, operation);
    if (operation is Custom || operation is Restart) && is_valid_topic(topic) {
        Some(
            MqttMessageView {
                topic,
                payload: encode_utf8("{}"@),
                qos: QoS::AtLeastOnce,
                retain: true,
            },
        )
    } else {
        None
    }
}

proof fn lemma_reference_found(
    keys: Seq<Seq<char>>,
    states: Map<Seq<char>, ActionView>,
    n: nat,
    m: nat,
)
    requires
        n <= m,
        unknown_reference(keys, states, n) is Some,
    ensures
        unknown_reference(keys, states, m) == unknown_reference(keys, states, n),
    decreases m,
{
    if n < m {
        lemma_reference_found(keys, states, n, (m - 1) as nat);
    }
}

/// A workflow is well defined when it has the states `init`, `successful`
/// and `failed`, and every state that an action names.
pub open spec fn is_well_defined(actions: Map<Seq<char>, ActionView>) -> bool {
    &&& actions.contains_key(init_status())
    &&& actions.contains_key(successful_status())
    &&& actions.contains_key(failed_status())
    &&& forall|state: Seq<char>, k: int|
        actions.contains_key(state) && 0 <= k < actions[state].targets().len()
            ==> actions.contains_key(#[trigger] actions[state].targets()[k])
}


proof fn lemma_no_unknown_target(targets: Seq<Seq<char>>, known: Set<Seq<char>>)
    requires
        unknown_target(targets, known) is None,
    ensures
        forall|k: int| 0 <= k < targets.len() ==> known.contains(#[trigger] targets[k]),
    decreases targets.len(),
{
    if targets.len() > 0 {
        lemma_no_unknown_target(targets.drop_first(), known);
        assert forall|k: int| 0 <= k < targets.len() implies known.contains(
            #[trigger] targets[k],
        ) by {
            if k > 0 {
                assert(targets.drop_first()[k - 1] == targets[k]);
            }
        }
    }
}

proof fn lemma_no_unknown_reference(
    keys: Seq<Seq<char>>,
    states: Map<Seq<char>, ActionView>,
    n: nat,
)
    requires
        n <= keys.len(),
        unknown_reference(keys, states, n) is None,
    ensures
        forall|i: int, k: int|
            0 <= i < n && 0 <= k < states[keys[i]].targets().len() ==> states.dom().contains(
                #[trigger] states[keys[i]].targets()[k],
            ),
    decreases n,
{
    if n > 0 {
        lemma_no_unknown_reference(keys, states, (n - 1) as nat);
        lemma_no_unknown_target(states[keys[n - 1]].targets(), states.dom());
    }
}

impl OperationWorkflow {
    /// A workflow whose definition has no fault is well defined.
    pub proof fn lemma_well_defined(&self)
        requires
            self.states@.contains_key(init_status()),
            self.states@.contains_key(successful_status()),
            self.states@.contains_key(failed_status()),
            unknown_reference(self.states.keys(), self.actions(), self.states.keys().len())
                is None,
        ensures
            is_well_defined(self.actions()),
    {
        let keys = self.states.keys();
        let states = self.actions();
        lemma_no_unknown_reference(keys, states, keys.len());
        assert forall|state: Seq<char>, k: int|
            self.actions().contains_key(state) && 0 <= k < self.actions()[state].targets().len()
                implies self.actions().contains_key(
            #[trigger] self.actions()[state].targets()[k],
        ) by {
            assert(self.states.has(state));
            let i = self.states.index_of(state);
            assert(keys[i] == state);
            assert(states.dom().contains(states[keys[i]].targets()[k]));
        }
    }
}

} // verus!
