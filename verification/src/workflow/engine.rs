//! The workflow engine at work: what is to be done when a message comes on
//! the topic of a command, and when an action has been carried out.
//!
//! The engine itself neither waits nor writes nor sends: it tells, as a list
//! of effects, what the one who runs it has to do, in which order. Each state
//! that the engine makes is published on the command's topic, and the engine
//! goes on with the command when that message comes back to it.

use crate::json::{field_views, Json, JsonView};
use crate::json_codec::json_parsed;
use crate::mqtt::message::{MqttMessage, MqttMessageView};
use crate::text::{owned, same_text, texts};
use crate::workflow::definition::{ActionView, OperationAction, OperationWorkflow};
use crate::workflow::script::{
    is_unreadable_output, ExcerptView, ScriptExit, ShellScript, ShellScriptView, StateExcerpt,
};
use crate::workflow::state::{
    command_state_of, failed_status, successful_status, CommandStateView, GenericCommandState,
};
use crate::workflow::sub_operation::{
    invoking_command_topic, invoking_topic_of, sub_command, sub_command_of,
};
use crate::workflow::supervisor::{
    advanced, external_update, operation_of, ActionOutcome, CommandUpdateError, OutcomeView,
    UpdateFault, WorkflowSupervisor,
};
use vstd::prelude::*;

verus! {

/// Something that the one who runs the engine has to do.
#[derive(Debug)]
pub enum Effect {
    /// The state of the command is to be written down, before any of the
    /// effects behind this one is brought about.
    Persist(GenericCommandState),
    /// What was written down of the command on this topic is to be dropped.
    Forget(String),
    /// The message is to be published.
    Publish(MqttMessage),
    /// The script is to be started, and not waited for.
    Start(ShellScript),
    /// The action is to be carried out for the command in this state, and
    /// what comes of it is to be handed to the engine.
    Perform(GenericCommandState, OperationAction),
    /// The warning is to be logged.
    Warn(Warning),
}

/// Something that went on, and should not have.
#[derive(Debug)]
pub enum Warning {
    /// A reference in a script of the command on this topic leads to no
    /// value, and was replaced by nothing.
    MissingReference { topic: String, reference: String },
    /// The script of the command on this topic ended with the code 0, and
    /// what it wrote is no JSON text: nothing of it went into the payload.
    UnreadableOutput { topic: String },
}

/// A warning as contracts speak of it.
pub enum WarningView {
    MissingReference { topic: Seq<char>, reference: Seq<char> },
    UnreadableOutput { topic: Seq<char> },
}

impl Warning {
    pub open spec fn view(&self) -> WarningView {
        match self {
            Warning::MissingReference { topic, reference } => WarningView::MissingReference {
                topic: topic@,
                reference: reference@,
            },
            Warning::UnreadableOutput { topic } => WarningView::UnreadableOutput { topic: topic@ },
        }
    }
}

/// An effect as contracts speak of it.
pub enum EffectView {
    Persist(CommandStateView),
    Forget(Seq<char>),
    Publish(MqttMessageView),
    Start(ShellScriptView),
    Perform(CommandStateView, ActionView),
    Warn(WarningView),
}

impl Effect {
    pub open spec fn view(&self) -> EffectView {
        match self {
            Effect::Persist(state) => EffectView::Persist(state@),
            Effect::Forget(topic) => EffectView::Forget(topic@),
            Effect::Publish(message) => EffectView::Publish(message@),
            Effect::Start(script) => EffectView::Start(script@),
            Effect::Perform(state, action) => EffectView::Perform(state@, action@),
            Effect::Warn(warning) => EffectView::Warn(warning@),
        }
    }
}

/// The effects of a list, as contracts speak of them.
pub open spec fn effect_views(effects: Seq<Effect>) -> Seq<EffectView> {
    effects.map_values(|effect: Effect| effect@)
}

/// The action of a command's state, with the values of the command put into
/// it; none where no workflow is known for the command's operation, or where
/// the workflow has no such state.
pub open spec fn action_for(
    root: Seq<char>,
    workflows: Map<Seq<char>, OperationWorkflow>,
    state: CommandStateView,
) -> Option<ActionView> {
    match operation_of(root, state.topic) {
        Some(operation) if workflows.contains_key(operation)
            && workflows[operation].states@.contains_key(state.status) => Some(
            workflows[operation].states@[state.status]@.injected(state.topic, state.payload),
        ),
        _ => None,
    }
}

/// The action of a command's state as the workflow has it, before the
/// values of the command are put into it.
pub open spec fn raw_action_for(
    root: Seq<char>,
    workflows: Map<Seq<char>, OperationWorkflow>,
    state: CommandStateView,
) -> Option<ActionView> {
    match operation_of(root, state.topic) {
        Some(operation) if workflows.contains_key(operation)
            && workflows[operation].states@.contains_key(state.status) => Some(
            workflows[operation].states@[state.status]@,
        ),
        _ => None,
    }
}

/// The warnings of references that are missing, one for each.
pub open spec fn missing_warnings(topic: Seq<char>, paths: Seq<Seq<char>>) -> Seq<EffectView> {
    Seq::new(
        paths.len(),
        |i: int|
            EffectView::Warn(WarningView::MissingReference { topic, reference: paths[i] }),
    )
}

/// The warnings that are due when the values of a command's state are put
/// into the action of the state: one for each reference that is missing.
pub open spec fn reference_warnings(
    root: Seq<char>,
    workflows: Map<Seq<char>, OperationWorkflow>,
    state: CommandStateView,
) -> Seq<EffectView> {
    match raw_action_for(root, workflows, state) {
        Some(action) => missing_warnings(
            state.topic,
            action.missing_references(state.topic, state.payload),
        ),
        None => Seq::empty(),
    }
}

/// The warning that is due when a script has ended: one where the state's
/// action is a script, the script ended with the code 0, and what it wrote is
/// no JSON text.
pub open spec fn output_warnings(
    action: Option<ActionView>,
    state: CommandStateView,
    outcome: OutcomeView,
) -> Seq<EffectView> {
    match (action, outcome) {
        (Some(ActionView::Script(_, _)), OutcomeView::ScriptEnded { code, stdout }) => {
            if is_unreadable_output(code, stdout) {
                seq![EffectView::Warn(WarningView::UnreadableOutput { topic: state.topic })]
            } else {
                Seq::empty()
            }
        },
        _ => Seq::empty(),
    }
}

/// The state to which the engine carries a command, given what came of the
/// action of its state. A command of an operation without workflow fails.
pub open spec fn carried(
    root: Seq<char>,
    workflows: Map<Seq<char>, OperationWorkflow>,
    state: CommandStateView,
    outcome: OutcomeView,
) -> Option<CommandStateView> {
    match operation_of(root, state.topic) {
        Some(operation) if workflows.contains_key(operation) => advanced(
            workflows[operation].actions(),
            state,
            outcome,
        ),
        _ => Some(state.failed_with("unknown operation"@)),
    }
}

/// The publication of a state that the engine has made: its message, where
/// there is a state and its payload can be written.
pub open spec fn published(next: Option<CommandStateView>) -> Seq<EffectView> {
    match next {
        Some(state) => match state.message() {
            Some(message) => seq![EffectView::Publish(message)],
            None => Seq::empty(),
        },
        None => Seq::empty(),
    }
}

/// Whether a status ends a command.
pub open spec fn is_terminal(status: Seq<char>) -> bool {
    status == successful_status() || status == failed_status()
}

/// What the end of a command means for the command that triggered it: where
/// that command awaits the end of the operation that it triggered, it is
/// carried on, successful or not as the triggered command is, with the
/// triggered command's payload as the outcome.
pub open spec fn completion(
    root: Seq<char>,
    workflows: Map<Seq<char>, OperationWorkflow>,
    commands: Map<Seq<char>, CommandStateView>,
    ended: CommandStateView,
) -> Seq<EffectView> {
    if !is_terminal(ended.status) {
        Seq::empty()
    } else {
        match invoking_topic_of(root, ended.topic) {
            Some(topic) if commands.contains_key(topic) => match action_for(
                root,
                workflows,
                commands[topic],
            ) {
                Some(ActionView::AwaitOperationCompletion(_, _)) => published(
                    carried(
                        root,
                        workflows,
                        commands[topic],
                        OutcomeView::SubOperationEnded {
                            successful: ended.status == successful_status(),
                            payload: ended.payload,
                        },
                    ),
                ),
                _ => Seq::empty(),
            },
            _ => Seq::empty(),
        }
    }
}

/// What is to be done for a command in a state that was just taken.
///
/// A command that is to be cleared is dropped, and its message is taken off
/// the broker. In every other case the state is written down first. Then a
/// move is made at once, a script that is not waited for is started and the
/// move made, and an operation is triggered at once unless a script is to
/// give its input first. Every other action is left to the one who runs
/// the engine; only a wait for the agent's restart ends at once where the
/// state is found when the agent starts again. A command without workflow
/// or in a state without action fails, unless it has failed already.
pub open spec fn dispatched(
    root: Seq<char>,
    workflows: Map<Seq<char>, OperationWorkflow>,
    state: CommandStateView,
    recovering: bool,
) -> Seq<EffectView> {
    let moved = published(carried(root, workflows, state, OutcomeView::Done));
    match action_for(root, workflows, state) {
        None => if state.status == failed_status() {
            Seq::empty()
        } else {
            seq![EffectView::Persist(state)] + moved
        },
        Some(action) => match action {
            ActionView::Clear => seq![
                EffectView::Forget(state.topic),
                EffectView::Publish(state.clearing_message()),
            ],
            ActionView::MoveTo(_) => seq![EffectView::Persist(state)] + moved,
            ActionView::BgScript(script, _) => seq![
                EffectView::Persist(state),
                EffectView::Start(script),
            ] + moved,
            ActionView::Operation(operation, script, input, _) => if script is None {
                seq![EffectView::Persist(state)] + triggered(
                    root,
                    workflows,
                    state,
                    operation,
                    input,
                    Seq::empty(),
                    OutcomeView::Done,
                )
            } else {
                seq![EffectView::Persist(state), EffectView::Perform(state, action)]
            },
            ActionView::AwaitingAgentRestart(_) => if recovering {
                seq![EffectView::Persist(state)] + published(
                    carried(root, workflows, state, OutcomeView::AgentRestarted),
                )
            } else {
                seq![EffectView::Persist(state), EffectView::Perform(state, action)]
            },
            _ => seq![EffectView::Persist(state), EffectView::Perform(state, action)],
        },
    }
}

/// The message of the first state of the command that a command triggers,
/// with the given fields set in its payload; none where that state cannot be
/// made or its payload cannot be written.
pub open spec fn first_message_of(
    root: Seq<char>,
    state: CommandStateView,
    operation: Seq<char>,
    input: ExcerptView,
    more: Seq<(Seq<char>, JsonView)>,
) -> Option<MqttMessageView> {
    match sub_command_of(root, state, operation, input) {
        Some(sub) => sub.with_values(more).message(),
        None => None,
    }
}

/// What is done to trigger an operation: the first message of its command
/// is published, and then the state to which the triggering command is
/// carried. Where that first message cannot be made, the triggering command
/// fails.
pub open spec fn triggered(
    root: Seq<char>,
    workflows: Map<Seq<char>, OperationWorkflow>,
    state: CommandStateView,
    operation: Seq<char>,
    input: ExcerptView,
    more: Seq<(Seq<char>, JsonView)>,
    outcome: OutcomeView,
) -> Seq<EffectView> {
    match first_message_of(root, state, operation, input, more) {
        Some(message) => seq![EffectView::Publish(message)] + published(
            carried(root, workflows, state, outcome),
        ),
        None => published(Some(state.failed_with("no sub-operation"@))),
    }
}

/// The fields that a script wrote: those of its output, where that is a
/// JSON object.
pub open spec fn output_fields(stdout: Seq<u8>) -> Seq<(Seq<char>, JsonView)> {
    match json_parsed(stdout) {
        Some(JsonView::Object(fields)) => fields,
        _ => Seq::empty(),
    }
}

/// The fields that the script of a triggering action has given for the
/// command to be triggered: those that it wrote, where the action has such a
/// script and the outcome is that a script ended with the code 0.
pub open spec fn input_given(action: Option<ActionView>, outcome: OutcomeView) -> Option<
    Seq<(Seq<char>, JsonView)>,
> {
    match (action, outcome) {
        (
            Some(ActionView::Operation(_, Some(_), _, _)),
            OutcomeView::ScriptEnded { code: Some(c), stdout },
        ) => if c == 0 {
            Some(output_fields(stdout))
        } else {
            None
        },
        _ => None,
    }
}

/// The commands after a message came on a command's topic, and what the
/// message says. When the agent starts, a command may be found in any state;
/// later, the first state of a command must be `init`.
pub open spec fn taken_update(
    commands: Map<Seq<char>, CommandStateView>,
    topic: Seq<char>,
    payload: Seq<u8>,
    recovering: bool,
) -> (Map<Seq<char>, CommandStateView>, Result<Option<CommandStateView>, UpdateFault>) {
    match command_state_of(topic, payload) {
        Ok(Some(state)) if recovering => (commands.insert(topic, state), Ok(Some(state))),
        _ => external_update(commands, topic, payload),
    }
}

/// The commands after a message came on a command's topic, and what is to
/// be done then, or why the message was not taken.
///
/// Where the message clears a command that is under way, what was written
/// down of the command is dropped; for a command that is not under way,
/// nothing is done. Where the message brings a state, the command that
/// triggered this one is carried on first if this one has ended, then the
/// state's own action is seen to, and last come the warnings of the
/// references of the action that are missing.
pub open spec fn reaction(
    root: Seq<char>,
    workflows: Map<Seq<char>, OperationWorkflow>,
    commands: Map<Seq<char>, CommandStateView>,
    topic: Seq<char>,
    payload: Seq<u8>,
    recovering: bool,
) -> (Map<Seq<char>, CommandStateView>, Result<Seq<EffectView>, UpdateFault>) {
    let (taken, said) = taken_update(commands, topic, payload, recovering);
    match said {
        Err(fault) => (commands, Err(fault)),
        Ok(None) => (
            taken,
            Ok(
                if commands.contains_key(topic) {
                    seq![EffectView::Forget(topic)]
                } else {
                    Seq::empty()
                },
            ),
        ),
        Ok(Some(state)) => (
            if action_for(root, workflows, state) == Some(ActionView::Clear) {
                taken.remove(topic)
            } else {
                taken
            },
            Ok(
                completion(root, workflows, taken, state) + dispatched(
                    root,
                    workflows,
                    state,
                    recovering,
                ) + reference_warnings(root, workflows, state),
            ),
        ),
    }
}

/// What is to be done once an action has been carried out for a command in
/// a state: the next state is published; where the script of a triggering
/// action has ended well, the operation is triggered first, with the fields
/// that the script wrote. A warning follows where a script ended well and
/// wrote what is no JSON text. Nothing is done where the command is no longer
/// in that state.
pub open spec fn outcome_reaction(
    root: Seq<char>,
    workflows: Map<Seq<char>, OperationWorkflow>,
    commands: Map<Seq<char>, CommandStateView>,
    state: CommandStateView,
    outcome: OutcomeView,
) -> Seq<EffectView> {
    if commands.contains_key(state.topic) && commands[state.topic].status == state.status {
        (match (action_for(root, workflows, state), input_given(
            action_for(root, workflows, state),
            outcome,
        )) {
            (Some(ActionView::Operation(operation, _, input, _)), Some(more)) => triggered(
                root,
                workflows,
                state,
                operation,
                input,
                more,
                outcome,
            ),
            _ => published(carried(root, workflows, state, outcome)),
        }) + output_warnings(action_for(root, workflows, state), state, outcome)
    } else {
        Seq::empty()
    }
}

/// A command can be cleared again and again: once a message has cleared
/// it, the command is not under way, and a message that clears it once more
/// leaves the commands as they are and asks for nothing.
pub proof fn lemma_clearing_again_does_nothing(
    root: Seq<char>,
    workflows: Map<Seq<char>, OperationWorkflow>,
    commands: Map<Seq<char>, CommandStateView>,
    topic: Seq<char>,
    recovering: bool,
)
    ensures
        ({
            let once = reaction(root, workflows, commands, topic, Seq::empty(), recovering).0;
            &&& !once.contains_key(topic)
            &&& reaction(root, workflows, once, topic, Seq::empty(), recovering) == (
                once,
                Ok::<Seq<EffectView>, UpdateFault>(Seq::empty()),
            )
        }),
{
    assert(commands.remove(topic).remove(topic) =~= commands.remove(topic));
}

/// Every list of effects that the engine gives for a state that it keeps
/// starts with writing the state down: nothing is published, started or
/// carried out for a state that was not written down before.
pub proof fn lemma_persisted_first(
    root: Seq<char>,
    workflows: Map<Seq<char>, OperationWorkflow>,
    state: CommandStateView,
    recovering: bool,
)
    ensures
        ({
            let effects = dispatched(root, workflows, state, recovering);
            effects.len() == 0 || effects[0] == EffectView::Persist(state) || action_for(
                root,
                workflows,
                state,
            ) == Some(ActionView::Clear)
        }),
{
}

fn put(effects: &mut Vec<Effect>, effect: Effect)
    ensures
        effect_views(final(effects)@) == effect_views(old(effects)@).push(effect@),
{
    let ghost before = effect_views(effects@);
    effects.push(effect);
    assert(effect_views(effects@) =~= before.push(effect@));
}

fn publish(effects: &mut Vec<Effect>, next: Option<GenericCommandState>)
    ensures
        effect_views(final(effects)@) == effect_views(old(effects)@) + published(
            match next {
                Some(state) => Some(state@),
                None => None,
            },
        ),
{
    let ghost before = effect_views(effects@);
    if let Some(state) = next {
        if let Some(message) = state.into_message() {
            put(effects, Effect::Publish(message));
            assert(before.push(EffectView::Publish(message@)) =~= before + seq![
                EffectView::Publish(message@),
            ]);
            return ;
        }
    }
    assert(before =~= before + Seq::<EffectView>::empty());
}

fn fields_written(stdout: &Vec<u8>) -> (fields: Vec<(String, Json)>)
    ensures
        field_views(fields@) == output_fields(stdout@),
{
    match Json::parse(stdout.as_slice()) {
        Some(json) => {
            proof {
                json.lemma_view();
            }
            match json {
                Json::Object(fields) => {
                    return fields;
                },
                _ => {},
            }
        },
        None => {},
    }
    let nothing: Vec<(String, Json)> = Vec::new();
    assert(field_views(nothing@) =~= Seq::<(Seq<char>, JsonView)>::empty());
    nothing
}

fn warn_of_missing(effects: &mut Vec<Effect>, topic: &str, paths: Vec<String>)
    ensures
        effect_views(final(effects)@) == effect_views(old(effects)@) + missing_warnings(
            topic@,
            texts(paths@),
        ),
{
    let ghost before = effect_views(effects@);
    let ghost all = missing_warnings(topic@, texts(paths@));
    let mut i: usize = 0;
    assert(before =~= before + all.take(0));
    while i < paths.len()
        invariant
            i <= paths.len(),
            all == missing_warnings(topic@, texts(paths@)),
            effect_views(effects@) == before + all.take(i as int),
        decreases paths.len() - i,
    {
        let warning = Warning::MissingReference {
            topic: owned(topic),
            reference: paths[i].clone(),
        };
        assert(EffectView::Warn(warning@) == all[i as int]);
        put(effects, Effect::Warn(warning));
        i += 1;
        assert(all.take(i as int) =~= all.take(i - 1).push(all[i - 1]));
        assert(effect_views(effects@) =~= before + all.take(i as int));
    }
    assert(all.take(paths.len() as int) =~= all);
}

impl WorkflowSupervisor {
    fn missing_references_of(&self, state: &GenericCommandState) -> (paths: Vec<String>)
        ensures
            missing_warnings(state.topic@, texts(paths@)) == reference_warnings(
                self.schema.root@,
                self.workflows@,
                state@,
            ),
    {
        let nothing: Vec<String> = Vec::new();
        assert(missing_warnings(state.topic@, texts(nothing@)) =~= Seq::<EffectView>::empty());
        match self.workflow_of(&state.topic) {
            Some(workflow) => match workflow.states.get(state.status.as_str()) {
                Some(action) => action.missing_references(state),
                None => nothing,
            },
            None => nothing,
        }
    }

    fn complete_invoking(&self, ended: &GenericCommandState, effects: &mut Vec<Effect>)
        ensures
            effect_views(final(effects)@) == effect_views(old(effects)@) + completion(
                self.schema.root@,
                self.workflows@,
                self.command_states(),
                ended@,
            ),
    {
        let ghost before = effect_views(effects@);
        proof {
            assert(before =~= before + Seq::<EffectView>::empty());
        }
        let successful = same_text(ended.status.as_str(), "successful");
        if !successful && !same_text(ended.status.as_str(), "failed") {
            return ;
        }
        let topic = match invoking_command_topic(&self.schema, ended.topic.name()) {
            Some(topic) => topic,
            None => {
                return ;
            },
        };
        let invoking = match self.commands.get(topic.as_str()) {
            Some(invoking) => invoking,
            None => {
                return ;
            },
        };
        match self.get_action(invoking) {
            Ok(OperationAction::AwaitOperationCompletion(_, _)) => {
                let outcome = ActionOutcome::SubOperationEnded {
                    successful,
                    payload: ended.payload.clone(),
                };
                publish(effects, self.advance(invoking.clone(), outcome));
            },
            _ => {},
        }
    }

    fn trigger(
        &self,
        state: GenericCommandState,
        operation: &str,
        input: &StateExcerpt,
        more: Vec<(String, Json)>,
        outcome: ActionOutcome,
        effects: &mut Vec<Effect>,
    )
        ensures
            effect_views(final(effects)@) == effect_views(old(effects)@) + triggered(
                self.schema.root@,
                self.workflows@,
                state@,
                operation@,
                input@,
                field_views(more@),
                outcome@,
            ),
    {
        let ghost before = effect_views(effects@);
        let first = match sub_command(&self.schema, &state, operation, input) {
            Some(sub) => sub.update_with_values(more).into_message(),
            None => None,
        };
        match first {
            Some(message) => {
                put(effects, Effect::Publish(message));
                publish(effects, self.advance(state, outcome));
                assert(effect_views(effects@) =~= before + (seq![EffectView::Publish(message@)]
                    + published(carried(self.schema.root@, self.workflows@, state@, outcome@))));
            },
            None => {
                publish(effects, Some(state.fail_with("no sub-operation")));
            },
        }
    }

    fn dispatch(&mut self, state: GenericCommandState, recovering: bool, effects: &mut Vec<Effect>)
        requires
            old(self).command_states().contains_key(state.topic@),
            old(self).command_states()[state.topic@] == state@,
        ensures
            final(self).schema == old(self).schema,
            final(self).workflows == old(self).workflows,
            final(self).command_states() == if action_for(
                old(self).schema.root@,
                old(self).workflows@,
                state@,
            ) == Some(ActionView::Clear) {
                old(self).command_states().remove(state.topic@)
            } else {
                old(self).command_states()
            },
            effect_views(final(effects)@) == effect_views(old(effects)@) + dispatched(
                old(self).schema.root@,
                old(self).workflows@,
                state@,
                recovering,
            ),
    {
        let ghost before = effect_views(effects@);
        let ghost expected = dispatched(self.schema.root@, self.workflows@, state@, recovering);
        let action = match self.get_action(&state) {
            Ok(action) => action,
            Err(_) => {
                if !same_text(state.status.as_str(), "failed") {
                    put(effects, Effect::Persist(state.clone()));
                    publish(effects, self.advance(state, ActionOutcome::Done));
                }
                assert(effect_views(effects@) =~= before + expected);
                return ;
            },
        };
        match action {
            OperationAction::Clear => {
                put(effects, Effect::Forget(owned(state.topic.name())));
                match self.clear(&state.topic) {
                    Some(message) => {
                        put(effects, Effect::Publish(message));
                    },
                    None => {},
                }
            },
            OperationAction::MoveTo(_) => {
                put(effects, Effect::Persist(state.clone()));
                publish(effects, self.advance(state, ActionOutcome::Done));
            },
            OperationAction::BgScript(script, _) => {
                put(effects, Effect::Persist(state.clone()));
                put(effects, Effect::Start(script));
                publish(effects, self.advance(state, ActionOutcome::Done));
            },
            OperationAction::Operation(operation, script, input, handlers) => {
                put(effects, Effect::Persist(state.clone()));
                if script.is_none() {
                    let nothing: Vec<(String, Json)> = Vec::new();
                    assert(field_views(nothing@) =~= Seq::<(Seq<char>, JsonView)>::empty());
                    self.trigger(
                        state,
                        operation.as_str(),
                        &input,
                        nothing,
                        ActionOutcome::Done,
                        effects,
                    );
                } else {
                    put(
                        effects,
                        Effect::Perform(
                            state,
                            OperationAction::Operation(operation, script, input, handlers),
                        ),
                    );
                }
            },
            OperationAction::AwaitingAgentRestart(handlers) => {
                put(effects, Effect::Persist(state.clone()));
                if recovering {
                    publish(effects, self.advance(state, ActionOutcome::AgentRestarted));
                } else {
                    put(
                        effects,
                        Effect::Perform(state, OperationAction::AwaitingAgentRestart(handlers)),
                    );
                }
            },
            other => {
                put(effects, Effect::Persist(state.clone()));
                put(effects, Effect::Perform(state, other));
            },
        }
        assert(effect_views(effects@) =~= before + expected);
    }

    fn take(&mut self, message: &MqttMessage, recovering: bool) -> (r: Result<
        Option<GenericCommandState>,
        CommandUpdateError,
    >)
        ensures
            final(self).schema == old(self).schema,
            final(self).workflows == old(self).workflows,
            final(self).command_states() == taken_update(
                old(self).command_states(),
                message.topic@,
                message.payload@,
                recovering,
            ).0,
            match taken_update(
                old(self).command_states(),
                message.topic@,
                message.payload@,
                recovering,
            ).1 {
                Ok(Some(view)) => r matches Ok(Some(state)) && state@ == view,
                Ok(None) => r matches Ok(None),
                Err(fault) => r matches Err(e) && e.tells(fault, message.topic@),
            },
    {
        if recovering {
            match GenericCommandState::from_command_message(
                &message.topic,
                message.payload.as_slice(),
            ) {
                Ok(Some(state)) => {
                    self.store(state.clone());
                    return Ok(Some(state));
                },
                _ => {},
            }
        }
        self.apply_external_update(&message.topic, message.payload.as_slice())
    }

    /// Takes a message that came on the topic of a command, and tells what
    /// is to be done. `recovering` says that the message is one of those
    /// found on the broker when the agent starts.
    pub fn on_message(&mut self, message: &MqttMessage, recovering: bool) -> (r: Result<
        Vec<Effect>,
        CommandUpdateError,
    >)
        ensures
            final(self).schema == old(self).schema,
            final(self).workflows == old(self).workflows,
            final(self).command_states() == reaction(
                old(self).schema.root@,
                old(self).workflows@,
                old(self).command_states(),
                message.topic@,
                message.payload@,
                recovering,
            ).0,
            match reaction(
                old(self).schema.root@,
                old(self).workflows@,
                old(self).command_states(),
                message.topic@,
                message.payload@,
                recovering,
            ).1 {
                Ok(effects) => r matches Ok(found) && effect_views(found@) == effects,
                Err(fault) => r matches Err(e) && e.tells(fault, message.topic@),
            },
    {
        let known = self.commands.contains_key(message.topic.name());
        let state = match self.take(message, recovering) {
            Err(e) => {
                return Err(e);
            },
            Ok(None) => {
                let mut dropped: Vec<Effect> = Vec::new();
                assert(effect_views(dropped@) =~= Seq::<EffectView>::empty());
                if known {
                    put(&mut dropped, Effect::Forget(owned(message.topic.name())));
                    assert(effect_views(dropped@) =~= seq![EffectView::Forget(message.topic@)]);
                }
                return Ok(dropped);
            },
            Ok(Some(state)) => state,
        };
        let mut effects: Vec<Effect> = Vec::new();
        assert(effect_views(effects@) =~= Seq::<EffectView>::empty());
        self.complete_invoking(&state, &mut effects);
        let ghost completed = effect_views(effects@);
        let missing = self.missing_references_of(&state);
        let topic = owned(state.topic.name());
        self.dispatch(state, recovering, &mut effects);
        warn_of_missing(&mut effects, topic.as_str(), missing);
        assert(Seq::<EffectView>::empty() + completed =~= completed);
        Ok(effects)
    }

    /// Takes what came of carrying out the action of a command's state, and
    /// tells what is to be done.
    pub fn on_outcome(&self, state: GenericCommandState, outcome: ActionOutcome) -> (effects: Vec<
        Effect,
    >)
        ensures
            effect_views(effects@) == outcome_reaction(
                self.schema.root@,
                self.workflows@,
                self.command_states(),
                state@,
                outcome@,
            ),
    {
        let mut effects: Vec<Effect> = Vec::new();
        assert(effect_views(effects@) =~= Seq::<EffectView>::empty());
        let current = match self.commands.get(state.topic.name()) {
            Some(known) => same_text(known.status.as_str(), state.status.as_str()),
            None => false,
        };
        if !current {
            return effects;
        }
        let action = self.get_action(&state);
        let unread = match &action {
            Ok(OperationAction::Script(_, _)) => match &outcome {
                ActionOutcome::ScriptEnded(exit) => exit.has_unreadable_output(),
                _ => false,
            },
            _ => false,
        };
        let topic = owned(state.topic.name());
        let more: Option<Vec<(String, Json)>> = match &action {
            Ok(OperationAction::Operation(_, Some(_), _, _)) => match &outcome {
                ActionOutcome::ScriptEnded(ScriptExit::Exited { code, stdout }) => {
                    if *code == 0 {
                        Some(fields_written(stdout))
                    } else {
                        None
                    }
                },
                _ => None,
            },
            _ => None,
        };
        match more {
            Some(more) => match action {
                Ok(OperationAction::Operation(operation, _, input, _)) => {
                    self.trigger(state, operation.as_str(), &input, more, outcome, &mut effects);
                },
                _ => {},
            },
            None => {
                publish(&mut effects, self.advance(state, outcome));
            },
        }
        let ghost done = effect_views(effects@);
        if unread {
            put(&mut effects, Effect::Warn(Warning::UnreadableOutput { topic }));
            assert(effect_views(effects@) =~= done + seq![
                EffectView::Warn(WarningView::UnreadableOutput { topic: topic@ }),
            ]);
        } else {
            assert(done =~= done + Seq::<EffectView>::empty());
        }
        assert(Seq::<EffectView>::empty() + done =~= done);
        effects
    }
}

} // verus!
