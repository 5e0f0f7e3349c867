//! Operations that are triggered by other operations.

use crate::json::JsonView;
use crate::mqtt::topic::is_valid_topic;
use crate::mqtt_topics::{parsed_topic, topic_text, Channel, ChannelView, MqttSchema, OperationType};
use crate::text::{join, joined_text, owned, same_text, split, split_text, texts};
use crate::workflow::script::{ExcerptView, StateExcerpt};
use crate::workflow::state::{init_status, CommandStateView, GenericCommandState};
use vstd::prelude::*;

verus! {

/// The id of the command that is triggered by a command: it names the
/// operation and the id of the command that triggers it.
pub open spec fn sub_command_id(operation: Seq<char>, cmd_id: Seq<char>) -> Seq<char> {
    "sub:"@ + operation + ":"@ + cmd_id
}

/// The first state of the command that a command triggers: on the topic of
/// the same entity, for the operation that is triggered, with `init` as
/// status and with those fields of the triggering command's payload that the
/// excerpt takes. None where the triggering command's topic is no command
/// topic, or where the new topic's name would hold a wildcard.
pub open spec fn sub_command_of(
    root: Seq<char>,
    state: CommandStateView,
    operation: Seq<char>,
    input: ExcerptView,
) -> Option<CommandStateView> {
    match parsed_topic(root, state.topic) {
        Ok((entity, ChannelView::Command(invoking, cmd_id))) => {
            let topic = topic_text(
                root,
                entity,
                ChannelView::Command(operation, sub_command_id(invoking, cmd_id)),
            );
            if is_valid_topic(topic) {
                Some(
                    (CommandStateView {
                        topic,
                        status: init_status(),
                        payload: JsonView::Object(seq![("status"@, JsonView::Text(init_status()))]),
                    }).with_values(input.of(state.payload)),
                )
            } else {
                None
            }
        },
        _ => None,
    }
}

/// Makes the first state of the command that a command triggers.
pub fn sub_command(
    schema: &MqttSchema,
    state: &GenericCommandState,
    operation: &str,
    input: &StateExcerpt,
) -> (r: Option<GenericCommandState>)
    ensures
        match sub_command_of(schema.root@, state@, operation@, input@) {
            Some(view) => r matches Some(sub) && sub@ == view,
            None => r is None,
        },
{
    match schema.entity_channel_of(state.topic.name()) {
        Ok((entity, Channel::Command { operation: invoking, cmd_id })) => {
            let mut sub_id = owned("sub:");
            sub_id.append(invoking.name().as_str());
            sub_id.append(":");
            sub_id.append(cmd_id.as_str());
            let channel = Channel::Command {
                operation: OperationType::from_name(operation),
                cmd_id: sub_id,
            };
            match schema.topic_for(&entity, &channel) {
                Ok(topic) => Some(
                    GenericCommandState::new(&topic, "init").update_with_values(
                        input.extract_from(&state.payload),
                    ),
                ),
                Err(_) => None,
            }
        },
        _ => None,
    }
}

/// The topic of the command that triggered a command, told from the
/// command's id: for the id `sub:<operation>:<id>`, the topic of the same
/// entity for that operation and that id. None for a command that was not
/// triggered by another.
pub open spec fn invoking_topic_of(root: Seq<char>, topic: Seq<char>) -> Option<Seq<char>> {
    match parsed_topic(root, topic) {
        Ok((entity, ChannelView::Command(_, cmd_id))) => {
            let parts = split_text(cmd_id, ':');
            if parts.len() >= 3 && parts[0] == "sub"@ {
                Some(
                    topic_text(
                        root,
                        entity,
                        ChannelView::Command(parts[1], joined_text(parts.skip(2), ":"@)),
                    ),
                )
            } else {
                None
            }
        },
        _ => None,
    }
}

/// The topic of the command that triggered a command.
pub fn invoking_command_topic(schema: &MqttSchema, topic: &str) -> (r: Option<String>)
    ensures
        match invoking_topic_of(schema.root@, topic@) {
            Some(name) => r matches Some(found) && found@ == name,
            None => r is None,
        },
{
    match schema.entity_channel_of(topic) {
        Ok((entity, Channel::Command { operation: _, cmd_id })) => {
            let parts = split(cmd_id.as_str(), ':');
            assert(forall|i: int| 0 <= i < parts@.len() ==> texts(parts@)[i] == parts@[i]@);
            if parts.len() >= 3 && same_text(parts[0].as_str(), "sub") {
                let mut rest: Vec<String> = Vec::new();
                let mut i: usize = 2;
                assert(texts(rest@) =~= texts(parts@).skip(2).take(0));
                while i < parts.len()
                    invariant
                        2 <= i <= parts@.len(),
                        texts(rest@) == texts(parts@).skip(2).take(i - 2),
                    decreases parts@.len() - i,
                {
                    let ghost before = rest@;
                    let part = parts[i].clone();
                    rest.push(part);
                    i += 1;
                    assert(texts(rest@) =~= texts(before).push(part@));
                    assert(texts(parts@).skip(2).take(i - 2) =~= texts(parts@).skip(2).take(
                        i - 3,
                    ).push(part@));
                }
                assert(texts(parts@).skip(2).take(parts@.len() - 2) =~= texts(parts@).skip(2));
                let channel = Channel::Command {
                    operation: OperationType::from_name(parts[1].as_str()),
                    cmd_id: join(&rest, ":"),
                };
                Some(schema.topic_name(&entity, &channel))
            } else {
                None
            }
        },
        _ => None,
    }
}

} // verus!
