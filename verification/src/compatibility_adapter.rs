//! An adapter that lets the mapper talk to an agent of an older version,
//! which still uses the `tedge/commands/#` topics.
//!
//! The adapter takes the commands published on the new command topics of the
//! main device and republishes them on the old request topics, with the
//! command's id moved from the topic into the payload. It takes the old
//! agent's responses the other way, with the id moved from the payload into
//! the topic. Only restart, software list and software update are handled.

use crate::json::{get_field, set_field, remove_field, with_field, without_field, Json, JsonView};
use crate::json_codec::{json_parsed, json_printed};
use crate::mqtt::message::{utf8_text, MqttMessage, MqttMessageView};
use crate::mqtt::topic::{is_valid_topic, QoS, Topic, TopicFilter};
use crate::smartrest::topic::TopicPrefix;
use crate::text::{has_prefix, owned, same_text, split, split_text, starts_with, texts};
use vstd::prelude::*;
use vstd::string::StrSliceExecFns;
use vstd::utf8::{decode_utf8, encode_utf8, valid_utf8};

verus! {

/// What the adapter makes of a message.
pub enum Conversion {
    /// Nothing is to be published.
    Ignored,
    /// This message is to be published.
    Message(MqttMessageView),
    /// The message could not be converted; the text says why.
    Failed(Seq<char>),
}

/// The payload as text for an error message.
pub open spec fn payload_text(payload: Seq<u8>) -> Seq<char> {
    if valid_utf8(payload) {
        decode_utf8(payload)
    } else {
        "non utf8 payload"@
    }
}

/// The request for the old agent made of a command on a new topic.
///
/// An empty payload clears the command and is ignored, as is every state but
/// `init`. The request is the payload with the command's id as `id` and
/// without `status`, on the old request topic. A payload that is no JSON
/// object, or has no text as `status`, is an error.
pub open spec fn old_agent_request(cmd_type: Seq<char>, cmd_id: Seq<char>, payload: Seq<u8>) ->
    Conversion {
    let failed = Conversion::Failed(
        "Fail to inject command 'id' into agent "@ + cmd_type + " request: "@ + payload_text(
            payload,
        ),
    );
    let topic = "tedge/commands/req/"@ + cmd_type;
    if payload.len() == 0 {
        Conversion::Ignored
    } else {
        match json_parsed(payload) {
            Some(JsonView::Object(request)) => match JsonView::Object(request).field("status"@) {
                Some(JsonView::Text(status)) => if status != "init"@ {
                    Conversion::Ignored
                } else {
                    let updated = JsonView::Object(
                        without_field(
                            with_field(request, "id"@, JsonView::Text(cmd_id)),
                            "status"@,
                        ),
                    );
                    match json_printed(updated) {
                        Some(text) if is_valid_topic(topic) => Conversion::Message(
                            MqttMessageView {
                                topic,
                                payload: encode_utf8(text),
                                qos: QoS::AtLeastOnce,
                                retain: false,
                            },
                        ),
                        _ => failed,
                    }
                },
                _ => failed,
            },
            _ => failed,
        }
    }
}

/// The name of the new command topic for a response of the old agent: the
/// command's id if it starts with the mapper's prefix, else the prefix, a
/// hyphen and the id.
pub open spec fn new_command_topic(prefix: Seq<char>, cmd_type: Seq<char>, cmd_id: Seq<char>) -> Seq<
    char,
> {
    if has_prefix(cmd_id, prefix) {
        "te/device/main///cmd/"@ + cmd_type + "/"@ + cmd_id
    } else {
        "te/device/main///cmd/"@ + cmd_type + "/"@ + prefix + "-"@ + cmd_id
    }
}

/// The command state made of a response of the old agent: the same payload,
/// retained, on the new command topic that the payload's `id` names. A
/// payload that is no JSON object, or has no text as `id`, is an error.
pub open spec fn old_agent_response(prefix: Seq<char>, cmd_type: Seq<char>, payload: Seq<u8>) ->
    Conversion {
    let failed = Conversion::Failed(
        "Fail to extract command 'id' from agent "@ + cmd_type + " response: "@ + payload_text(
            payload,
        ),
    );
    match json_parsed(payload) {
        Some(JsonView::Object(response)) => match JsonView::Object(response).field("id"@) {
            Some(JsonView::Text(cmd_id)) => {
                let topic = new_command_topic(prefix, cmd_type, cmd_id);
                if is_valid_topic(topic) {
                    Conversion::Message(
                        MqttMessageView { topic, payload, qos: QoS::AtLeastOnce, retain: true },
                    )
                } else {
                    failed
                }
            },
            _ => failed,
        },
        _ => failed,
    }
}

/// The old command type for an operation of the new topics.
pub open spec fn old_command_type(operation: Seq<char>) -> Option<Seq<char>> {
    if operation == "restart"@ {
        Some("control/restart"@)
    } else if operation == "software_list"@ {
        Some("software/list"@)
    } else if operation == "software_update"@ {
        Some("software/update"@)
    } else {
        None
    }
}

/// The operation of the new topics for the last two levels of an old
/// response topic.
pub open spec fn new_operation(group: Seq<char>, action: Seq<char>) -> Option<Seq<char>> {
    if group == "control"@ && action == "restart"@ {
        Some("restart"@)
    } else if group == "software"@ && action == "list"@ {
        Some("software_list"@)
    } else if group == "software"@ && action == "update"@ {
        Some("software_update"@)
    } else {
        None
    }
}

/// What the adapter makes of a message, by its topic: a response of the old
/// agent on `tedge/commands/res/<group>/<action>` becomes a command state; a
/// command on `<root>/device/main///cmd/<operation>/<id>` becomes a request
/// for the old agent; anything else is ignored.
pub open spec fn conversion(prefix: Seq<char>, topic: Seq<char>, payload: Seq<u8>) -> Conversion {
    let levels = split_text(topic, '/');
    if levels.len() == 5 && levels[0] == "tedge"@ && levels[1] == "commands"@ && levels[2]
        == "res"@ && new_operation(levels[3], levels[4]) is Some {
        old_agent_response(prefix, new_operation(levels[3], levels[4]).unwrap(), payload)
    } else if levels.len() == 8 && levels[1] == "device"@ && levels[2] == "main"@ && levels[3].len()
        == 0 && levels[4].len() == 0 && levels[5] == "cmd"@ && old_command_type(levels[6])
        is Some {
        old_agent_request(old_command_type(levels[6]).unwrap(), levels[7], payload)
    } else {
        Conversion::Ignored
    }
}

/// Tells whether a result is what the conversion asks for.
pub open spec fn is_conversion(r: Result<Option<MqttMessage>, String>, expected: Conversion) -> bool {
    match expected {
        Conversion::Ignored => r matches Ok(None),
        Conversion::Message(view) => r matches Ok(Some(message)) && message@ == view,
        Conversion::Failed(reason) => r matches Err(text) && text@ == reason,
    }
}

fn bytes_as_text(payload: &[u8]) -> (text: &str)
    ensures
        text@ == payload_text(payload@),
{
    match utf8_text(payload) {
        Ok(text) => {
            proof {
                vstd::utf8::encode_utf8_decode_utf8(text@);
            }
            text
        },
        Err(_) => "non utf8 payload",
    }
}

fn failure(start: &str, cmd_type: &str, middle: &str, payload: &[u8]) -> (text: String)
    ensures
        text@ == start@ + cmd_type@ + middle@ + payload_text(payload@),
{
    let mut text = owned(start);
    text.append(cmd_type);
    text.append(middle);
    text.append(bytes_as_text(payload));
    text
}

/// Makes the request for the old agent of a command on a new topic.
pub fn convert_to_old_agent_request(cmd_type: &str, cmd_id: &str, payload: &[u8]) -> (r: Result<
    Option<MqttMessage>,
    String,
>)
    ensures
        is_conversion(r, old_agent_request(cmd_type@, cmd_id@, payload@)),
{
    if payload.len() == 0 {
        // Ignore clearing message
        return Ok(None);
    }
    if let Some(Json::Object(request)) = Json::parse(payload) {
        proof {
            Json::Object(request).lemma_view();
        }
        if let Some(Json::Text(status)) = get_field(&request, "status") {
            if !same_text(status.as_str(), "init") {
                // Ignore non-init state
                return Ok(None);
            }
            let request = set_field(request, "id", Json::Text(owned(cmd_id)));
            // The old agent denies the unknown init status
            let request = Json::Object(remove_field(request, "status"));
            proof {
                request.lemma_view();
            }
            if let Some(updated_payload) = request.to_text() {
                let mut name = owned("tedge/commands/req/");
                name.append(cmd_type);
                if let Ok(topic) = Topic::new(name.as_str()) {
                    return Ok(
                        Some(
                            MqttMessage::from_text(&topic, updated_payload.as_str()).with_qos(
                                QoS::AtLeastOnce,
                            ),
                        ),
                    );
                }
            }
        }
    }
    Err(failure("Fail to inject command 'id' into agent ", cmd_type, " request: ", payload))
}

/// Makes the command state of a response of the old agent.
pub fn convert_from_old_agent_response(prefix: &str, cmd_type: &str, payload: &[u8]) -> (r:
    Result<Option<MqttMessage>, String>)
    ensures
        is_conversion(r, old_agent_response(prefix@, cmd_type@, payload@)),
{
    if let Some(Json::Object(response)) = Json::parse(payload) {
        proof {
            Json::Object(response).lemma_view();
        }
        if let Some(Json::Text(cmd_id)) = get_field(&response, "id") {
            // The new mapper expects command ids with a specific prefix
            let mut topic_name = owned("te/device/main///cmd/");
            topic_name.append(cmd_type);
            topic_name.append("/");
            if !starts_with(cmd_id.as_str(), prefix) {
                topic_name.append(prefix);
                topic_name.append("-");
            }
            topic_name.append(cmd_id.as_str());
            if let Ok(topic) = Topic::new(topic_name.as_str()) {
                return Ok(
                    Some(
                        MqttMessage::new(&topic, vstd::slice::slice_to_vec(payload)).with_retain().with_qos(
                            QoS::AtLeastOnce,
                        ),
                    ),
                );
            }
        }
    }
    Err(failure("Fail to extract command 'id' from agent ", cmd_type, " response: ", payload))
}

fn to_new_operation(group: &str, action: &str) -> (r: Option<&'static str>)
    ensures
        match new_operation(group@, action@) {
            Some(operation) => r matches Some(text) && text@ == operation,
            None => r is None,
        },
{
    if same_text(group, "control") && same_text(action, "restart") {
        Some("restart")
    } else if same_text(group, "software") && same_text(action, "list") {
        Some("software_list")
    } else if same_text(group, "software") && same_text(action, "update") {
        Some("software_update")
    } else {
        None
    }
}

fn to_old_command_type(operation: &str) -> (r: Option<&'static str>)
    ensures
        match old_command_type(operation@) {
            Some(cmd_type) => r matches Some(text) && text@ == cmd_type,
            None => r is None,
        },
{
    if same_text(operation, "restart") {
        Some("control/restart")
    } else if same_text(operation, "software_list") {
        Some("software/list")
    } else if same_text(operation, "software_update") {
        Some("software/update")
    } else {
        None
    }
}

/// Converts a message between the old and the new command topics.
pub fn try_convert(prefix: &str, input: &MqttMessage) -> (r: Result<Option<MqttMessage>, String>)
    ensures
        is_conversion(r, conversion(prefix@, input.topic@, input.payload@)),
{
    let levels = split(input.topic.name(), '/');
    let payload = input.payload_bytes();
    assert(forall|i: int| 0 <= i < levels@.len() ==> texts(levels@)[i] == levels@[i]@);
    if levels.len() == 5 && same_text(levels[0].as_str(), "tedge") && same_text(
        levels[1].as_str(),
        "commands",
    ) && same_text(levels[2].as_str(), "res") {
        if let Some(operation) = to_new_operation(levels[3].as_str(), levels[4].as_str()) {
            return convert_from_old_agent_response(prefix, operation, payload);
        }
    }
    if levels.len() == 8 && same_text(levels[1].as_str(), "device") && same_text(
        levels[2].as_str(),
        "main",
    ) && levels[3].as_str().is_empty() && levels[4].as_str().is_empty() && same_text(
        levels[5].as_str(),
        "cmd",
    ) {
        if let Some(cmd_type) = to_old_command_type(levels[6].as_str()) {
            return convert_to_old_agent_request(cmd_type, levels[7].as_str(), payload);
        }
    }
    proof {
        reveal_strlit("tedge");
        reveal_strlit("device");
    }
    Ok(None)
}

/// The topics that the adapter listens to: the old response topics and the
/// new command topics of the three operations.
pub fn old_and_new_command_topics() -> (filter: TopicFilter)
    ensures
        texts(filter.patterns@) == seq![
            "tedge/commands/res/control/restart"@,
            "tedge/commands/res/software/list"@,
            "tedge/commands/res/software/update"@,
            "te/device/main///cmd/restart/+"@,
            "te/device/main///cmd/software_list/+"@,
            "te/device/main///cmd/software_update/+"@,
        ],
{
    let mut filter = TopicFilter::empty();
    assert(texts(filter.patterns@) =~= Seq::<Seq<char>>::empty());
    filter.add_unchecked("tedge/commands/res/control/restart");
    filter.add_unchecked("tedge/commands/res/software/list");
    filter.add_unchecked("tedge/commands/res/software/update");
    filter.add_unchecked("te/device/main///cmd/restart/+");
    filter.add_unchecked("te/device/main///cmd/software_list/+");
    filter.add_unchecked("te/device/main///cmd/software_update/+");
    assert(texts(filter.patterns@) =~= seq![
        "tedge/commands/res/control/restart"@,
        "tedge/commands/res/software/list"@,
        "tedge/commands/res/software/update"@,
        "te/device/main///cmd/restart/+"@,
        "te/device/main///cmd/software_list/+"@,
        "te/device/main///cmd/software_update/+"@,
    ]);
    filter
}

/// The adapter between the mapper and an agent of an older version.
#[derive(Debug)]
pub struct OldAgentAdapter {
    pub prefix: String,
}

impl OldAgentAdapter {
    /// The adapter for a mapper whose commands are named after the given
    /// topic prefix.
    pub fn new(topic_prefix: &TopicPrefix) -> (adapter: Self)
        ensures
            adapter.prefix@ == topic_prefix@ + "-mapper"@,
    {
        let mut prefix = owned(topic_prefix.as_str());
        prefix.append("-mapper");
        OldAgentAdapter { prefix }
    }

    /// The messages to publish for a message that came in: the converted
    /// message, or none where there is nothing to convert or the conversion
    /// failed.
    pub fn convert(&mut self, input: &MqttMessage) -> (output: Vec<MqttMessage>)
        ensures
            final(self).prefix == old(self).prefix,
            match conversion(old(self).prefix@, input.topic@, input.payload@) {
                Conversion::Message(view) => output@.len() == 1 && output@[0]@ == view,
                _ => output@.len() == 0,
            },
    {
        let mut output: Vec<MqttMessage> = Vec::new();
        match try_convert(self.prefix.as_str(), input) {
            Ok(Some(message)) => {
                output.push(message);
            },
            Ok(None) => {},
            Err(_) => {},
        }
        output
    }
}

} // verus!
