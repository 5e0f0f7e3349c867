//! The state of a command: its topic, its status and its payload.

use crate::json::{field_views, get_field, set_field, with_field, Json, JsonView};
use crate::json_codec::{json_parsed, json_printed};
use crate::mqtt::message::{MqttMessage, MqttMessageView};
use crate::mqtt::topic::{QoS, Topic};
use crate::text::{owned, texts};
use crate::workflow::template::{render, rendered};
use vstd::prelude::*;
use vstd::utf8::encode_utf8;

verus! {

/// The status in which every command starts.
pub open spec fn init_status() -> Seq<char> {
    "init"@
}

/// The status of a command that was carried out.
pub open spec fn successful_status() -> Seq<char> {
    "successful"@
}

/// The status of a command that failed.
pub open spec fn failed_status() -> Seq<char> {
    "failed"@
}

/// The state of a command, as published on the command's topic. The payload
/// is a JSON object that holds the status among its fields.
#[derive(Debug)]
pub struct GenericCommandState {
    pub topic: Topic,
    pub status: String,
    pub payload: Json,
}

/// The state of a command as contracts speak of it.
pub struct CommandStateView {
    pub topic: Seq<char>,
    pub status: Seq<char>,
    pub payload: JsonView,
}

/// The fields of a payload; none for a payload that is no object.
pub open spec fn payload_fields(payload: JsonView) -> Seq<(Seq<char>, JsonView)> {
    match payload {
        JsonView::Object(fields) => fields,
        _ => Seq::empty(),
    }
}

impl CommandStateView {
    /// The state with one field of the payload set.
    pub open spec fn with_value(self, key: Seq<char>, value: JsonView) -> CommandStateView {
        CommandStateView {
            topic: self.topic,
            status: self.status,
            payload: JsonView::Object(with_field(payload_fields(self.payload), key, value)),
        }
    }

    /// The state moved to another status, which the payload holds too.
    pub open spec fn moved_to(self, status: Seq<char>) -> CommandStateView {
        CommandStateView {
            topic: self.topic,
            status,
            payload: JsonView::Object(
                with_field(payload_fields(self.payload), "status"@, JsonView::Text(status)),
            ),
        }
    }

    /// The state of a command that failed for the given reason.
    pub open spec fn failed_with(self, reason: Seq<char>) -> CommandStateView {
        self.moved_to(failed_status()).with_value("reason"@, JsonView::Text(reason))
    }

    /// The state with the given fields set, one after the other.
    pub open spec fn with_values(self, fields: Seq<(Seq<char>, JsonView)>) -> CommandStateView
        decreases fields.len(),
    {
        if fields.len() == 0 {
            self
        } else {
            self.with_values(fields.drop_last()).with_value(fields.last().0, fields.last().1)
        }
    }

    /// The message that publishes the state: retained, with the payload as
    /// JSON; none where the payload cannot be written.
    pub open spec fn message(self) -> Option<MqttMessageView> {
        match json_printed(self.payload) {
            Some(text) => Some(
                MqttMessageView {
                    topic: self.topic,
                    payload: encode_utf8(text),
                    qos: QoS::AtLeastOnce,
                    retain: true,
                },
            ),
            None => None,
        }
    }

    /// The message that clears the command: retained and empty.
    pub open spec fn clearing_message(self) -> MqttMessageView {
        MqttMessageView {
            topic: self.topic,
            payload: Seq::empty(),
            qos: QoS::AtLeastOnce,
            retain: true,
        }
    }
}

/// What a message on a command's topic says: nothing, where the payload is
/// empty and so clears the command; the command's state, where the payload is
/// a JSON object with a text as `status`; else it is malformed.
pub open spec fn command_state_of(topic: Seq<char>, payload: Seq<u8>) -> Result<
    Option<CommandStateView>,
    (),
> {
    if payload.len() == 0 {
        Ok(None)
    } else {
        match json_parsed(payload) {
            Some(JsonView::Object(fields)) => match JsonView::Object(fields).field("status"@) {
                Some(JsonView::Text(status)) => Ok(
                    Some(CommandStateView { topic, status, payload: JsonView::Object(fields) }),
                ),
                _ => Err(()),
            },
            _ => Err(()),
        }
    }
}

/// A payload that is no state of a command.
#[derive(Debug)]
pub struct InvalidCommandPayload {
    pub topic: String,
}

impl GenericCommandState {
    pub open spec fn view(&self) -> CommandStateView {
        CommandStateView { topic: self.topic@, status: self.status@, payload: self.payload@ }
    }

    /// The state of a new command, with nothing but its status in the payload.
    pub fn new(topic: &Topic, status: &str) -> (state: GenericCommandState)
        ensures
            state@ == (CommandStateView {
                topic: topic@,
                status: status@,
                payload: JsonView::Object(seq![("status"@, JsonView::Text(status@))]),
            }),
    {
        let mut fields: Vec<(String, Json)> = Vec::new();
        fields.push((owned("status"), Json::Text(owned(status))));
        let payload = Json::Object(fields);
        proof {
            payload.lemma_view();
            assert(payload@->Object_0 =~= seq![("status"@, JsonView::Text(status@))]);
        }
        GenericCommandState { topic: topic.clone(), status: owned(status), payload }
    }

    /// Reads the state of a command from a message on its topic.
    pub fn from_command_message(topic: &Topic, payload: &[u8]) -> (r: Result<
        Option<GenericCommandState>,
        InvalidCommandPayload,
    >)
        ensures
            match command_state_of(topic@, payload@) {
                Ok(Some(view)) => r matches Ok(Some(state)) && state@ == view,
                Ok(None) => r matches Ok(None),
                Err(_) => r matches Err(e) && e.topic@ == topic@,
            },
    {
        if payload.len() == 0 {
            return Ok(None);
        }
        if let Some(Json::Object(fields)) = Json::parse(payload) {
            proof {
                Json::Object(fields).lemma_view();
            }
            let status = match get_field(&fields, "status") {
                Some(Json::Text(status)) => Some(status.clone()),
                _ => None,
            };
            if let Some(status) = status {
                return Ok(
                    Some(
                        GenericCommandState {
                            topic: topic.clone(),
                            status,
                            payload: Json::Object(fields),
                        },
                    ),
                );
            }
        }
        Err(InvalidCommandPayload { topic: owned(topic.name()) })
    }

    /// The message that publishes the state.
    pub fn into_message(&self) -> (r: Option<MqttMessage>)
        ensures
            match self@.message() {
                Some(view) => r matches Some(message) && message@ == view,
                None => r is None,
            },
    {
        match self.payload.to_text() {
            Some(text) => Some(MqttMessage::from_text(&self.topic, text.as_str()).with_retain()),
            None => None,
        }
    }

    /// The message that clears the command.
    pub fn clearing_message(&self) -> (message: MqttMessage)
        ensures
            message@ == self@.clearing_message(),
    {
        MqttMessage::new(&self.topic, Vec::new()).with_retain()
    }

    /// Sets one field of the payload.
    pub fn update_with_key_value(self, key: &str, value: Json) -> (state: GenericCommandState)
        ensures
            state@ == self@.with_value(key@, value@),
    {
        let GenericCommandState { topic, status, payload } = self;
        proof {
            payload.lemma_view();
        }
        let fields = match payload {
            Json::Object(fields) => fields,
            _ => {
                let empty: Vec<(String, Json)> = Vec::new();
                assert(field_views(empty@) =~= Seq::<(Seq<char>, JsonView)>::empty());
                empty
            },
        };
        let payload = Json::Object(set_field(fields, key, value));
        proof {
            payload.lemma_view();
        }
        GenericCommandState { topic, status, payload }
    }

    /// Moves the command to another status.
    pub fn move_to(self, status: &str) -> (state: GenericCommandState)
        ensures
            state@ == self@.moved_to(status@),
    {
        let state = self.update_with_key_value("status", Json::Text(owned(status)));
        GenericCommandState { topic: state.topic, status: owned(status), payload: state.payload }
    }

    /// Moves the command to the failed status, with the reason in the payload.
    pub fn fail_with(self, reason: &str) -> (state: GenericCommandState)
        ensures
            state@ == self@.failed_with(reason@),
    {
        self.move_to("failed").update_with_key_value("reason", Json::Text(owned(reason)))
    }

    /// Sets the given fields of the payload, one after the other.
    pub fn update_with_values(self, fields: Vec<(String, Json)>) -> (state: GenericCommandState)
        ensures
            state@ == self@.with_values(field_views(fields@)),
    {
        let mut state = self;
        let ghost all = field_views(fields@);
        let mut i: usize = 0;
        assert(all.take(0) =~= Seq::<(Seq<char>, JsonView)>::empty());
        while i < fields.len()
            invariant
                i <= fields.len(),
                all == field_views(fields@),
                state@ == self@.with_values(all.take(i as int)),
            decreases fields.len() - i,
        {
            proof {
                assert(all.take(i + 1).drop_last() =~= all.take(i as int));
                assert(all.take(i + 1).last() == all[i as int]);
            }
            state = state.update_with_key_value(fields[i].0.as_str(), fields[i].1.clone());
            i += 1;
        }
        assert(all.take(fields.len() as int) =~= all);
        state
    }

    /// Puts the values of the state into a template.
    pub fn inject_values_into_template(&self, target: &str) -> (text: String)
        ensures
            text@ == rendered(self.topic@, self.payload@, target@),
    {
        render(self.topic.name(), &self.payload, target)
    }

    /// Puts the values of the state into each of the templates.
    pub fn inject_values_into_parameters(&self, args: &Vec<String>) -> (texts_out: Vec<String>)
        ensures
            texts(texts_out@) == texts(args@).map_values(
                |arg: Seq<char>| rendered(self.topic@, self.payload@, arg),
            ),
    {
        let mut out: Vec<String> = Vec::new();
        let ghost f = |arg: Seq<char>| rendered(self.topic@, self.payload@, arg);
        let mut i: usize = 0;
        assert(texts(out@) =~= texts(args@).map_values(f).take(0));
        while i < args.len()
            invariant
                i <= args.len(),
                f == |arg: Seq<char>| rendered(self.topic@, self.payload@, arg),
                texts(out@) == texts(args@).map_values(f).take(i as int),
            decreases args.len() - i,
        {
            let ghost before = out@;
            let text = self.inject_values_into_template(args[i].as_str());
            out.push(text);
            i += 1;
            assert(texts(out@) =~= texts(before).push(text@));
            assert(texts(args@).map_values(f).take(i as int) =~= texts(args@).map_values(f).take(
                i - 1,
            ).push(text@));
        }
        assert(texts(args@).map_values(f).take(args.len() as int) =~= texts(args@).map_values(f));
        out
    }
}

impl Clone for GenericCommandState {
    fn clone(&self) -> (copy: GenericCommandState)
        ensures
            copy@ == self@,
    {
        GenericCommandState {
            topic: self.topic.clone(),
            status: self.status.clone(),
            payload: self.payload.clone(),
        }
    }
}

} // verus!
