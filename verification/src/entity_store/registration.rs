//! Registrations as they come over MQTT: a retained message on the entity's
//! topic, with the entity's type as `@type`, its parent as `@parent` and its
//! name in the cloud as `@id`.

use crate::entity_store::model::{EntityMetadata, EntityType};
use crate::entity_store::store::{EntityRegistrationMessage, RegistrationView};
use crate::json::{
    clone_json, field_views, get_field, remove_field, set_field, with_field, without_field, Json,
    JsonView,
};
use crate::json_codec::{json_parsed, json_printed};
use crate::mqtt::message::{MqttMessage, MqttMessageView};
use crate::mqtt::topic::{is_valid_topic, QoS};
use crate::mqtt_topics::{
    parsed_topic, topic_id_fault, topic_text, Channel, ChannelView, EntityTopicId, MqttSchema,
};
use crate::text::{owned, same_text};
use vstd::prelude::*;
use vstd::utf8::encode_utf8;

verus! {

impl EntityType {
    /// The type's name in a registration.
    pub open spec fn name_text(self) -> Seq<char> {
        match self {
            EntityType::MainDevice => "device"@,
            EntityType::ChildDevice => "child-device"@,
            EntityType::Service => "service"@,
        }
    }

    /// The type's name in a registration.
    pub fn as_str(&self) -> (name: &'static str)
        ensures
            name@ == self.name_text(),
    {
        match self {
            EntityType::MainDevice => "device",
            EntityType::ChildDevice => "child-device",
            EntityType::Service => "service",
        }
    }

    /// The type of a name.
    pub fn from_name(name: &str) -> (r: Option<EntityType>)
        ensures
            r == type_of_name(name@),
    {
        if same_text(name, "device") {
            Some(EntityType::MainDevice)
        } else if same_text(name, "child-device") {
            Some(EntityType::ChildDevice)
        } else if same_text(name, "service") {
            Some(EntityType::Service)
        } else {
            None
        }
    }
}

/// The type of a name.
pub open spec fn type_of_name(name: Seq<char>) -> Option<EntityType> {
    if name == "device"@ {
        Some(EntityType::MainDevice)
    } else if name == "child-device"@ {
        Some(EntityType::ChildDevice)
    } else if name == "service"@ {
        Some(EntityType::Service)
    } else {
        None
    }
}

/// An optional text among the fields of an object: nothing where the field
/// is missing, the text where the field is a text, and a fault for a field
/// that is something else.
pub open spec fn optional_text(fields: Seq<(Seq<char>, JsonView)>, key: Seq<char>) -> Result<
    Option<Seq<char>>,
    (),
> {
    match JsonView::Object(fields).field(key) {
        None => Ok(None),
        Some(JsonView::Text(text)) => Ok(Some(text)),
        Some(_) => Err(()),
    }
}

/// The fields of a registration that are neither the type, nor the parent,
/// nor the name in the cloud.
pub open spec fn other_fields(fields: Seq<(Seq<char>, JsonView)>) -> Seq<(Seq<char>, JsonView)> {
    without_field(without_field(without_field(fields, "@type"@), "@parent"@), "@id"@)
}

/// The registration that a message stands for: the topic names the entity
/// and nothing more; the payload is a JSON object whose `@type` is one of
/// `device`, `child-device` and `service`, whose `@parent`, if it has one, is
/// an entity's name, and whose `@id`, if it has one, is a text. None for any
/// other message.
pub open spec fn registration_parsed(root: Seq<char>, topic: Seq<char>, payload: Seq<u8>) -> Option<
    RegistrationView,
> {
    match (parsed_topic(root, topic), json_parsed(payload)) {
        (Ok((topic_id, ChannelView::EntityMetadata)), Some(JsonView::Object(fields))) => {
            match (
                optional_text(fields, "@type"@),
                optional_text(fields, "@parent"@),
                optional_text(fields, "@id"@),
            ) {
                (Ok(Some(kind)), Ok(parent), Ok(external_id)) => {
                    if type_of_name(kind) is Some && (parent matches Some(p)
                        ==> topic_id_fault(p) is None) {
                        Some(
                            RegistrationView {
                                topic_id,
                                external_id,
                                entity_type: type_of_name(kind).unwrap(),
                                parent,
                                other: other_fields(fields),
                            },
                        )
                    } else {
                        None
                    }
                },
                _ => None,
            }
        },
        _ => None,
    }
}

fn get_optional_text(fields: &Vec<(String, Json)>, key: &str) -> (r: Result<Option<String>, ()>)
    ensures
        match optional_text(field_views(fields@), key@) {
            Ok(Some(text)) => r matches Ok(Some(found)) && found@ == text,
            Ok(None) => r matches Ok(None),
            Err(_) => r is Err,
        },
{
    match get_field(fields, key) {
        None => Ok(None),
        Some(Json::Text(text)) => Ok(Some(text.clone())),
        Some(_) => Err(()),
    }
}

/// The fields of a registration's payload: the type, the parent and the
/// name in the cloud where it has them, and the other properties.
pub open spec fn registration_fields(registration: RegistrationView) -> Seq<(Seq<char>, JsonView)> {
    let typed = with_field(
        registration.other,
        "@type"@,
        JsonView::Text(registration.entity_type.name_text()),
    );
    let with_parent = match registration.parent {
        Some(parent) => with_field(typed, "@parent"@, JsonView::Text(parent)),
        None => typed,
    };
    match registration.external_id {
        Some(id) => with_field(with_parent, "@id"@, JsonView::Text(id)),
        None => with_parent,
    }
}

/// The message that publishes a registration: retained, on the entity's
/// topic. None where the payload cannot be written or the topic's name would
/// hold a wildcard.
pub open spec fn registration_message(root: Seq<char>, registration: RegistrationView) -> Option<
    MqttMessageView,
> {
    let topic = topic_text(root, registration.topic_id, ChannelView::EntityMetadata);
    match json_printed(JsonView::Object(registration_fields(registration))) {
        Some(text) if is_valid_topic(topic) => Some(
            MqttMessageView {
                topic,
                payload: encode_utf8(text),
                qos: QoS::AtLeastOnce,
                retain: true,
            },
        ),
        _ => None,
    }
}

/// Whether a message is a malformed registration: it came on the topic of
/// an entity, it does not clear what the broker kept there, and it stands
/// for no registration. Such a message is dropped, and is worth a line in the
/// log.
pub open spec fn is_malformed_registration(root: Seq<char>, topic: Seq<char>, payload: Seq<u8>) -> bool {
    &&& parsed_topic(root, topic) matches Ok((_, ChannelView::EntityMetadata))
    &&& payload.len() > 0
    &&& registration_parsed(root, topic, payload) is None
}

impl EntityRegistrationMessage {
    /// Tells whether a message is a malformed registration.
    pub fn is_malformed(schema: &MqttSchema, message: &MqttMessage) -> (r: bool)
        ensures
            r == is_malformed_registration(schema.root@, message.topic@, message.payload@),
    {
        match schema.entity_channel_of(message.topic.name()) {
            Ok((_, Channel::EntityMetadata)) => message.payload.len() > 0
                && EntityRegistrationMessage::new(schema, message).is_none(),
            _ => false,
        }
    }

    /// Reads a registration from a message.
    pub fn new(schema: &MqttSchema, message: &MqttMessage) -> (r: Option<
        EntityRegistrationMessage,
    >)
        ensures
            match registration_parsed(schema.root@, message.topic@, message.payload@) {
                Some(view) => r matches Some(registration) && registration@ == view,
                None => r is None,
            },
    {
        let topic_id = match schema.entity_channel_of(message.topic.name()) {
            Ok((topic_id, Channel::EntityMetadata)) => topic_id,
            _ => {
                return None;
            },
        };
        let fields = match Json::parse(message.payload_bytes()) {
            Some(Json::Object(fields)) => {
                proof {
                    Json::Object(fields).lemma_view();
                }
                fields
            },
            _ => {
                return None;
            },
        };
        let kind = match get_optional_text(&fields, "@type") {
            Ok(Some(name)) => name,
            _ => {
                return None;
            },
        };
        let parent = match get_optional_text(&fields, "@parent") {
            Ok(parent) => parent,
            Err(_) => {
                return None;
            },
        };
        let external_id = match get_optional_text(&fields, "@id") {
            Ok(id) => id,
            Err(_) => {
                return None;
            },
        };
        let entity_type = match EntityType::from_name(kind.as_str()) {
            Some(entity_type) => entity_type,
            None => {
                return None;
            },
        };
        let parent = match parent {
            Some(text) => match EntityTopicId::from_str(text.as_str()) {
                Ok(id) => Some(id),
                Err(_) => {
                    return None;
                },
            },
            None => None,
        };
        let other = remove_field(
            remove_field(remove_field(fields, "@type"), "@parent"),
            "@id",
        );
        Some(EntityRegistrationMessage { topic_id, external_id, entity_type, parent, other })
    }

    /// The message that publishes the registration.
    pub fn to_mqtt_message(&self, schema: &MqttSchema) -> (r: Option<MqttMessage>)
        ensures
            match registration_message(schema.root@, self@) {
                Some(view) => r matches Some(message) && message@ == view,
                None => r is None,
            },
    {
        let mut fields: Vec<(String, Json)> = Vec::new();
        let mut i: usize = 0;
        while i < self.other.len()
            invariant
                i <= self.other.len(),
                fields@.len() == i,
                forall|k: int|
                    0 <= k < i ==> fields@[k].0@ == self.other@[k].0@ && fields@[k].1@
                        == self.other@[k].1@,
            decreases self.other.len() - i,
        {
            fields.push((self.other[i].0.clone(), clone_json(&self.other[i].1)));
            i += 1;
        }
        assert(field_views(fields@) =~= field_views(self.other@));
        let mut fields = set_field(fields, "@type", Json::Text(owned(self.entity_type.as_str())));
        if let Some(parent) = &self.parent {
            fields = set_field(fields, "@parent", Json::Text(owned(parent.as_str())));
        }
        if let Some(id) = &self.external_id {
            fields = set_field(fields, "@id", Json::Text(id.clone()));
        }
        let payload = Json::Object(fields);
        proof {
            payload.lemma_view();
        }
        let text = match payload.to_text() {
            Some(text) => text,
            None => {
                return None;
            },
        };
        match schema.topic_for(&self.topic_id, &Channel::EntityMetadata) {
            Ok(topic) => Some(MqttMessage::from_text(&topic, text.as_str()).with_retain()),
            Err(_) => None,
        }
    }
}

} // verus!
