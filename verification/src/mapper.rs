//! From the entity store to the cloud: the SmartREST messages that create
//! in the cloud's inventory what was registered on the local bus.

use crate::entity_store::model::{EntityMetadata, EntityType, EntityView, StoreView, topics_of};
use crate::entity_store::registration::{registration_message, registration_parsed};
use crate::entity_store::store::{
    auto_registrations, registered_entity, registration_of, registration_views, topic_texts,
    EntityRegistrationMessage, EntityStore, Protocol, Registration, RegistrationView,
};
use crate::json::{get_field, Json, JsonView};
use crate::mqtt::message::{MqttMessage, MqttMessageView};
use crate::mqtt::topic::QoS;
use crate::mqtt_topics::{
    default_device_of, default_service_of, parsed_topic, Channel, ChannelView, MqttSchema,
};
use crate::smartrest::csv::encoded_line;
use crate::smartrest::error::{Fault, SmartRestSerializerError};
use crate::smartrest::inventory::{
    child_device_creation_fault, child_device_creation_fields, child_device_creation_message,
    service_creation_fields, service_creation_message, service_creation_message_fault,
};
use crate::smartrest::topic::{publish_topic_name, TopicPrefix};
use crate::text::split_text;
use vstd::prelude::*;
use vstd::utf8::encode_utf8;

verus! {

/// The text of a property of an entity; none where the entity has no such
/// property, or one that is no text.
pub open spec fn text_property(entity: EntityView, key: Seq<char>) -> Option<Seq<char>> {
    match JsonView::Object(entity.other).field(key) {
        Some(JsonView::Text(text)) => Some(text),
        _ => None,
    }
}

/// The name under which an entity is shown: its property `name`; else, for
/// an entity named by the usual scheme, the device's or the service's name in
/// it; else none.
pub open spec fn display_name(entity: EntityView) -> Option<Seq<char>> {
    let segments = split_text(entity.topic_id, '/');
    match text_property(entity, "name"@) {
        Some(name) => Some(name),
        None => match entity.entity_type {
            EntityType::Service => default_service_of(segments),
            _ => default_device_of(segments),
        },
    }
}

/// The type that a service has where it names none.
pub open spec fn default_service_type() -> Seq<char> {
    "service"@
}

/// The status that a service has when it is registered.
pub open spec fn initial_service_status() -> Seq<char> {
    "up"@
}

/// What keeps the message that creates an entity in the cloud from being
/// built. The main device is not created by a message.
pub open spec fn creation_fault(
    entity: EntityView,
    parent_external_id: Seq<char>,
    main_external_id: Seq<char>,
    prefix: Seq<char>,
) -> Option<Fault> {
    match entity.entity_type {
        EntityType::MainDevice => Some(
            Fault::InvalidValue { field_name: "@type"@, value: "device"@ },
        ),
        EntityType::ChildDevice => child_device_creation_fault(
            entity.external_id,
            display_name(entity),
            text_property(entity, "type"@),
            Some(parent_external_id),
            main_external_id,
            prefix,
            false,
        ),
        EntityType::Service => service_creation_message_fault(
            entity.external_id,
            match display_name(entity) {
                Some(name) => name,
                None => entity.external_id,
            },
            match text_property(entity, "type"@) {
                Some(t) => t,
                None => default_service_type(),
            },
            initial_service_status(),
            Some(parent_external_id),
            main_external_id,
            prefix,
        ),
    }
}

/// The fields of the line that creates an entity in the cloud.
pub open spec fn creation_fields(entity: EntityView) -> Seq<Seq<char>> {
    match entity.entity_type {
        EntityType::Service => service_creation_fields(
            entity.external_id,
            match display_name(entity) {
                Some(name) => name,
                None => entity.external_id,
            },
            match text_property(entity, "type"@) {
                Some(t) => t,
                None => default_service_type(),
            },
            initial_service_status(),
        ),
        _ => child_device_creation_fields(
            entity.external_id,
            display_name(entity),
            text_property(entity, "type"@),
            false,
        ),
    }
}

/// Tells whether a result is the message that creates an entity in the
/// cloud, on its parent's topic, or the fault that keeps it from being built.
pub open spec fn is_creation_of(
    r: Result<MqttMessage, SmartRestSerializerError>,
    entity: EntityView,
    parent_external_id: Seq<char>,
    main_external_id: Seq<char>,
    prefix: Seq<char>,
) -> bool {
    match creation_fault(entity, parent_external_id, main_external_id, prefix) {
        Some(fault) => r matches Err(e) && e@ == fault,
        None => {
            &&& r matches Ok(message)
            &&& message@ == (MqttMessageView {
                topic: publish_topic_name(Some(parent_external_id), main_external_id, prefix),
                payload: encode_utf8(encoded_line(creation_fields(entity))),
                qos: QoS::AtLeastOnce,
                retain: false,
            })
        },
    }
}

fn get_text_property<'a>(entity: &'a EntityMetadata, key: &str) -> (r: Option<&'a str>)
    ensures
        match text_property(entity@, key@) {
            Some(text) => r matches Some(found) && found@ == text,
            None => r is None,
        },
{
    match get_field(&entity.other, key) {
        Some(Json::Text(text)) => Some(text.as_str()),
        _ => None,
    }
}

/// The message that creates an entity in the cloud, given the names in the
/// cloud of its parent and of the main device.
pub fn entity_creation_message(
    entity: &EntityMetadata,
    parent_external_id: &str,
    main_external_id: &str,
    prefix: &TopicPrefix,
) -> (r: Result<MqttMessage, SmartRestSerializerError>)
    ensures
        is_creation_of(r, entity@, parent_external_id@, main_external_id@, prefix@),
{
    let property = get_text_property(entity, "name");
    let from_topic = match entity.entity_type {
        EntityType::Service => entity.topic_id.default_service_name(),
        _ => entity.topic_id.default_device_name(),
    };
    let name: Option<&str> = match property {
        Some(name) => Some(name),
        None => match &from_topic {
            Some(name) => Some(name.as_str()),
            None => None,
        },
    };
    let kind = get_text_property(entity, "type");
    match entity.entity_type {
        EntityType::MainDevice => Err(SmartRestSerializerError::invalid_value("@type", "device")),
        EntityType::ChildDevice => child_device_creation_message(
            entity.external_id.as_str(),
            name,
            kind,
            Some(parent_external_id),
            main_external_id,
            prefix,
            false,
        ),
        EntityType::Service => service_creation_message(
            entity.external_id.as_str(),
            match name {
                Some(name) => name,
                None => entity.external_id.as_str(),
            },
            match kind {
                Some(kind) => kind,
                None => "service",
            },
            "up",
            Some(parent_external_id),
            main_external_id,
            prefix,
        ),
    }
}

/// Tells whether a result is the message that creates, under its parent,
/// the entity at a place among the registered ones.
pub open spec fn is_creation_at(
    r: Result<MqttMessage, SmartRestSerializerError>,
    store: StoreView,
    at: int,
    prefix: Seq<char>,
) -> bool {
    exists|j: int|
        0 <= j < store.registered.len() && store.registered[at].parent == Some(
            (#[trigger] store.registered[j]).topic_id,
        ) && is_creation_of(
            r,
            store.registered[at],
            store.registered[j].external_id,
            store.main_device().external_id,
            prefix,
        )
}

/// The entity of which a message tells something: the entity of the
/// message's topic, where that is a topic for measurements, events or alarms.
pub open spec fn heard_entity(root: Seq<char>, topic: Seq<char>) -> Option<Seq<char>> {
    match parsed_topic(root, topic) {
        Ok((entity, ChannelView::Measurement(_))) => Some(entity),
        Ok((entity, ChannelView::Event(_))) => Some(entity),
        Ok((entity, ChannelView::Alarm(_))) => Some(entity),
        _ => None,
    }
}

/// The messages that publish registrations, in the order of the
/// registrations; one that cannot be written is left out.
pub open spec fn registration_messages(
    root: Seq<char>,
    registrations: Seq<RegistrationView>,
) -> Seq<MqttMessageView>
    decreases registrations.len(),
{
    if registrations.len() == 0 {
        Seq::empty()
    } else {
        let before = registration_messages(root, registrations.drop_last());
        match registration_message(root, registrations.last()) {
            Some(message) => before.push(message),
            None => before,
        }
    }
}

/// The messages that are published when something is heard of an entity:
/// the registrations that are made up for an entity that the store does not
/// know. Nothing for an entity that it knows, for a name of another scheme,
/// and for a message that tells nothing of an entity.
pub open spec fn announcements(root: Seq<char>, store: StoreView, topic: Seq<char>) -> Seq<
    MqttMessageView,
> {
    match heard_entity(root, topic) {
        Some(entity) => match auto_registrations(store, entity) {
            Ok(registrations) => registration_messages(root, registrations),
            Err(_) => Seq::empty(),
        },
        None => Seq::empty(),
    }
}

/// The messages of a list, as contracts speak of them.
pub open spec fn message_views(messages: Seq<MqttMessage>) -> Seq<MqttMessageView> {
    messages.map_values(|message: MqttMessage| message@)
}

/// Keeps the entity store, and tells the cloud of what is registered.
#[derive(Debug)]
pub struct EntityMapper {
    pub store: EntityStore,
    pub schema: MqttSchema,
    pub prefix: TopicPrefix,
}

impl EntityMapper {
    /// A mapper whose store knows the main device alone.
    pub fn new(device_id: &str, schema: MqttSchema, prefix: TopicPrefix) -> (mapper: EntityMapper)
        ensures
            mapper.store.wf(),
            mapper.store@.registered == seq![
                crate::entity_store::model::main_device_view(device_id@),
            ],
            mapper.store@.pending.len() == 0,
            mapper.schema == schema,
            mapper.prefix == prefix,
    {
        EntityMapper { store: EntityStore::new(device_id), schema, prefix }
    }

    /// Takes a message that tells something of an entity. Where the store
    /// does not know the entity, the registrations that are made up for it
    /// come back as retained messages, its device's before a service's own.
    /// Once published they are seen by everyone, and by this mapper too: the
    /// store takes them when they come back as registrations.
    pub fn handle_telemetry(&self, message: &MqttMessage) -> (output: Vec<MqttMessage>)
        ensures
            message_views(output@) == announcements(
                self.schema.root@,
                self.store@,
                message.topic@,
            ),
    {
        let mut output: Vec<MqttMessage> = Vec::new();
        assert(message_views(output@) =~= Seq::<MqttMessageView>::empty());
        let entity = match self.schema.entity_channel_of(message.topic.name()) {
            Ok((entity, Channel::Measurement { .. })) => entity,
            Ok((entity, Channel::Event { .. })) => entity,
            Ok((entity, Channel::Alarm { .. })) => entity,
            _ => {
                return output;
            },
        };
        let made = match self.store.made_up_registrations(&entity) {
            Ok(made) => made,
            Err(_) => {
                return output;
            },
        };
        let ghost all = registration_views(made@);
        let mut i: usize = 0;
        assert(all.take(0) =~= Seq::<RegistrationView>::empty());
        while i < made.len()
            invariant
                i <= made.len(),
                all == registration_views(made@),
                message_views(output@) == registration_messages(
                    self.schema.root@,
                    all.take(i as int),
                ),
            decreases made.len() - i,
        {
            let ghost before = message_views(output@);
            proof {
                assert(all.take(i + 1).drop_last() =~= all.take(i as int));
                assert(all.take(i + 1).last() == made@[i as int]@);
            }
            if let Some(announcement) = made[i].to_mqtt_message(&self.schema) {
                output.push(announcement);
                assert(message_views(output@) =~= before.push(announcement@));
            }
            i += 1;
        }
        assert(all.take(made.len() as int) =~= all);
        output
    }

    /// Takes a registration that came over MQTT, and makes the messages
    /// that create in the cloud the entities registered by it: the entity
    /// itself, if it can stand under its parent, and those that waited for it.
    /// The messages come in the order of the registrations, so that each
    /// entity is created behind its parent. Nothing is done with a message
    /// that is no registration.
    pub fn handle_registration(&mut self, message: &MqttMessage) -> (output: Vec<
        Result<MqttMessage, SmartRestSerializerError>,
    >)
        requires
            old(self).store.wf(),
        ensures
            final(self).store.wf(),
            final(self).schema == old(self).schema,
            final(self).prefix == old(self).prefix,
            final(self).store@.main_device() == old(self).store@.main_device(),
            match registration_parsed(old(self).schema.root@, message.topic@, message.payload@) {
                None => output@.len() == 0 && final(self).store@ == old(self).store@,
                Some(registration) => {
                    &&& match registration_of(old(self).store@, registration, Protocol::MQTT) {
                        Registration::Accepted => final(self).store@.entities() == old(self).store@.entities().insert(
                            registered_entity(old(self).store@.main_device(), registration),
                        ),
                        _ => final(self).store@ == old(self).store@,
                    }
                    &&& old(self).store@.registered.len() <= final(self).store@.registered.len()
                    &&& final(self).store@.registered.take(
                        old(self).store@.registered.len() as int,
                    ) == old(self).store@.registered
                    &&& output@.len() == final(self).store@.registered.len() - old(self).store@.registered.len()
                    &&& forall|k: int|
                        0 <= k < output@.len() ==> is_creation_at(
                            #[trigger] output@[k],
                            final(self).store@,
                            old(self).store@.registered.len() + k,
                            old(self).prefix@,
                        )
                },
            },
    {
        let mut output: Vec<Result<MqttMessage, SmartRestSerializerError>> = Vec::new();
        let ghost before = self.store@;
        let registration = match EntityRegistrationMessage::new(&self.schema, message) {
            Some(registration) => registration,
            None => {
                return output;
            },
        };
        let ghost outcome = registration_of(before, registration@, Protocol::MQTT);
        let promoted = match self.store.register(registration, Protocol::MQTT) {
            Ok(promoted) => promoted,
            Err(_) => {
                assert(before.registered.take(before.registered.len() as int)
                    =~= before.registered);
                return output;
            },
        };
        let ghost after = self.store@;
        let ghost n0 = before.registered.len() as int;
        proof {
            if !(outcome is Accepted) {
                assert(after.registered.skip(n0) =~= Seq::<EntityView>::empty());
                assert(before.registered.take(n0) =~= before.registered);
            }
            assert(topic_texts(promoted@).len() == after.registered.len() - n0);
        }
        let main_external_id = self.store.main_device().external_id.as_str();
        let mut k: usize = 0;
        while k < promoted.len()
            invariant
                k <= promoted@.len(),
                self.store@ == after,
                after.wf(),
                0 <= n0 <= after.registered.len(),
                n0 >= 1,
                promoted@.len() == after.registered.len() - n0,
                topic_texts(promoted@) == topics_of(after.registered.skip(n0)),
                main_external_id@ == after.main_device().external_id,
                self.prefix == old(self).prefix,
                output@.len() == k,
                forall|m: int|
                    0 <= m < k ==> is_creation_at(
                        #[trigger] output@[m],
                        after,
                        n0 + m,
                        old(self).prefix@,
                    ),
            decreases promoted@.len() - k,
        {
            let ghost at = n0 + k;
            let ghost expected = after.registered[at];
            proof {
                assert(topic_texts(promoted@)[k as int] == promoted@[k as int]@);
                assert(topics_of(after.registered.skip(n0))[k as int] == expected.topic_id);
                assert(topics_of(after.registered)[at] == expected.topic_id);
                assert(crate::entity_store::model::parent_before(after.registered, at));
            }
            let result = match self.store.get(promoted[k].as_str()) {
                Some(entity) => {
                    proof {
                        let m = choose|m: int|
                            0 <= m < after.registered.len() && after.registered[m] == entity@;
                        assert(topics_of(after.registered)[m] == topics_of(after.registered)[at]);
                        assert(entity@ == expected);
                    }
                    let parent = match &entity.parent {
                        Some(parent) => self.store.get(parent.as_str()),
                        None => None,
                    };
                    match parent {
                        Some(parent) => {
                            let r = entity_creation_message(
                                entity,
                                parent.external_id.as_str(),
                                main_external_id,
                                &self.prefix,
                            );
                            proof {
                                let j = choose|j: int|
                                    0 <= j < after.registered.len() && after.registered[j]
                                        == parent@;
                                assert(after.registered[j].topic_id == expected.parent.unwrap());
                                assert(is_creation_at(r, after, at, old(self).prefix@));
                            }
                            r
                        },
                        None => {
                            proof {
                                let before_it = after.registered.take(at);
                                let j = choose|j: int|
                                    0 <= j < before_it.len() && (#[trigger] before_it[j]).topic_id
                                        == expected.parent.unwrap() && before_it[j].entity_type
                                        != EntityType::Service;
                                assert(topics_of(after.registered)[j] == expected.parent.unwrap());
                                assert(false);
                            }
                            vstd::pervasive::unreached()
                        },
                    }
                },
                None => {
                    vstd::pervasive::unreached()
                },
            };
            output.push(result);
            k += 1;
        }
        output
    }
}

} // verus!
