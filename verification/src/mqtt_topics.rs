//! The topic schema of the local bus: which entity a topic speaks of, and
//! what it says of it.
//!
//! A topic is made of a root, the four segments that name an entity, and a
//! channel: `<root>/<device kind>/<device id>/<service kind>/<service id>`
//! and then nothing for the entity's registration, `m/<type>`, `e/<type>` or
//! `a/<type>` for telemetry, `cmd/<operation>` for a capability and
//! `cmd/<operation>/<command id>` for a command.

use crate::mqtt::error::MqttError;
use crate::mqtt::topic::{
    is_valid_topic, levels_match, topic_matches, valid_topic, Topic, TopicFilter,
};
use crate::text::{
    count_char, has_prefix, join, joined_text, lemma_split_joined, lemma_split_len,
    lemma_split_pieces_clean, owned, same_text, split, split_text, strip_prefix, texts,
};
use vstd::prelude::*;

verus! {

/// Why a text is no entity topic identifier.
#[derive(Clone, Copy, PartialEq, Eq, Structural, Debug)]
pub enum TopicIdError {
    /// It has more than four segments.
    TooLong,
    /// It has fewer than four segments.
    TooShort,
    /// It holds a wildcard.
    InvalidMqttTopic,
}

/// An entity topic identifier has four segments and no wildcard.
pub open spec fn is_entity_topic_id(text: Seq<char>) -> bool {
    count_char(text, '/') == 3 && is_valid_topic(text)
}

/// What keeps a text from being an entity topic identifier.
pub open spec fn topic_id_fault(text: Seq<char>) -> Option<TopicIdError> {
    if count_char(text, '/') > 3 {
        Some(TopicIdError::TooLong)
    } else if count_char(text, '/') < 3 {
        Some(TopicIdError::TooShort)
    } else if !is_valid_topic(text) {
        Some(TopicIdError::InvalidMqttTopic)
    } else {
        None
    }
}

/// The text `device/<device>/<kind>/<service>`.
pub open spec fn entity_text(device: Seq<char>, kind: Seq<char>, service: Seq<char>) -> Seq<char> {
    "device/"@ + device + "/"@ + kind + "/"@ + service
}

/// The name of an entity on the local bus: four segments, of which the last
/// two are empty for a device.
#[derive(Debug)]
pub struct EntityTopicId {
    text: String,
}

impl EntityTopicId {
    pub closed spec fn view(&self) -> Seq<char> {
        self.text@
    }

    #[verifier::type_invariant]
    spec fn well_formed(&self) -> bool {
        is_entity_topic_id(self.text@)
    }

    /// The four segments.
    pub open spec fn segments(&self) -> Seq<Seq<char>> {
        split_text(self@, '/')
    }

    /// Reads an identifier.
    pub fn from_str(text: &str) -> (r: Result<EntityTopicId, TopicIdError>)
        ensures
            match topic_id_fault(text@) {
                Some(fault) => r == Err::<EntityTopicId, TopicIdError>(fault),
                None => r matches Ok(id) && id@ == text@,
            },
    {
        let segments = split(text, '/');
        proof {
            lemma_split_len(text@, '/');
        }
        if segments.len() > 4 {
            return Err(TopicIdError::TooLong);
        }
        if segments.len() < 4 {
            return Err(TopicIdError::TooShort);
        }
        if !valid_topic(text) {
            return Err(TopicIdError::InvalidMqttTopic);
        }
        Ok(EntityTopicId { text: owned(text) })
    }

    /// The main device under its usual name, `device/main//`.
    pub fn default_main_device() -> (id: EntityTopicId)
        ensures
            id@ == "device/main//"@,
    {
        proof {
            lemma_main_device_id();
        }
        EntityTopicId { text: owned("device/main//") }
    }

    /// The identifier as text.
    pub fn as_str(&self) -> (text: &str)
        ensures
            text@ == self@,
            is_entity_topic_id(text@),
    {
        proof {
            use_type_invariant(self);
        }
        self.text.as_str()
    }

    /// Tells whether this is the main device under its usual name.
    pub fn is_default_main_device(&self) -> (r: bool)
        ensures
            r == (self@ == "device/main//"@),
    {
        same_text(self.text.as_str(), "device/main//")
    }
}

impl Clone for EntityTopicId {
    fn clone(&self) -> (copy: EntityTopicId)
        ensures
            copy@ == self@,
    {
        proof {
            use_type_invariant(self);
        }
        EntityTopicId { text: self.text.clone() }
    }
}

/// The usual name of the main device is an entity topic identifier.
pub proof fn lemma_main_device_id()
    ensures
        is_entity_topic_id("device/main//"@),
{
    let s = "device/main//"@;
    reveal_strlit("device/main//");
    assert(s =~= seq!['d', 'e', 'v', 'i', 'c', 'e', '/', 'm', 'a', 'i', 'n', '/', '/']);
    assert(count_char(s, '/') == 3) by {
        reveal_with_fuel(count_char, 14);
    }
}


/// The device that an identifier of the usual scheme names: the second
/// segment of `device/<device>//` and of `device/<device>/service/<service>`.
pub open spec fn default_device_of(segments: Seq<Seq<char>>) -> Option<Seq<char>> {
    if segments.len() == 4 && segments[0] == "device"@ && ((segments[2].len() == 0
        && segments[3].len() == 0) || segments[2] == "service"@) {
        Some(segments[1])
    } else {
        None
    }
}

/// The service that an identifier of the usual scheme names: the last segment
/// of `device/<device>/service/<service>`.
pub open spec fn default_service_of(segments: Seq<Seq<char>>) -> Option<Seq<char>> {
    if segments.len() == 4 && segments[0] == "device"@ && segments[2] == "service"@ {
        Some(segments[3])
    } else {
        None
    }
}

/// The parent that an identifier of the usual scheme stands for: the device
/// of a service, the main device for any other device, none for the main
/// device and for identifiers of another scheme.
pub open spec fn default_parent_of(segments: Seq<Seq<char>>) -> Option<Seq<char>> {
    if default_service_of(segments) is Some {
        Some(entity_text(segments[1], Seq::empty(), Seq::empty()))
    } else if default_device_of(segments) is Some && segments[1] != "main"@ {
        Some("device/main//"@)
    } else {
        None
    }
}

impl EntityTopicId {
    /// The device `device/<child>//`; an error where the child's name holds a
    /// slash or a wildcard.
    pub fn default_child_device(child: &str) -> (r: Result<EntityTopicId, TopicIdError>)
        ensures
            match topic_id_fault(entity_text(child@, Seq::empty(), Seq::empty())) {
                Some(fault) => r == Err::<EntityTopicId, TopicIdError>(fault),
                None => r matches Ok(id) && id@ == entity_text(
                    child@,
                    Seq::empty(),
                    Seq::empty(),
                ),
            },
    {
        let mut text = owned("device/");
        text.append(child);
        text.append("//");
        proof {
            reveal_strlit("//");
            reveal_strlit("/");
            assert(text@ =~= entity_text(child@, Seq::empty(), Seq::empty()));
        }
        EntityTopicId::from_str(text.as_str())
    }

    /// The service `device/<child>/service/<service>`; an error where a name
    /// holds a slash or a wildcard.
    pub fn default_child_service(child: &str, service: &str) -> (r: Result<
        EntityTopicId,
        TopicIdError,
    >)
        ensures
            match topic_id_fault(entity_text(child@, "service"@, service@)) {
                Some(fault) => r == Err::<EntityTopicId, TopicIdError>(fault),
                None => r matches Ok(id) && id@ == entity_text(child@, "service"@, service@),
            },
    {
        let mut text = owned("device/");
        text.append(child);
        text.append("/");
        text.append("service");
        text.append("/");
        text.append(service);
        EntityTopicId::from_str(text.as_str())
    }

    /// The service `device/main/service/<service>`.
    pub fn default_main_service(service: &str) -> (r: Result<EntityTopicId, TopicIdError>)
        ensures
            match topic_id_fault(entity_text("main"@, "service"@, service@)) {
                Some(fault) => r == Err::<EntityTopicId, TopicIdError>(fault),
                None => r matches Ok(id) && id@ == entity_text("main"@, "service"@, service@),
            },
    {
        EntityTopicId::default_child_service("main", service)
    }

    /// The four segments of the identifier.
    pub fn to_segments(&self) -> (segments: Vec<String>)
        ensures
            texts(segments@) == self.segments(),
            segments@.len() == 4,
    {
        proof {
            use_type_invariant(self);
            lemma_split_len(self@, '/');
        }
        let segments = split(self.text.as_str(), '/');
        assert(texts(segments@).len() == segments@.len());
        segments
    }

    /// The name of the device, for an identifier of the usual scheme.
    pub fn default_device_name(&self) -> (r: Option<String>)
        ensures
            match default_device_of(self.segments()) {
                Some(name) => r matches Some(text) && text@ == name,
                None => r is None,
            },
    {
        let segments = self.to_segments();
        assert(forall|i: int| 0 <= i < 4 ==> texts(segments@)[i] == segments@[i]@);
        if same_text(segments[0].as_str(), "device") && ((segments[2].as_str().is_empty()
            && segments[3].as_str().is_empty()) || same_text(segments[2].as_str(), "service")) {
            Some(segments[1].clone())
        } else {
            None
        }
    }

    /// The name of the service, for an identifier of the usual scheme.
    pub fn default_service_name(&self) -> (r: Option<String>)
        ensures
            match default_service_of(self.segments()) {
                Some(name) => r matches Some(text) && text@ == name,
                None => r is None,
            },
    {
        let segments = self.to_segments();
        assert(forall|i: int| 0 <= i < 4 ==> texts(segments@)[i] == segments@[i]@);
        if same_text(segments[0].as_str(), "device") && same_text(
            segments[2].as_str(),
            "service",
        ) {
            Some(segments[3].clone())
        } else {
            None
        }
    }

    /// The parent that the identifier stands for where none is named.
    pub fn default_parent_identifier(&self) -> (r: Option<EntityTopicId>)
        ensures
            match default_parent_of(self.segments()) {
                Some(parent) => r matches Some(id) && id@ == parent,
                None => r is None,
            },
    {
        let segments = self.to_segments();
        assert(forall|i: int| 0 <= i < 4 ==> texts(segments@)[i] == segments@[i]@);
        if !same_text(segments[0].as_str(), "device") {
            return None;
        }
        if same_text(segments[2].as_str(), "service") {
            proof {
                use_type_invariant(self);
                self.lemma_device_of_service();
            }
            match EntityTopicId::default_child_device(segments[1].as_str()) {
                Ok(id) => Some(id),
                Err(_) => None,
            }
        } else if segments[2].as_str().is_empty() && segments[3].as_str().is_empty() && !same_text(
            segments[1].as_str(),
            "main",
        ) {
            Some(EntityTopicId::default_main_device())
        } else {
            None
        }
    }

    /// The device of a service named by an identifier is itself named by an
    /// identifier.
    proof fn lemma_device_of_service(&self)
        requires
            is_entity_topic_id(self@),
            self.segments().len() == 4,
        ensures
            topic_id_fault(entity_text(self.segments()[1], Seq::empty(), Seq::empty())) is None,
    {
        let device = self.segments()[1];
        lemma_split_pieces_clean(self@, '/');
        lemma_pieces_valid(self@);
        reveal_strlit("device/");
        reveal_strlit("/");
        reveal_strlit("device");
        let pieces = seq!["device"@, device, Seq::<char>::empty(), Seq::<char>::empty()];
        let text = entity_text(device, Seq::empty(), Seq::empty());
        assert(joined_text(pieces, seq!['/']) =~= text) by {
            reveal_with_fuel(joined_text, 5);
            assert(pieces.drop_last() =~= seq!["device"@, device, Seq::<char>::empty()]);
            assert(pieces.drop_last().drop_last() =~= seq!["device"@, device]);
            assert(pieces.drop_last().drop_last().drop_last() =~= seq!["device"@]);
        }
        assert forall|i: int| 0 <= i < pieces.len() implies !(#[trigger] pieces[i]).contains(
            '/',
        ) by {}
        lemma_split_joined(pieces, '/');
        lemma_split_len(text, '/');
        assert forall|i: int| 0 <= i < text.len() implies text[i] != '+' && text[i] != '#' by {
            if 7 <= i < 7 + device.len() {
                assert(device.contains(device[i - 7]));
            }
        }
    }
}

/// The pieces of a text without wildcard hold no wildcard.
pub proof fn lemma_pieces_valid(text: Seq<char>)
    requires
        is_valid_topic(text),
    ensures
        forall|i: int|
            0 <= i < split_text(text, '/').len() ==> is_valid_topic(
                #[trigger] split_text(text, '/')[i],
            ),
    decreases text.len(),
{
    crate::text::lemma_split_nonempty(text, '/');
    if text.len() > 0 {
        let init = text.drop_last();
        assert forall|i: int| 0 <= i < init.len() implies init[i] != '+' && init[i] != '#' by {
            assert(text.contains(text[i]));
        }
        lemma_pieces_valid(init);
        crate::text::lemma_split_nonempty(init, '/');
        let head = split_text(init, '/');
        assert(text.contains(text.last()));
        assert forall|i: int| 0 <= i < split_text(text, '/').len() implies is_valid_topic(
            #[trigger] split_text(text, '/')[i],
        ) by {
            let piece = split_text(text, '/')[i];
            if text.last() == '/' {
                if i < head.len() {
                    assert(piece == head[i]);
                }
            } else if i < head.len() - 1 {
                assert(piece == head[i]);
            } else {
                assert(piece == head.last().push(text.last()));
                assert(is_valid_topic(head[head.len() - 1]));
                assert forall|k: int| 0 <= k < piece.len() implies piece[k] != '+' && piece[k]
                    != '#' by {
                    if k < head.last().len() {
                        assert(head.last().contains(head.last()[k]));
                    }
                }
            }
        }
    }
}


/// The operations that the gateway knows by name, and those it does not.
#[derive(Debug)]
pub enum OperationType {
    Health,
    LogUpload,
    ConfigSnapshot,
    ConfigUpdate,
    FirmwareUpdate,
    SoftwareList,
    SoftwareUpdate,
    Restart,
    DeviceProfile,
    Custom(String),
}

impl OperationType {
    /// The operation's name in topics.
    pub open spec fn name_text(&self) -> Seq<char> {
        match self {
            OperationType::Health => "health"@,
            OperationType::LogUpload => "log_upload"@,
            OperationType::ConfigSnapshot => "config_snapshot"@,
            OperationType::ConfigUpdate => "config_update"@,
            OperationType::FirmwareUpdate => "firmware_update"@,
            OperationType::SoftwareList => "software_list"@,
            OperationType::SoftwareUpdate => "software_update"@,
            OperationType::Restart => "restart"@,
            OperationType::DeviceProfile => "device_profile"@,
            OperationType::Custom(name) => name@,
        }
    }

    /// The operation's name in topics.
    pub fn name(&self) -> (name: String)
        ensures
            name@ == self.name_text(),
    {
        match self {
            OperationType::Health => owned("health"),
            OperationType::LogUpload => owned("log_upload"),
            OperationType::ConfigSnapshot => owned("config_snapshot"),
            OperationType::ConfigUpdate => owned("config_update"),
            OperationType::FirmwareUpdate => owned("firmware_update"),
            OperationType::SoftwareList => owned("software_list"),
            OperationType::SoftwareUpdate => owned("software_update"),
            OperationType::Restart => owned("restart"),
            OperationType::DeviceProfile => owned("device_profile"),
            OperationType::Custom(name) => name.clone(),
        }
    }

    /// The operation of a name: one of those known by name, else a custom one.
    pub fn from_name(name: &str) -> (operation: OperationType)
        ensures
            operation.name_text() == name@,
            operation is Custom ==> name@ != "health"@ && name@ != "log_upload"@ && name@
                != "config_snapshot"@ && name@ != "config_update"@ && name@
                != "firmware_update"@ && name@ != "software_list"@ && name@
                != "software_update"@ && name@ != "restart"@ && name@ != "device_profile"@,
    {
        if same_text(name, "health") {
            OperationType::Health
        } else if same_text(name, "log_upload") {
            OperationType::LogUpload
        } else if same_text(name, "config_snapshot") {
            OperationType::ConfigSnapshot
        } else if same_text(name, "config_update") {
            OperationType::ConfigUpdate
        } else if same_text(name, "firmware_update") {
            OperationType::FirmwareUpdate
        } else if same_text(name, "software_list") {
            OperationType::SoftwareList
        } else if same_text(name, "software_update") {
            OperationType::SoftwareUpdate
        } else if same_text(name, "restart") {
            OperationType::Restart
        } else if same_text(name, "device_profile") {
            OperationType::DeviceProfile
        } else {
            OperationType::Custom(owned(name))
        }
    }
}

impl Clone for OperationType {
    fn clone(&self) -> (copy: OperationType)
        ensures
            copy == *self,
    {
        match self {
            OperationType::Health => OperationType::Health,
            OperationType::LogUpload => OperationType::LogUpload,
            OperationType::ConfigSnapshot => OperationType::ConfigSnapshot,
            OperationType::ConfigUpdate => OperationType::ConfigUpdate,
            OperationType::FirmwareUpdate => OperationType::FirmwareUpdate,
            OperationType::SoftwareList => OperationType::SoftwareList,
            OperationType::SoftwareUpdate => OperationType::SoftwareUpdate,
            OperationType::Restart => OperationType::Restart,
            OperationType::DeviceProfile => OperationType::DeviceProfile,
            OperationType::Custom(name) => OperationType::Custom(name.clone()),
        }
    }
}

/// What a topic says of its entity.
#[derive(Debug)]
pub enum Channel {
    /// The entity's registration.
    EntityMetadata,
    Measurement { measurement_type: String },
    Event { event_type: String },
    Alarm { alarm_type: String },
    /// That the entity supports an operation.
    CommandMetadata { operation: OperationType },
    /// The state of a command.
    Command { operation: OperationType, cmd_id: String },
}

/// A channel as contracts speak of it.
pub enum ChannelView {
    EntityMetadata,
    Measurement(Seq<char>),
    Event(Seq<char>),
    Alarm(Seq<char>),
    CommandMetadata(Seq<char>),
    Command(Seq<char>, Seq<char>),
}

impl Channel {
    pub open spec fn view(&self) -> ChannelView {
        match self {
            Channel::EntityMetadata => ChannelView::EntityMetadata,
            Channel::Measurement { measurement_type } => ChannelView::Measurement(
                measurement_type@,
            ),
            Channel::Event { event_type } => ChannelView::Event(event_type@),
            Channel::Alarm { alarm_type } => ChannelView::Alarm(alarm_type@),
            Channel::CommandMetadata { operation } => ChannelView::CommandMetadata(
                operation.name_text(),
            ),
            Channel::Command { operation, cmd_id } => ChannelView::Command(
                operation.name_text(),
                cmd_id@,
            ),
        }
    }
}

impl ChannelView {
    /// The levels that a channel adds behind its entity.
    pub open spec fn levels(self) -> Seq<Seq<char>> {
        match self {
            ChannelView::EntityMetadata => Seq::empty(),
            ChannelView::Measurement(t) => seq!["m"@, t],
            ChannelView::Event(t) => seq!["e"@, t],
            ChannelView::Alarm(t) => seq!["a"@, t],
            ChannelView::CommandMetadata(operation) => seq!["cmd"@, operation],
            ChannelView::Command(operation, cmd_id) => seq!["cmd"@, operation, cmd_id],
        }
    }
}

/// The channel that the levels behind an entity stand for.
pub open spec fn channel_of(levels: Seq<Seq<char>>) -> Option<ChannelView> {
    if levels.len() == 0 {
        Some(ChannelView::EntityMetadata)
    } else if levels.len() == 2 && levels[0] == "m"@ {
        Some(ChannelView::Measurement(levels[1]))
    } else if levels.len() == 2 && levels[0] == "e"@ {
        Some(ChannelView::Event(levels[1]))
    } else if levels.len() == 2 && levels[0] == "a"@ {
        Some(ChannelView::Alarm(levels[1]))
    } else if levels.len() == 2 && levels[0] == "cmd"@ {
        Some(ChannelView::CommandMetadata(levels[1]))
    } else if levels.len() == 3 && levels[0] == "cmd"@ {
        Some(ChannelView::Command(levels[1], levels[2]))
    } else {
        None
    }
}

/// Why a topic names no entity and channel.
#[derive(Clone, Copy, PartialEq, Eq, Structural, Debug)]
pub enum EntityTopicError {
    /// The topic does not start with the root.
    NotUnderRoot,
    /// What stands behind the root is no entity topic identifier.
    TopicId(TopicIdError),
    /// What stands behind the entity is no channel.
    InvalidChannel,
}

/// The name of the topic of an entity's channel: the root, the entity and
/// the channel's levels, each behind a slash.
pub open spec fn topic_text(root: Seq<char>, entity: Seq<char>, channel: ChannelView) -> Seq<char> {
    joined_text(seq![root, entity] + channel.levels(), "/"@)
}

/// The entity and the channel that a topic names.
pub open spec fn parsed_topic(root: Seq<char>, topic: Seq<char>) -> Result<
    (Seq<char>, ChannelView),
    EntityTopicError,
> {
    let start = root + "/"@;
    if !has_prefix(topic, start) {
        Err(EntityTopicError::NotUnderRoot)
    } else {
        let levels = split_text(topic.subrange(start.len() as int, topic.len() as int), '/');
        if levels.len() < 4 {
            Err(EntityTopicError::TopicId(TopicIdError::TooShort))
        } else if !is_valid_topic(joined_text(levels.take(4), "/"@)) {
            Err(EntityTopicError::TopicId(TopicIdError::InvalidMqttTopic))
        } else {
            match channel_of(levels.skip(4)) {
                Some(channel) => Ok((joined_text(levels.take(4), "/"@), channel)),
                None => Err(EntityTopicError::InvalidChannel),
            }
        }
    }
}

/// The topic schema under a root, `te` unless configured otherwise.
#[derive(Debug)]
pub struct MqttSchema {
    pub root: String,
}

impl MqttSchema {
    /// The schema under the root `te`.
    pub fn new() -> (schema: MqttSchema)
        ensures
            schema.root@ == "te"@,
    {
        MqttSchema { root: owned("te") }
    }

    /// The schema under the given root.
    pub fn with_root(root: String) -> (schema: MqttSchema)
        ensures
            schema.root == root,
    {
        MqttSchema { root }
    }

    /// The name of the topic of an entity's channel.
    pub fn topic_name(&self, entity: &EntityTopicId, channel: &Channel) -> (name: String)
        ensures
            name@ == topic_text(self.root@, entity@, channel@),
    {
        let mut levels: Vec<String> = Vec::new();
        levels.push(self.root.clone());
        levels.push(owned(entity.as_str()));
        match channel {
            Channel::EntityMetadata => {},
            Channel::Measurement { measurement_type } => {
                levels.push(owned("m"));
                levels.push(measurement_type.clone());
            },
            Channel::Event { event_type } => {
                levels.push(owned("e"));
                levels.push(event_type.clone());
            },
            Channel::Alarm { alarm_type } => {
                levels.push(owned("a"));
                levels.push(alarm_type.clone());
            },
            Channel::CommandMetadata { operation } => {
                levels.push(owned("cmd"));
                levels.push(operation.name());
            },
            Channel::Command { operation, cmd_id } => {
                levels.push(owned("cmd"));
                levels.push(operation.name());
                levels.push(cmd_id.clone());
            },
        }
        assert(texts(levels@) =~= seq![self.root@, entity@] + channel@.levels());
        join(&levels, "/")
    }

    /// The topic of an entity's channel; an error where the name holds a
    /// wildcard.
    pub fn topic_for(&self, entity: &EntityTopicId, channel: &Channel) -> (r: Result<
        Topic,
        MqttError,
    >)
        ensures
            match r {
                Ok(topic) => {
                    &&& is_valid_topic(topic_text(self.root@, entity@, channel@))
                    &&& topic@ == topic_text(self.root@, entity@, channel@)
                },
                Err(e) => {
                    &&& !is_valid_topic(topic_text(self.root@, entity@, channel@))
                    &&& e matches MqttError::InvalidTopic { name }
                    &&& name@ == topic_text(self.root@, entity@, channel@)
                },
            },
    {
        Topic::new(self.topic_name(entity, channel).as_str())
    }

    /// The topic on which an entity tells that it supports an operation.
    pub fn capability_topic_for(&self, target: &EntityTopicId, operation: OperationType) -> (r:
        Result<Topic, MqttError>)
        ensures
            match r {
                Ok(topic) => {
                    &&& is_valid_topic(capability_topic_text(self.root@, target@, operation))
                    &&& topic@ == capability_topic_text(self.root@, target@, operation)
                },
                Err(e) => {
                    &&& !is_valid_topic(capability_topic_text(self.root@, target@, operation))
                    &&& e matches MqttError::InvalidTopic { name }
                    &&& name@ == capability_topic_text(self.root@, target@, operation)
                },
            },
    {
        self.topic_for(target, &Channel::CommandMetadata { operation })
    }

    /// The entity and the channel that a topic names.
    pub fn entity_channel_of(&self, topic: &str) -> (r: Result<
        (EntityTopicId, Channel),
        EntityTopicError,
    >)
        ensures
            match parsed_topic(self.root@, topic@) {
                Ok((entity, channel)) => r matches Ok(found) && found.0@ == entity && found.1@
                    == channel,
                Err(e) => r matches Err(found) && found == e,
            },
    {
        let mut start = self.root.clone();
        start.append("/");
        let rest = match strip_prefix(topic, start.as_str()) {
            Some(rest) => rest,
            None => {
                return Err(EntityTopicError::NotUnderRoot);
            },
        };
        let levels = split(rest.as_str(), '/');
        if levels.len() < 4 {
            return Err(EntityTopicError::TopicId(TopicIdError::TooShort));
        }
        let ghost all = texts(levels@);
        assert(forall|i: int| 0 <= i < levels@.len() ==> all[i] == levels@[i]@);
        let mut first: Vec<String> = Vec::new();
        first.push(levels[0].clone());
        first.push(levels[1].clone());
        first.push(levels[2].clone());
        first.push(levels[3].clone());
        assert(texts(first@) =~= all.take(4));
        let entity_name = join(&first, "/");
        proof {
            reveal_strlit("/");
            assert("/"@ =~= seq!['/']);
            lemma_split_pieces_clean(rest@, '/');
            assert forall|i: int| 0 <= i < all.take(4).len() implies !(#[trigger] all.take(
                4,
            )[i]).contains('/') by {
                assert(all.take(4)[i] == all[i]);
            }
            lemma_split_joined(all.take(4), '/');
            lemma_split_len(entity_name@, '/');
        }
        let entity = match EntityTopicId::from_str(entity_name.as_str()) {
            Ok(entity) => entity,
            Err(e) => {
                return Err(EntityTopicError::TopicId(e));
            },
        };
        let n = levels.len() - 4;
        let ghost tail = all.skip(4);
        assert(forall|i: int| 0 <= i < n ==> tail[i] == levels@[i + 4]@);
        let channel = if n == 0 {
            Channel::EntityMetadata
        } else if n == 2 && same_text(levels[4].as_str(), "m") {
            Channel::Measurement { measurement_type: levels[5].clone() }
        } else if n == 2 && same_text(levels[4].as_str(), "e") {
            Channel::Event { event_type: levels[5].clone() }
        } else if n == 2 && same_text(levels[4].as_str(), "a") {
            Channel::Alarm { alarm_type: levels[5].clone() }
        } else if n == 2 && same_text(levels[4].as_str(), "cmd") {
            Channel::CommandMetadata { operation: OperationType::from_name(levels[5].as_str()) }
        } else if n == 3 && same_text(levels[4].as_str(), "cmd") {
            Channel::Command {
                operation: OperationType::from_name(levels[5].as_str()),
                cmd_id: levels[6].clone(),
            }
        } else {
            return Err(EntityTopicError::InvalidChannel);
        };
        Ok((entity, channel))
    }
}

/// The name of the topic on which an entity tells that it supports an
/// operation: `<root>/<entity>/cmd/<operation>`.
pub open spec fn capability_topic_text(
    root: Seq<char>,
    target: Seq<char>,
    operation: OperationType,
) -> Seq<char> {
    topic_text(root, target, ChannelView::CommandMetadata(operation.name_text()))
}

impl ChannelView {
    /// A channel can be read back from a topic where its parts hold neither
    /// slash nor wildcard.
    pub open spec fn is_clean(self) -> bool {
        forall|i: int|
            0 <= i < self.levels().len() ==> !(#[trigger] self.levels()[i]).contains('/')
                && is_valid_topic(self.levels()[i])
    }
}

/// The topic of an entity's channel names that entity and that channel: what
/// is written by the schema is read back by it.
pub proof fn lemma_topic_round_trip(root: Seq<char>, entity: Seq<char>, channel: ChannelView)
    requires
        is_entity_topic_id(entity),
        channel.is_clean(),
    ensures
        parsed_topic(root, topic_text(root, entity, channel)) == Ok::<
            (Seq<char>, ChannelView),
            EntityTopicError,
        >((entity, channel)),
{
    reveal_strlit("/");
    reveal_strlit("m");
    reveal_strlit("e");
    reveal_strlit("a");
    reveal_strlit("cmd");
    let slash = seq!['/'];
    assert("/"@ =~= slash);
    let levels = channel.levels();
    let topic = topic_text(root, entity, channel);
    let rest = joined_text(seq![entity] + levels, slash);
    lemma_joined_behind(root, seq![entity] + levels);
    assert(seq![root] + (seq![entity] + levels) =~= seq![root, entity] + levels);
    assert(topic =~= root + slash + rest);
    let start = root + "/"@;
    assert(has_prefix(topic, start)) by {
        assert(topic.subrange(0, start.len() as int) =~= start);
    }
    assert(topic.subrange(start.len() as int, topic.len() as int) =~= rest);
    assert forall|i: int| 0 <= i < levels.len() implies !(#[trigger] levels[i]).contains('/') by {}
    crate::text::lemma_split_joined_behind(entity, levels, '/');
    lemma_split_len(entity, '/');
    let pieces = split_text(rest, '/');
    assert(pieces.take(4) =~= split_text(entity, '/'));
    assert(pieces.skip(4) =~= levels);
    crate::text::lemma_join_split(entity, '/');
    assert(channel_of(levels) == Some(channel)) by {
        assert("m"@.len() == 1 && "e"@.len() == 1 && "a"@.len() == 1 && "cmd"@.len() == 3);
        assert("m"@[0] != "e"@[0] && "m"@[0] != "a"@[0] && "e"@[0] != "a"@[0]);
    }
}

/// The text joined of a first piece and others is the first piece, and then
/// each other piece behind a slash.
proof fn lemma_joined_behind(first: Seq<char>, others: Seq<Seq<char>>)
    requires
        others.len() >= 1,
    ensures
        joined_text(seq![first] + others, seq!['/']) == first + seq!['/'] + joined_text(
            others,
            seq!['/'],
        ),
    decreases others.len(),
{
    let all = seq![first] + others;
    let slash = seq!['/'];
    assert(all.drop_last() =~= seq![first] + others.drop_last());
    assert(all.last() == others.last());
    if others.len() == 1 {
        assert(all.drop_last() =~= seq![first]);
        assert(joined_text(all.drop_last(), slash) == first);
        assert(others[0] == others.last());
    } else {
        lemma_joined_behind(first, others.drop_last());
        assert(first + slash + joined_text(others.drop_last(), slash) + slash + others.last()
            =~= first + slash + (joined_text(others.drop_last(), slash) + slash
            + others.last()));
    }
}

/// Which entities a subscription is for.
#[derive(Debug)]
pub enum EntityFilter {
    AnyEntity,
    Entity(EntityTopicId),
}

/// Which channels a subscription is for.
#[derive(Debug)]
pub enum ChannelFilter {
    EntityMetadata,
    Measurement,
    Event,
    Alarm,
    /// The capabilities, of all operations.
    AnyCommandMetadata,
    /// The commands, of all operations.
    AnyCommand,
    /// The capability of one operation.
    CommandMetadata(OperationType),
    /// The commands of one operation.
    Command(OperationType),
}

impl EntityFilter {
    /// The levels of the pattern that stand for the entity.
    pub open spec fn levels(self) -> Seq<Seq<char>> {
        match self {
            EntityFilter::AnyEntity => seq![seq!['+'], seq!['+'], seq!['+'], seq!['+']],
            EntityFilter::Entity(id) => split_text(id@, '/'),
        }
    }
}

impl ChannelFilter {
    /// The levels of the pattern that stand for the channel.
    pub open spec fn levels(self) -> Seq<Seq<char>> {
        match self {
            ChannelFilter::EntityMetadata => Seq::empty(),
            ChannelFilter::Measurement => seq!["m"@, seq!['+']],
            ChannelFilter::Event => seq!["e"@, seq!['+']],
            ChannelFilter::Alarm => seq!["a"@, seq!['+']],
            ChannelFilter::AnyCommandMetadata => seq!["cmd"@, seq!['+']],
            ChannelFilter::AnyCommand => seq!["cmd"@, seq!['+'], seq!['+']],
            ChannelFilter::CommandMetadata(operation) => seq!["cmd"@, operation.name_text()],
            ChannelFilter::Command(operation) => seq!["cmd"@, operation.name_text(), seq!['+']],
        }
    }

    /// Tells whether the filter is for a channel.
    pub open spec fn covers(self, channel: ChannelView) -> bool {
        match (self, channel) {
            (ChannelFilter::EntityMetadata, ChannelView::EntityMetadata) => true,
            (ChannelFilter::Measurement, ChannelView::Measurement(_)) => true,
            (ChannelFilter::Event, ChannelView::Event(_)) => true,
            (ChannelFilter::Alarm, ChannelView::Alarm(_)) => true,
            (ChannelFilter::AnyCommandMetadata, ChannelView::CommandMetadata(_)) => true,
            (ChannelFilter::AnyCommand, ChannelView::Command(_, _)) => true,
            (ChannelFilter::CommandMetadata(operation), ChannelView::CommandMetadata(name)) => {
                operation.name_text() == name
            },
            (ChannelFilter::Command(operation), ChannelView::Command(name, _)) => {
                operation.name_text() == name
            },
            _ => false,
        }
    }
}

/// The pattern for the topics of some entities and channels.
pub open spec fn filter_text(root: Seq<char>, entity: EntityFilter, channel: ChannelFilter) -> Seq<
    char,
> {
    joined_text(seq![root] + entity.levels() + channel.levels(), "/"@)
}

impl MqttSchema {
    /// The filter for the topics of some entities and channels.
    pub fn topics(&self, entity: &EntityFilter, channel: &ChannelFilter) -> (filter: TopicFilter)
        ensures
            texts(filter.patterns@) == seq![filter_text(self.root@, *entity, *channel)],
    {
        let mut levels: Vec<String> = Vec::new();
        levels.push(self.root.clone());
        let ghost start = texts(levels@);
        assert(start =~= seq![self.root@]);
        match entity {
            EntityFilter::AnyEntity => {
                levels.push(owned("+"));
                levels.push(owned("+"));
                levels.push(owned("+"));
                levels.push(owned("+"));
                proof {
                    reveal_strlit("+");
                    assert("+"@ =~= seq!['+']);
                    assert(texts(levels@) =~= start + entity.levels());
                }
            },
            EntityFilter::Entity(id) => {
                let mut segments = id.to_segments();
                let ghost named = texts(segments@);
                levels.append(&mut segments);
                assert(texts(levels@) =~= start + named);
            },
        }
        let ghost middle = texts(levels@);
        proof {
            reveal_strlit("+");
            assert("+"@ =~= seq!['+']);
        }
        match channel {
            ChannelFilter::EntityMetadata => {},
            ChannelFilter::Measurement => {
                levels.push(owned("m"));
                levels.push(owned("+"));
            },
            ChannelFilter::Event => {
                levels.push(owned("e"));
                levels.push(owned("+"));
            },
            ChannelFilter::Alarm => {
                levels.push(owned("a"));
                levels.push(owned("+"));
            },
            ChannelFilter::AnyCommandMetadata => {
                levels.push(owned("cmd"));
                levels.push(owned("+"));
            },
            ChannelFilter::AnyCommand => {
                levels.push(owned("cmd"));
                levels.push(owned("+"));
                levels.push(owned("+"));
            },
            ChannelFilter::CommandMetadata(operation) => {
                levels.push(owned("cmd"));
                levels.push(operation.name());
            },
            ChannelFilter::Command(operation) => {
                levels.push(owned("cmd"));
                levels.push(operation.name());
                levels.push(owned("+"));
            },
        }
        assert(texts(levels@) =~= middle + channel.levels());
        let pattern = join(&levels, "/");
        TopicFilter::new_unchecked(pattern.as_str())
    }
}

/// Tells whether a level of a filter stands for a level of a topic: it is
/// `+` or the topic's own level, and neither is `#`.
pub open spec fn level_fits(filter: Seq<char>, topic: Seq<char>) -> bool {
    (filter == seq!['+'] || filter == topic) && filter != seq!['#'] && topic != seq!['#']
}

/// A topic meets a filter of as many levels where each level of the filter
/// stands for the topic's level at its place.
pub proof fn lemma_levels_match_one_by_one(topic: Seq<Seq<char>>, filter: Seq<Seq<char>>)
    requires
        topic.len() == filter.len(),
        forall|i: int| 0 <= i < topic.len() ==> level_fits(#[trigger] filter[i], topic[i]),
    ensures
        levels_match(topic, filter),
    decreases filter.len(),
{
    if filter.len() > 0 {
        assert(level_fits(filter[0], topic[0]));
        assert forall|i: int| 0 <= i < topic.drop_first().len() implies level_fits(
            #[trigger] filter.drop_first()[i],
            topic.drop_first()[i],
        ) by {
            assert(level_fits(filter[i + 1], topic[i + 1]));
        }
        lemma_levels_match_one_by_one(topic.drop_first(), filter.drop_first());
    }
}

/// A subscription gets what it is for: the topic of an entity's channel
/// meets the filter for all entities, or for that entity, and for that
/// channel.
pub proof fn lemma_topic_meets_filter(
    root: Seq<char>,
    entity: Seq<char>,
    channel: ChannelView,
    entities: EntityFilter,
    channels: ChannelFilter,
)
    requires
        is_entity_topic_id(entity),
        channel.is_clean(),
        is_valid_topic(root),
        !root.contains('/'),
        root.len() > 0 && root[0] != '$',
        channels.covers(channel),
        entities matches EntityFilter::Entity(id) ==> id@ == entity,
    ensures
        topic_matches(
            topic_text(root, entity, channel),
            filter_text(root, entities, channels),
        ),
{
    reveal_strlit("/");
    reveal_strlit("m");
    reveal_strlit("e");
    reveal_strlit("a");
    reveal_strlit("cmd");
    let slash = seq!['/'];
    assert("/"@ =~= slash);
    let plus = seq!['+'];
    let hash = seq!['#'];
    let topic = topic_text(root, entity, channel);
    let pattern = filter_text(root, entities, channels);
    let topic_levels = seq![root] + split_text(entity, '/') + channel.levels();
    let filter_levels = seq![root] + entities.levels() + channels.levels();
    lemma_split_len(entity, '/');
    lemma_split_pieces_clean(entity, '/');
    lemma_pieces_valid(entity);
    // the topic is split into its levels
    assert(split_text(topic, '/') == topic_levels) by {
        crate::text::lemma_split_joined_behind(entity, channel.levels(), '/');
        crate::text::lemma_join_split(entity, '/');
        assert(seq![root] + (seq![entity] + channel.levels()) =~= seq![root, entity]
            + channel.levels());
        crate::text::lemma_split_append_clean(Seq::empty(), root, '/');
        assert(Seq::<char>::empty() + root =~= root);
        assert(split_text(Seq::empty(), '/') =~= seq![Seq::<char>::empty()]);
        assert(split_text(root, '/') =~= seq![root]);
        lemma_split_levels(root, split_text(entity, '/') + channel.levels());
        assert(joined_text(seq![root] + (split_text(entity, '/') + channel.levels()), slash)
            == topic) by {
            lemma_join_nested(root, entity, channel.levels());
        }
        assert(seq![root] + (split_text(entity, '/') + channel.levels()) =~= topic_levels);
    }
    // and so is the pattern
    assert(split_text(pattern, '/') == filter_levels) by {
        assert(plus.len() == 1 && plus[0] == '+');
        assert forall|i: int|
            0 <= i < (entities.levels() + channels.levels()).len() implies !(#[trigger] (
            entities.levels() + channels.levels())[i]).contains('/') by {
            let level = (entities.levels() + channels.levels())[i];
            if i < entities.levels().len() {
                assert(level == entities.levels()[i]);
            } else {
                let k = i - entities.levels().len();
                assert(level == channels.levels()[k]);
                if channels.levels()[k] != plus {
                    assert(channel.levels()[k] == channels.levels()[k]);
                }
            }
        }
        lemma_split_levels(root, entities.levels() + channels.levels());
        assert(seq![root] + (entities.levels() + channels.levels()) =~= filter_levels);
    }
    assert forall|i: int| 0 <= i < topic_levels.len() implies level_fits(
        #[trigger] filter_levels[i],
        topic_levels[i],
    ) by {
        assert(hash.len() == 1 && hash[0] == '#');
        assert(plus.len() == 1 && plus[0] == '+');
        if i == 0 {
            if root == hash {
                assert(root.contains(root[0]));
            }
        } else if i <= 4 {
            let piece = split_text(entity, '/')[i - 1];
            assert(topic_levels[i] == piece);
            assert(filter_levels[i] == entities.levels()[i - 1]);
            assert(is_valid_topic(piece));
            if piece == hash {
                assert(piece.contains(piece[0]));
            }
        } else {
            let k = i - 5;
            let level = channel.levels()[k];
            assert(topic_levels[i] == level);
            assert(filter_levels[i] == channels.levels()[k]);
            assert(is_valid_topic(level));
            if level == hash {
                assert(level.contains(level[0]));
            }
        }
    }
    lemma_levels_match_one_by_one(topic_levels, filter_levels);
    assert(topic.len() > 0 && topic[0] == root[0]) by {
        lemma_joined_behind(root, seq![entity] + channel.levels());
        assert(seq![root] + (seq![entity] + channel.levels()) =~= seq![root, entity]
            + channel.levels());
    }
}

/// The levels of a text joined of a root without slash and of clean pieces
/// are the root and the pieces.
proof fn lemma_split_levels(root: Seq<char>, pieces: Seq<Seq<char>>)
    requires
        !root.contains('/'),
        forall|i: int| 0 <= i < pieces.len() ==> !(#[trigger] pieces[i]).contains('/'),
    ensures
        split_text(joined_text(seq![root] + pieces, seq!['/']), '/') == seq![root] + pieces,
{
    crate::text::lemma_split_joined_behind(root, pieces, '/');
    crate::text::lemma_split_append_clean(Seq::empty(), root, '/');
    assert(Seq::<char>::empty() + root =~= root);
    assert(split_text(Seq::empty(), '/') =~= seq![Seq::<char>::empty()]);
    assert(seq![Seq::<char>::empty()].drop_last().push(Seq::<char>::empty() + root) =~= seq![
        root,
    ]);
}

/// Joining the root, the entity's name and the channel's levels is joining
/// the root, the entity's segments and the channel's levels.
proof fn lemma_join_nested(root: Seq<char>, entity: Seq<char>, levels: Seq<Seq<char>>)
    ensures
        joined_text(seq![root] + (split_text(entity, '/') + levels), seq!['/']) == joined_text(
            seq![root, entity] + levels,
            seq!['/'],
        ),
    decreases levels.len(),
{
    let slash = seq!['/'];
    let segments = split_text(entity, '/');
    crate::text::lemma_split_nonempty(entity, '/');
    if levels.len() == 0 {
        assert(segments + levels =~= segments);
        assert(seq![root, entity] + levels =~= seq![root] + seq![entity]);
        lemma_joined_behind(root, segments);
        lemma_joined_behind(root, seq![entity]);
        crate::text::lemma_join_split(entity, '/');
        assert(joined_text(seq![entity], slash) == entity);
    } else {
        lemma_join_nested(root, entity, levels.drop_last());
        let a = seq![root] + (segments + levels);
        let b = seq![root, entity] + levels;
        assert(a.drop_last() =~= seq![root] + (segments + levels.drop_last()));
        assert(b.drop_last() =~= seq![root, entity] + levels.drop_last());
        assert(a.last() == levels.last() && b.last() == levels.last());
    }
}

} // verus!
