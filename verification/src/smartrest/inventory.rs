//! SmartREST messages that create and update managed objects in the cloud's
//! inventory.

use crate::mqtt::error::MqttError;
use crate::mqtt::message::MqttMessage;
use crate::mqtt::topic::{is_valid_topic, QoS};
use crate::smartrest::csv::{encoded_field, encoded_line, is_special, needs_quotes};
use crate::smartrest::error::{Fault, SmartRestSerializerError};
use crate::smartrest::message_ids::{
    CHILD_DEVICE_CREATION, SERVICE_CREATION, SET_CURRENTLY_INSTALLED_CONFIGURATION,
    SET_DEVICE_PROFILE_THAT_IS_BEING_APPLIED, SET_REQUIRED_AVAILABILITY,
};
use crate::smartrest::payload::{byte_len, encode_line, payload_fault, SmartrestPayload};
use crate::smartrest::topic::{
    option_text, publish_topic_from_parent, publish_topic_name, C8yTopic, TopicPrefix,
};
use crate::text::{decimal, decimal_text, owned, texts};
use vstd::prelude::*;
use vstd::utf8::{encode_utf8, is_ascii_chars, is_ascii_chars_encode_utf8};

verus! {

/// The type given to a child device that names none.
pub open spec fn default_child_type() -> Seq<char> {
    "thin-edge.io-child"@
}

/// How a truth value is written in a line.
pub open spec fn bool_text(b: bool) -> Seq<char> {
    if b {
        "true"@
    } else {
        "false"@
    }
}

fn bool_string(b: bool) -> (s: String)
    ensures
        s@ == bool_text(b),
{
    if b {
        owned("true")
    } else {
        owned("false")
    }
}

/// The fields of the message that creates a child device: the code, the
/// child's id, its name (its id if it has none), its type (the default if it
/// has none) and, only where it is asked for, the mark that makes it a device.
pub open spec fn child_device_creation_fields(
    child_id: Seq<char>,
    device_name: Option<Seq<char>>,
    device_type: Option<Seq<char>>,
    with_device_marker: bool,
) -> Seq<Seq<char>> {
    let fields = seq![
        decimal(CHILD_DEVICE_CREATION as nat),
        child_id,
        match device_name {
            Some(name) => name,
            None => child_id,
        },
        match device_type {
            Some(t) => t,
            None => default_child_type(),
        },
    ];
    if with_device_marker {
        fields.push(bool_text(true))
    } else {
        fields
    }
}

/// What keeps the message that creates a child device from being built, the
/// first of: an empty child id, an empty name, an empty type, a line over the
/// size ceiling, a topic with a wildcard in it. `None` where nothing does.
pub open spec fn child_device_creation_fault(
    child_id: Seq<char>,
    device_name: Option<Seq<char>>,
    device_type: Option<Seq<char>>,
    parent: Option<Seq<char>>,
    main_device_id: Seq<char>,
    prefix: Seq<char>,
    with_device_marker: bool,
) -> Option<Fault> {
    let fields = child_device_creation_fields(
        child_id,
        device_name,
        device_type,
        with_device_marker,
    );
    let topic = publish_topic_name(parent, main_device_id, prefix);
    if child_id.len() == 0 {
        Some(Fault::InvalidValue { field_name: "child_id"@, value: child_id })
    } else if device_name matches Some(name) && name.len() == 0 {
        Some(Fault::InvalidValue { field_name: "device_name"@, value: Seq::empty() })
    } else if device_type matches Some(t) && t.len() == 0 {
        Some(Fault::InvalidValue { field_name: "device_type"@, value: Seq::empty() })
    } else if payload_fault(fields) is Some {
        payload_fault(fields)
    } else if !is_valid_topic(topic) {
        Some(Fault::InvalidTopic { name: topic })
    } else {
        None
    }
}

pub(crate) fn topic_error(e: MqttError) -> (r: SmartRestSerializerError)
    requires
        e is InvalidTopic,
    ensures
        r@ == (Fault::InvalidTopic { name: e->InvalidTopic_name@ }),
{
    match e {
        MqttError::InvalidTopic { name } => SmartRestSerializerError::InvalidTopic { name },
        _ => vstd::pervasive::unreached(),
    }
}

/// The SmartREST message that creates a child device. It goes to the topic
/// of the child's parent: the main device's topic where the parent is the main
/// device or is not given.
pub fn child_device_creation_message(
    child_id: &str,
    device_name: Option<&str>,
    device_type: Option<&str>,
    parent: Option<&str>,
    main_device_id: &str,
    prefix: &TopicPrefix,
    with_device_marker: bool,
) -> (r: Result<MqttMessage, SmartRestSerializerError>)
    ensures
        match child_device_creation_fault(
            child_id@,
            option_text(device_name),
            option_text(device_type),
            option_text(parent),
            main_device_id@,
            prefix@,
            with_device_marker,
        ) {
            Some(fault) => r matches Err(e) && e@ == fault,
            None => {
                &&& r matches Ok(message)
                &&& message.topic@ == publish_topic_name(
                    option_text(parent),
                    main_device_id@,
                    prefix@,
                )
                &&& message.payload@ == encode_utf8(
                    encoded_line(
                        child_device_creation_fields(
                            child_id@,
                            option_text(device_name),
                            option_text(device_type),
                            with_device_marker,
                        ),
                    ),
                )
                &&& message.qos == QoS::AtLeastOnce
                &&& !message.retain
            },
        },
{
    if child_id.is_empty() {
        return Err(SmartRestSerializerError::invalid_value("child_id", child_id));
    }
    if let Some(name) = device_name {
        if name.is_empty() {
            assert(name@ =~= Seq::<char>::empty());
            return Err(SmartRestSerializerError::invalid_value("device_name", name));
        }
    }
    if let Some(t) = device_type {
        if t.is_empty() {
            assert(t@ =~= Seq::<char>::empty());
            return Err(SmartRestSerializerError::invalid_value("device_type", t));
        }
    }
    let mut fields: Vec<String> = Vec::new();
    fields.push(decimal_text(CHILD_DEVICE_CREATION as u64));
    fields.push(owned(child_id));
    fields.push(
        owned(
            match device_name {
                Some(name) => name,
                None => child_id,
            },
        ),
    );
    fields.push(
        owned(
            match device_type {
                Some(t) => t,
                None => "thin-edge.io-child",
            },
        ),
    );
    if with_device_marker {
        fields.push(bool_string(true));
    }
    assert(texts(fields@) =~= child_device_creation_fields(
        child_id@,
        option_text(device_name),
        option_text(device_type),
        with_device_marker,
    ));
    let payload = match SmartrestPayload::serialize(&fields) {
        Ok(payload) => payload,
        Err(e) => {
            return Err(e);
        },
    };
    match publish_topic_from_parent(parent, main_device_id, prefix) {
        Ok(topic) => Ok(MqttMessage::new(&topic, payload.into_bytes())),
        Err(e) => Err(topic_error(e)),
    }
}

/// The fields of the message that creates a service: the code, the
/// service's id, its type, its name and its status.
pub open spec fn service_creation_fields(
    service_id: Seq<char>,
    service_name: Seq<char>,
    service_type: Seq<char>,
    service_status: Seq<char>,
) -> Seq<Seq<char>> {
    seq![
        decimal(SERVICE_CREATION as nat),
        service_id,
        service_type,
        service_name,
        service_status,
    ]
}

/// What keeps the payload that creates a service from being built, the first
/// of: an empty id, an empty name, an empty type, an empty status, a line
/// over the size ceiling. `None` where nothing does.
pub open spec fn service_creation_fault(
    service_id: Seq<char>,
    service_name: Seq<char>,
    service_type: Seq<char>,
    service_status: Seq<char>,
) -> Option<Fault> {
    if service_id.len() == 0 {
        Some(Fault::InvalidValue { field_name: "service_id"@, value: service_id })
    } else if service_name.len() == 0 {
        Some(Fault::InvalidValue { field_name: "service_name"@, value: service_name })
    } else if service_type.len() == 0 {
        Some(Fault::InvalidValue { field_name: "service_type"@, value: service_type })
    } else if service_status.len() == 0 {
        Some(Fault::InvalidValue { field_name: "service_status"@, value: service_status })
    } else {
        payload_fault(
            service_creation_fields(service_id, service_name, service_type, service_status),
        )
    }
}

/// The SmartREST payload that creates a service on a device.
pub fn service_creation_message_payload(
    service_id: &str,
    service_name: &str,
    service_type: &str,
    service_status: &str,
) -> (r: Result<SmartrestPayload, SmartRestSerializerError>)
    ensures
        match service_creation_fault(service_id@, service_name@, service_type@, service_status@) {
            Some(fault) => r matches Err(e) && e@ == fault,
            None => r matches Ok(payload) && payload@ == encoded_line(
                service_creation_fields(
                    service_id@,
                    service_name@,
                    service_type@,
                    service_status@,
                ),
            ),
        },
{
    if service_id.is_empty() {
        return Err(SmartRestSerializerError::invalid_value("service_id", service_id));
    }
    if service_name.is_empty() {
        return Err(SmartRestSerializerError::invalid_value("service_name", service_name));
    }
    if service_type.is_empty() {
        return Err(SmartRestSerializerError::invalid_value("service_type", service_type));
    }
    if service_status.is_empty() {
        return Err(SmartRestSerializerError::invalid_value("service_status", service_status));
    }
    let mut fields: Vec<String> = Vec::new();
    fields.push(decimal_text(SERVICE_CREATION as u64));
    fields.push(owned(service_id));
    fields.push(owned(service_type));
    fields.push(owned(service_name));
    fields.push(owned(service_status));
    assert(texts(fields@) =~= service_creation_fields(
        service_id@,
        service_name@,
        service_type@,
        service_status@,
    ));
    SmartrestPayload::serialize(&fields)
}

/// What keeps the message that creates a service from being built: what
/// keeps its payload from being built or, after that, a topic with a wildcard
/// in it.
pub open spec fn service_creation_message_fault(
    service_id: Seq<char>,
    service_name: Seq<char>,
    service_type: Seq<char>,
    service_status: Seq<char>,
    parent: Option<Seq<char>>,
    main_device_id: Seq<char>,
    prefix: Seq<char>,
) -> Option<Fault> {
    let topic = publish_topic_name(parent, main_device_id, prefix);
    if service_creation_fault(service_id, service_name, service_type, service_status) is Some {
        service_creation_fault(service_id, service_name, service_type, service_status)
    } else if !is_valid_topic(topic) {
        Some(Fault::InvalidTopic { name: topic })
    } else {
        None
    }
}

/// The SmartREST message that creates a service on a device. It goes to the
/// topic of the service's parent.
pub fn service_creation_message(
    service_id: &str,
    service_name: &str,
    service_type: &str,
    service_status: &str,
    parent: Option<&str>,
    main_device_id: &str,
    prefix: &TopicPrefix,
) -> (r: Result<MqttMessage, SmartRestSerializerError>)
    ensures
        match service_creation_message_fault(
            service_id@,
            service_name@,
            service_type@,
            service_status@,
            option_text(parent),
            main_device_id@,
            prefix@,
        ) {
            Some(fault) => r matches Err(e) && e@ == fault,
            None => {
                &&& r matches Ok(message)
                &&& message.topic@ == publish_topic_name(
                    option_text(parent),
                    main_device_id@,
                    prefix@,
                )
                &&& message.payload@ == encode_utf8(
                    encoded_line(
                        service_creation_fields(
                            service_id@,
                            service_name@,
                            service_type@,
                            service_status@,
                        ),
                    ),
                )
                &&& message.qos == QoS::AtLeastOnce
                &&& !message.retain
            },
        },
{
    let payload = match service_creation_message_payload(
        service_id,
        service_name,
        service_type,
        service_status,
    ) {
        Ok(payload) => payload,
        Err(e) => {
            return Err(e);
        },
    };
    match publish_topic_from_parent(parent, main_device_id, prefix) {
        Ok(topic) => Ok(MqttMessage::new(&topic, payload.into_bytes())),
        Err(e) => Err(topic_error(e)),
    }
}

/// The fields of the message that reports an installed configuration: the
/// code, the configuration's type, the address it came from, and its name,
/// left empty where it has none.
pub open spec fn config_fragment_fields(
    config_type: Seq<char>,
    remote_url: Seq<char>,
    name: Option<Seq<char>>,
) -> Seq<Seq<char>> {
    seq![
        decimal(SET_CURRENTLY_INSTALLED_CONFIGURATION as nat),
        config_type,
        remote_url,
        match name {
            Some(n) => n,
            None => Seq::empty(),
        },
    ]
}

/// The SmartREST payload that reports the configuration now installed.
pub fn set_c8y_config_fragment(config_type: &str, remote_url: &str, name: Option<&str>) -> (r:
    Result<SmartrestPayload, SmartRestSerializerError>)
    ensures
        match payload_fault(config_fragment_fields(config_type@, remote_url@, option_text(name))) {
            Some(fault) => r matches Err(e) && e@ == fault,
            None => r matches Ok(payload) && payload@ == encoded_line(
                config_fragment_fields(config_type@, remote_url@, option_text(name)),
            ),
        },
{
    let mut fields: Vec<String> = Vec::new();
    fields.push(decimal_text(SET_CURRENTLY_INSTALLED_CONFIGURATION as u64));
    fields.push(owned(config_type));
    fields.push(owned(remote_url));
    fields.push(
        match name {
            Some(n) => owned(n),
            None => String::new(),
        },
    );
    assert(texts(fields@) =~= config_fragment_fields(
        config_type@,
        remote_url@,
        option_text(name),
    ));
    SmartrestPayload::serialize(&fields)
}

/// A text made of letters and digits of ASCII alone, as the codes and the
/// truth values of a line are.
pub open spec fn is_plain_word(text: Seq<char>) -> bool {
    forall|i: int|
        0 <= i < text.len() ==> !is_special(#[trigger] text[i]) && '\0' <= text[i] <= '\u{7f}'
}

proof fn lemma_decimal_is_plain(n: nat)
    ensures
        is_plain_word(decimal(n)),
    decreases n,
{
    if n >= 10 {
        lemma_decimal_is_plain(n / 10);
    }
}

/// Ten to the power of `k`.
pub open spec fn pow10(k: nat) -> nat
    decreases k,
{
    if k == 0 {
        1
    } else {
        10 * pow10((k - 1) as nat)
    }
}

proof fn lemma_decimal_len(n: nat, k: nat)
    requires
        k >= 1,
        n < pow10(k),
    ensures
        decimal(n).len() <= k,
    decreases k,
{
    if n >= 10 {
        assert(pow10(1) == 10) by {
            reveal_with_fuel(pow10, 2);
        }
        assert(k >= 2);
        lemma_decimal_len(n / 10, (k - 1) as nat);
    }
}

proof fn lemma_u64_decimal_len(n: u64)
    ensures
        decimal(n as nat).len() <= 20,
{
    assert(pow10(20) == 100000000000000000000nat) by {
        reveal_with_fuel(pow10, 21);
    }
    lemma_decimal_len(n as nat, 20);
}

proof fn lemma_line_of_two_words(a: Seq<char>, b: Seq<char>)
    requires
        is_plain_word(a),
        is_plain_word(b),
    ensures
        encoded_line(seq![a, b]) == a + seq![','] + b,
        byte_len(encoded_line(seq![a, b])) == a.len() + 1 + b.len(),
{
    let fields = seq![a, b];
    assert(!needs_quotes(a));
    assert(!needs_quotes(b));
    assert(fields.drop_last() =~= seq![a]);
    assert(fields.last() == b);
    assert(encoded_line(fields.drop_last()) == encoded_field(a));
    let line = a + seq![','] + b;
    assert(is_ascii_chars(line));
    is_ascii_chars_encode_utf8(line);
}

/// The fields of the message that reports the state of the device profile
/// being applied: the code and whether the profile is done.
pub open spec fn profile_target_fields(profile_executed: bool) -> Seq<Seq<char>> {
    seq![decimal(SET_DEVICE_PROFILE_THAT_IS_BEING_APPLIED as nat), bool_text(profile_executed)]
}

proof fn lemma_bool_text_is_plain(b: bool)
    ensures
        is_plain_word(bool_text(b)),
        bool_text(b).len() <= 5,
{
    reveal_strlit("true");
    reveal_strlit("false");
}

/// The SmartREST payload that reports the state of the device profile being
/// applied: `profile_executed` is true once every operation of the profile
/// is done.
pub fn set_c8y_profile_target_payload(profile_executed: bool) -> (payload: SmartrestPayload)
    ensures
        payload@ == encoded_line(profile_target_fields(profile_executed)),
{
    let mut fields: Vec<String> = Vec::new();
    fields.push(decimal_text(SET_DEVICE_PROFILE_THAT_IS_BEING_APPLIED as u64));
    fields.push(bool_string(profile_executed));
    assert(texts(fields@) =~= profile_target_fields(profile_executed));
    proof {
        lemma_decimal_is_plain(SET_DEVICE_PROFILE_THAT_IS_BEING_APPLIED as nat);
        lemma_u64_decimal_len(SET_DEVICE_PROFILE_THAT_IS_BEING_APPLIED as u64);
        lemma_bool_text_is_plain(profile_executed);
        lemma_line_of_two_words(
            decimal(SET_DEVICE_PROFILE_THAT_IS_BEING_APPLIED as nat),
            bool_text(profile_executed),
        );
    }
    SmartrestPayload::of_short_line(encode_line(&fields))
}

/// The message that sets the interval after which the cloud counts a silent
/// device as unavailable. The cloud takes the interval in minutes; zero puts
/// the device in maintenance mode.
#[derive(Debug)]
pub struct C8ySmartRestSetInterval117 {
    pub c8y_topic: C8yTopic,
    /// The interval in seconds.
    pub interval_secs: u64,
    pub prefix: TopicPrefix,
}

/// The fields of the message that sets the required availability: the code
/// and the interval in whole minutes.
pub open spec fn required_availability_fields(interval_secs: u64) -> Seq<Seq<char>> {
    seq![decimal(SET_REQUIRED_AVAILABILITY as nat), decimal((interval_secs / 60) as nat)]
}

impl C8ySmartRestSetInterval117 {
    /// The MQTT message that carries the interval; an error where the topic
    /// is that of a child whose id holds a wildcard.
    pub fn into_message(self) -> (r: Result<MqttMessage, SmartRestSerializerError>)
        ensures
            match r {
                Ok(message) => {
                    &&& is_valid_topic(self.c8y_topic.name(self.prefix@))
                    &&& message.topic@ == self.c8y_topic.name(self.prefix@)
                    &&& message.payload@ == encode_utf8(
                        encoded_line(required_availability_fields(self.interval_secs)),
                    )
                    &&& message.qos == QoS::AtLeastOnce
                    &&& !message.retain
                },
                Err(e) => {
                    &&& !is_valid_topic(self.c8y_topic.name(self.prefix@))
                    &&& e@ == (Fault::InvalidTopic { name: self.c8y_topic.name(self.prefix@) })
                },
            },
    {
        let topic = match self.c8y_topic.to_topic(&self.prefix) {
            Ok(topic) => topic,
            Err(e) => {
                return Err(topic_error(e));
            },
        };
        let interval_in_minutes = self.interval_secs / 60;
        let mut fields: Vec<String> = Vec::new();
        fields.push(decimal_text(SET_REQUIRED_AVAILABILITY as u64));
        fields.push(decimal_text(interval_in_minutes));
        assert(texts(fields@) =~= required_availability_fields(self.interval_secs));
        proof {
            lemma_decimal_is_plain(SET_REQUIRED_AVAILABILITY as nat);
            lemma_u64_decimal_len(SET_REQUIRED_AVAILABILITY as u64);
            lemma_decimal_is_plain(interval_in_minutes as nat);
            lemma_u64_decimal_len(interval_in_minutes);
            lemma_line_of_two_words(
                decimal(SET_REQUIRED_AVAILABILITY as nat),
                decimal(interval_in_minutes as nat),
            );
        }
        let payload = SmartrestPayload::of_short_line(encode_line(&fields));
        Ok(MqttMessage::new(&topic, payload.into_bytes()))
    }
}

} // verus!
