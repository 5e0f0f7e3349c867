//! MQTT messages.

use crate::mqtt::error::{prefix_without_whitespace, MqttError, EXCERPT_LEN};
use crate::mqtt::topic::{QoS, Topic, TopicFilter};
use vstd::prelude::*;
use vstd::slice::slice_subrange;
use vstd::string::{StrSliceExecFns, StringSliceAdditionalSpecFns};
use vstd::utf8::{decode_utf8, encode_utf8, valid_utf8};

verus! {

/// Whether the first `n` bytes are the longest beginning of the bytes that
/// is valid UTF-8.
pub open spec fn is_valid_up_to(bytes: Seq<u8>, n: int) -> bool {
    &&& 0 <= n <= bytes.len()
    &&& valid_utf8(bytes.subrange(0, n))
    &&& forall|m: int| n < m <= bytes.len() ==> !valid_utf8(#[trigger] bytes.subrange(0, m))
}

/// Whether an error tells of a payload that it is no UTF-8: up to where it
/// is, and the beginning of the text that can be read.
pub open spec fn tells_invalid_utf8(e: MqttError, payload: Seq<u8>) -> bool {
    &&& e matches MqttError::InvalidUtf8Payload { input_excerpt, valid_up_to }
    &&& is_valid_up_to(payload, valid_up_to as int)
    &&& input_excerpt@ == prefix_without_whitespace(
        decode_utf8(payload.subrange(0, valid_up_to as int)),
        EXCERPT_LEN as nat,
    )
}

/// Reads bytes as UTF-8 text with `core::str::from_utf8`. The text comes back
/// exactly when the bytes are valid UTF-8, and it is the text that they
/// encode. Otherwise the number that comes back is what the error's
/// `valid_up_to` gives: the length of the longest beginning of the bytes that
/// is valid.
#[verifier::external_body]
pub(crate) fn utf8_text(bytes: &[u8]) -> (r: Result<&str, usize>)
    ensures
        r is Ok <==> valid_utf8(bytes@),
        r matches Ok(s) ==> s.spec_bytes() == bytes@,
        r matches Err(n) ==> n < bytes@.len() && is_valid_up_to(bytes@, n as int),
{
    match core::str::from_utf8(bytes) {
        Ok(text) => Ok(text),
        Err(e) => Err(e.valid_up_to()),
    }
}

/// A message published on a topic.
#[derive(Debug)]
pub struct MqttMessage {
    pub topic: Topic,
    pub payload: Vec<u8>,
    pub qos: QoS,
    pub retain: bool,
}

/// A message as contracts speak of it.
pub struct MqttMessageView {
    pub topic: Seq<char>,
    pub payload: Seq<u8>,
    pub qos: QoS,
    pub retain: bool,
}

impl MqttMessage {
    pub open spec fn view(&self) -> MqttMessageView {
        MqttMessageView {
            topic: self.topic@,
            payload: self.payload@,
            qos: self.qos,
            retain: self.retain,
        }
    }

    /// A message that is delivered at least once and not retained.
    pub fn new(topic: &Topic, payload: Vec<u8>) -> (message: MqttMessage)
        ensures
            message.topic@ == topic@,
            message.payload@ == payload@,
            message.qos == QoS::AtLeastOnce,
            !message.retain,
    {
        MqttMessage { topic: topic.clone(), payload, qos: QoS::AtLeastOnce, retain: false }
    }

    /// A message whose payload is a text, encoded as UTF-8.
    pub fn from_text(topic: &Topic, payload: &str) -> (message: MqttMessage)
        ensures
            message.topic@ == topic@,
            message.payload@ == encode_utf8(payload@),
            message.qos == QoS::AtLeastOnce,
            !message.retain,
    {
        MqttMessage::new(topic, payload.as_bytes_vec())
    }

    /// The same message, retained by the broker.
    pub fn with_retain(self) -> (message: MqttMessage)
        ensures
            message.topic == self.topic,
            message.payload == self.payload,
            message.qos == self.qos,
            message.retain,
    {
        MqttMessage { topic: self.topic, payload: self.payload, qos: self.qos, retain: true }
    }

    /// The same message, with another quality of service.
    pub fn with_qos(self, qos: QoS) -> (message: MqttMessage)
        ensures
            message.topic == self.topic,
            message.payload == self.payload,
            message.qos == qos,
            message.retain == self.retain,
    {
        MqttMessage { topic: self.topic, payload: self.payload, qos, retain: self.retain }
    }

    /// The payload as bytes.
    pub fn payload_bytes(&self) -> (bytes: &[u8])
        ensures
            bytes@ == self.payload@,
    {
        self.payload.as_slice()
    }

    /// The payload as text, where it is valid UTF-8. Where it is not, the
    /// error holds an excerpt of the part that is.
    pub fn payload_str(&self) -> (r: Result<&str, MqttError>)
        ensures
            r is Ok <==> valid_utf8(self.payload@),
            r matches Ok(text) ==> encode_utf8(text@) == self.payload@ && text@
                == decode_utf8(self.payload@),
            r matches Err(e) ==> tells_invalid_utf8(e, self.payload@),
    {
        let bytes = self.payload.as_slice();
        match utf8_text(bytes) {
            Ok(text) => {
                proof {
                    vstd::utf8::encode_utf8_decode_utf8(text@);
                }
                Ok(text)
            },
            Err(valid_up_to) => {
                let valid_part = match utf8_text(slice_subrange(bytes, 0, valid_up_to)) {
                    Ok(text) => text,
                    Err(_) => vstd::pervasive::unreached(),
                };
                proof {
                    vstd::utf8::encode_utf8_decode_utf8(valid_part@);
                }
                Err(MqttError::new_invalid_utf8_payload(valid_part, valid_up_to))
            },
        }
    }

    /// Tells whether the filter accepts the message's topic.
    pub fn accepted_by(&self, filter: &TopicFilter) -> (r: bool)
        ensures
            r == filter.accepts(self.topic@),
    {
        filter.accept_topic(&self.topic)
    }
}

impl Clone for MqttMessage {
    fn clone(&self) -> (copy: MqttMessage)
        ensures
            copy@ == self@,
    {
        MqttMessage {
            topic: self.topic.clone(),
            payload: self.payload.clone(),
            qos: self.qos,
            retain: self.retain,
        }
    }
}

impl TopicFilter {
    /// Tells whether the filter accepts the message's topic.
    pub fn accept(&self, message: &MqttMessage) -> (r: bool)
        ensures
            r == self.accepts(message.topic@),
    {
        self.accept_topic(&message.topic)
    }
}

} // verus!
