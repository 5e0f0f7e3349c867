//! The topics of the cloud bridge.

use crate::mqtt::error::MqttError;
use crate::mqtt::topic::{is_valid_topic, valid_topic, Topic};
use crate::text::{owned, same_text};
use vstd::prelude::*;

verus! {

/// The first level of the cloud bridge's topics, `c8y` unless configured
/// otherwise. It is not empty and holds no wildcard.
#[derive(Debug)]
pub struct TopicPrefix {
    text: String,
}

impl TopicPrefix {
    pub closed spec fn view(&self) -> Seq<char> {
        self.text@
    }

    #[verifier::type_invariant]
    spec fn well_formed(&self) -> bool {
        self.text@.len() > 0 && is_valid_topic(self.text@)
    }

    /// The prefix of the given text, unless the text is empty or holds a
    /// wildcard.
    pub fn new(text: &str) -> (r: Option<TopicPrefix>)
        ensures
            r is Some <==> text@.len() > 0 && is_valid_topic(text@),
            r matches Some(prefix) ==> prefix@ == text@,
    {
        if !text.is_empty() && valid_topic(text) {
            Some(TopicPrefix { text: owned(text) })
        } else {
            None
        }
    }

    /// The prefix as text.
    pub fn as_str(&self) -> (text: &str)
        ensures
            text@ == self@,
            text@.len() > 0,
            is_valid_topic(text@),
    {
        proof {
            use_type_invariant(self);
        }
        self.text.as_str()
    }
}

/// A topic of the cloud bridge.
#[derive(Debug)]
pub enum C8yTopic {
    /// Downstream: what the cloud asks for.
    SmartRestRequest,
    /// Upstream: what the main device reports.
    SmartRestResponse,
    /// Upstream: what the child device of the given id reports.
    ChildSmartRestResponse(String),
}

impl C8yTopic {
    /// The topic's name under a prefix.
    pub open spec fn name(&self, prefix: Seq<char>) -> Seq<char> {
        match self {
            C8yTopic::SmartRestRequest => prefix + "/s/ds"@,
            C8yTopic::SmartRestResponse => prefix + "/s/us"@,
            C8yTopic::ChildSmartRestResponse(child_id) => prefix + "/s/us/"@ + child_id@,
        }
    }

    /// The topic's name under a prefix.
    pub fn to_string(&self, prefix: &TopicPrefix) -> (name: String)
        ensures
            name@ == self.name(prefix@),
    {
        let mut name = owned(prefix.as_str());
        match self {
            C8yTopic::SmartRestRequest => {
                name.append("/s/ds");
            },
            C8yTopic::SmartRestResponse => {
                name.append("/s/us");
            },
            C8yTopic::ChildSmartRestResponse(child_id) => {
                name.append("/s/us/");
                name.append(child_id.as_str());
            },
        }
        name
    }

    /// The topic under a prefix; an error where the child's id holds a
    /// wildcard.
    pub fn to_topic(&self, prefix: &TopicPrefix) -> (r: Result<Topic, MqttError>)
        ensures
            match r {
                Ok(topic) => is_valid_topic(self.name(prefix@)) && topic@ == self.name(prefix@),
                Err(e) => {
                    &&& !is_valid_topic(self.name(prefix@))
                    &&& e matches MqttError::InvalidTopic { name }
                    &&& name@ == self.name(prefix@)
                },
            },
    {
        Topic::new(self.to_string(prefix).as_str())
    }

    /// The topic on which the main device reports.
    pub fn upstream_topic(prefix: &TopicPrefix) -> (topic: Topic)
        ensures
            topic@ == prefix@ + "/s/us"@,
    {
        let mut name = owned(prefix.as_str());
        name.append("/s/us");
        proof {
            reveal_strlit("/s/us");
            lemma_valid_concat(prefix@, "/s/us"@);
        }
        Topic::new_unchecked(name.as_str())
    }

    /// The topic on which the cloud sends its requests.
    pub fn downstream_topic(prefix: &TopicPrefix) -> (topic: Topic)
        ensures
            topic@ == prefix@ + "/s/ds"@,
    {
        let mut name = owned(prefix.as_str());
        name.append("/s/ds");
        proof {
            reveal_strlit("/s/ds");
            lemma_valid_concat(prefix@, "/s/ds"@);
        }
        Topic::new_unchecked(name.as_str())
    }
}

/// Two texts without wildcard make a text without wildcard.
pub proof fn lemma_valid_concat(a: Seq<char>, b: Seq<char>)
    requires
        is_valid_topic(a),
        is_valid_topic(b),
    ensures
        is_valid_topic(a + b),
{
    assert forall|i: int| 0 <= i < (a + b).len() implies (a + b)[i] != '+' && (a + b)[i]
        != '#' by {
        if i < a.len() {
            assert(a.contains(a[i]));
        } else {
            assert(b.contains(b[i - a.len()]));
        }
    }
}

/// The name of the topic on which an entity's messages go up: the main
/// device's topic for the main device and for an entity without parent, the
/// parent's own topic otherwise.
pub open spec fn publish_topic_name(
    parent: Option<Seq<char>>,
    main_device_id: Seq<char>,
    prefix: Seq<char>,
) -> Seq<char> {
    match parent {
        Some(id) if id != main_device_id => prefix + "/s/us/"@ + id,
        _ => prefix + "/s/us"@,
    }
}

/// The topic on which an entity's messages go up, given the external id of
/// its parent and that of the main device. An error where the parent's id
/// holds a wildcard.
pub fn publish_topic_from_parent(
    parent: Option<&str>,
    main_device_id: &str,
    prefix: &TopicPrefix,
) -> (r: Result<Topic, MqttError>)
    ensures
        match r {
            Ok(topic) => {
                &&& topic@ == publish_topic_name(option_text(parent), main_device_id@, prefix@)
                &&& is_valid_topic(topic@)
            },
            Err(e) => {
                &&& !is_valid_topic(
                    publish_topic_name(option_text(parent), main_device_id@, prefix@),
                )
                &&& e matches MqttError::InvalidTopic { name }
                &&& name@ == publish_topic_name(option_text(parent), main_device_id@, prefix@)
            },
        },
{
    if let Some(id) = parent {
        if !same_text(id, main_device_id) {
            return C8yTopic::ChildSmartRestResponse(owned(id)).to_topic(prefix);
        }
    }
    let topic = C8yTopic::upstream_topic(prefix);
    let _ = topic.name();
    Ok(topic)
}

/// The text of an optional string.
pub open spec fn option_text(s: Option<&str>) -> Option<Seq<char>> {
    match s {
        Some(text) => Some(text@),
        None => None,
    }
}

} // verus!
