//! MQTT topics and topic filters.

use crate::mqtt::error::MqttError;
use crate::text::{chars_of, contains_char, owned, split, split_text, texts};
use vstd::prelude::*;

verus! {

/// A topic name holds no wildcard.
pub open spec fn is_valid_topic(name: Seq<char>) -> bool {
    !name.contains('+') && !name.contains('#')
}

/// A level of a filter is well formed when a wildcard in it is the whole
/// level, and `#` stands only in the last level.
pub open spec fn is_valid_level(level: Seq<char>, is_last: bool) -> bool {
    &&& level.contains('+') ==> level == seq!['+']
    &&& level.contains('#') ==> level == seq!['#'] && is_last
}

/// A filter is well formed when it is not empty and each of its levels is.
pub open spec fn is_valid_filter(pattern: Seq<char>) -> bool {
    let levels = split_text(pattern, '/');
    &&& pattern.len() > 0
    &&& forall|i: int|
        0 <= i < levels.len() ==> is_valid_level(#[trigger] levels[i], i == levels.len() - 1)
}

/// Tells whether the levels of a topic meet the levels of a filter: `+`
/// stands for any one level, `#` for all the levels that are left, none
/// included.
pub open spec fn levels_match(topic: Seq<Seq<char>>, filter: Seq<Seq<char>>) -> bool
    decreases filter.len(),
{
    if filter.len() == 0 {
        topic.len() == 0
    } else if filter[0] == seq!['#'] {
        true
    } else if topic.len() == 0 {
        false
    } else if topic[0] == seq!['#'] {
        false
    } else if filter[0] == seq!['+'] || filter[0] == topic[0] {
        levels_match(topic.drop_first(), filter.drop_first())
    } else {
        false
    }
}

/// Tells whether a topic meets a filter. A topic that starts with `$` meets
/// no filter.
pub open spec fn topic_matches(topic: Seq<char>, filter: Seq<char>) -> bool {
    &&& !(topic.len() > 0 && topic[0] == '$')
    &&& levels_match(split_text(topic, '/'), split_text(filter, '/'))
}

fn is_single(level: &str, c: char) -> (r: bool)
    ensures
        r == (level@ == seq![c]),
{
    let chars = chars_of(level);
    if chars.len() == 1 && chars[0] == c {
        assert(level@ =~= seq![c]);
        true
    } else {
        proof {
            if level@ == seq![c] {
                assert(seq![c].len() == 1);
                assert(seq![c][0] == c);
            }
        }
        false
    }
}

/// Tells whether `name` can be a topic.
pub fn valid_topic(name: &str) -> (r: bool)
    ensures
        r == is_valid_topic(name@),
{
    !contains_char(name, '+') && !contains_char(name, '#')
}

/// Tells whether `pattern` can be a topic filter.
pub fn valid_filter(pattern: &str) -> (r: bool)
    ensures
        r == is_valid_filter(pattern@),
{
    let chars = chars_of(pattern);
    if chars.len() == 0 {
        return false;
    }
    let levels = split(pattern, '/');
    let mut i: usize = 0;
    while i < levels.len()
        invariant
            i <= levels.len(),
            texts(levels@) == split_text(pattern@, '/'),
            forall|j: int|
                0 <= j < i ==> is_valid_level(
                    #[trigger] split_text(pattern@, '/')[j],
                    j == levels.len() - 1,
                ),
        decreases levels.len() - i,
    {
        let level = levels[i].as_str();
        assert(level@ == split_text(pattern@, '/')[i as int]);
        if contains_char(level, '+') && !is_single(level, '+') {
            return false;
        }
        if contains_char(level, '#') && !(is_single(level, '#') && i == levels.len() - 1) {
            return false;
        }
        i += 1;
    }
    true
}

/// Tells whether `topic` meets `filter`.
pub fn matches(topic: &str, filter: &str) -> (r: bool)
    ensures
        r == topic_matches(topic@, filter@),
{
    let first = chars_of(topic);
    if first.len() > 0 && first[0] == '$' {
        return false;
    }
    let topics = split(topic, '/');
    let filters = split(filter, '/');
    let ghost t = texts(topics@);
    let ghost f = texts(filters@);
    let mut i: usize = 0;
    assert(t.skip(0) =~= t && f.skip(0) =~= f);
    while i < filters.len()
        invariant
            i <= filters.len(),
            i <= topics.len(),
            t == texts(topics@),
            f == texts(filters@),
            t == split_text(topic@, '/'),
            f == split_text(filter@, '/'),
            !(topic@.len() > 0 && topic@[0] == '$'),
            levels_match(t, f) == levels_match(t.skip(i as int), f.skip(i as int)),
        decreases filters.len() - i,
    {
        let level = filters[i].as_str();
        proof {
            assert(f.skip(i as int).len() > 0);
            assert(f.skip(i as int)[0] == level@);
            assert(f.skip(i as int).drop_first() =~= f.skip(i + 1));
            if i < topics.len() {
                assert(t.skip(i as int)[0] == topics@[i as int]@);
                assert(t.skip(i as int).drop_first() =~= t.skip(i + 1));
            }
        }
        if is_single(level, '#') {
            return true;
        }
        if i >= topics.len() {
            return false;
        }
        let name = topics[i].as_str();
        if is_single(name, '#') {
            return false;
        }
        if !is_single(level, '+') && !(filters[i] == topics[i]) {
            return false;
        }
        i += 1;
    }
    assert(f.skip(i as int).len() == 0);
    assert(t.skip(i as int).len() == topics.len() - i);
    i == topics.len()
}

/// The name under which a message is published. It holds no wildcard.
#[derive(Debug)]
pub struct Topic {
    name: String,
}

impl Topic {
    /// The topic's name.
    pub closed spec fn view(&self) -> Seq<char> {
        self.name@
    }

    #[verifier::type_invariant]
    spec fn well_formed(&self) -> bool {
        is_valid_topic(self.name@)
    }

    /// The topic of the given name, unless the name holds a wildcard.
    pub fn new(name: &str) -> (r: Result<Topic, MqttError>)
        ensures
            match r {
                Ok(topic) => is_valid_topic(name@) && topic@ == name@,
                Err(e) => {
                    &&& !is_valid_topic(name@)
                    &&& e matches MqttError::InvalidTopic { name: n }
                    &&& n@ == name@
                },
            },
    {
        if valid_topic(name) {
            Ok(Topic { name: owned(name) })
        } else {
            Err(MqttError::InvalidTopic { name: owned(name) })
        }
    }

    /// The topic of a name that is known to hold no wildcard.
    pub fn new_unchecked(name: &str) -> (topic: Topic)
        requires
            is_valid_topic(name@),
        ensures
            topic@ == name@,
    {
        Topic { name: owned(name) }
    }

    /// The topic's name.
    pub fn name(&self) -> (name: &str)
        ensures
            name@ == self@,
            is_valid_topic(name@),
    {
        proof {
            use_type_invariant(self);
        }
        self.name.as_str()
    }

    /// The filter that this topic alone meets, where it does not start with `$`.
    pub fn filter(&self) -> (filter: TopicFilter)
        ensures
            texts(filter.patterns@) == seq![self@],
            filter.qos == QoS::AtLeastOnce,
    {
        let mut patterns: Vec<String> = Vec::new();
        patterns.push(self.name.clone());
        assert(texts(patterns@) =~= seq![self@]);
        TopicFilter { patterns, qos: QoS::AtLeastOnce }
    }
}

impl Clone for Topic {
    fn clone(&self) -> (copy: Topic)
        ensures
            copy@ == self@,
    {
        proof {
            use_type_invariant(self);
        }
        Topic { name: self.name.clone() }
    }
}

/// How hard the broker tries to deliver a message.
#[derive(Clone, Copy, PartialEq, Eq, Structural, Debug)]
pub enum QoS {
    AtMostOnce,
    AtLeastOnce,
    ExactlyOnce,
}

/// A set of patterns that topics are held against.
#[derive(Debug)]
pub struct TopicFilter {
    pub patterns: Vec<String>,
    pub qos: QoS,
}

impl TopicFilter {
    /// A topic is accepted when it meets one of the patterns.
    pub open spec fn accepts(&self, topic: Seq<char>) -> bool {
        exists|i: int|
            0 <= i < self.patterns@.len() && topic_matches(topic, #[trigger] self.patterns@[i]@)
    }

    /// The filter that accepts nothing.
    pub fn empty() -> (filter: TopicFilter)
        ensures
            filter.patterns@.len() == 0,
            filter.qos == QoS::AtLeastOnce,
    {
        TopicFilter { patterns: Vec::new(), qos: QoS::AtLeastOnce }
    }

    /// The filter of one pattern, unless the pattern is malformed.
    pub fn new(pattern: &str) -> (r: Result<TopicFilter, MqttError>)
        ensures
            match r {
                Ok(filter) => is_valid_filter(pattern@) && texts(filter.patterns@) == seq![
                    pattern@,
                ] && filter.qos == QoS::AtLeastOnce,
                Err(e) => {
                    &&& !is_valid_filter(pattern@)
                    &&& e matches MqttError::InvalidFilter { pattern: p }
                    &&& p@ == pattern@
                },
            },
    {
        if valid_filter(pattern) {
            Ok(TopicFilter::new_unchecked(pattern))
        } else {
            Err(MqttError::InvalidFilter { pattern: owned(pattern) })
        }
    }

    /// The filter of one pattern, taken as it is.
    pub fn new_unchecked(pattern: &str) -> (filter: TopicFilter)
        ensures
            texts(filter.patterns@) == seq![pattern@],
            filter.qos == QoS::AtLeastOnce,
    {
        let mut patterns: Vec<String> = Vec::new();
        patterns.push(owned(pattern));
        assert(texts(patterns@) =~= seq![pattern@]);
        TopicFilter { patterns, qos: QoS::AtLeastOnce }
    }

    /// Adds a pattern, unless it is malformed; the filter is then unchanged.
    pub fn add(&mut self, pattern: &str) -> (r: Result<(), MqttError>)
        ensures
            final(self).qos == old(self).qos,
            match r {
                Ok(_) => is_valid_filter(pattern@) && texts(final(self).patterns@) == texts(
                    old(self).patterns@,
                ).push(pattern@),
                Err(e) => {
                    &&& !is_valid_filter(pattern@)
                    &&& final(self).patterns@ == old(self).patterns@
                    &&& e matches MqttError::InvalidFilter { pattern: p }
                    &&& p@ == pattern@
                },
            },
    {
        if valid_filter(pattern) {
            self.add_unchecked(pattern);
            Ok(())
        } else {
            Err(MqttError::InvalidFilter { pattern: owned(pattern) })
        }
    }

    /// Adds a pattern, taken as it is.
    pub fn add_unchecked(&mut self, pattern: &str)
        ensures
            final(self).qos == old(self).qos,
            texts(final(self).patterns@) == texts(old(self).patterns@).push(pattern@),
    {
        self.patterns.push(owned(pattern));
        assert(texts(self.patterns@) =~= texts(old(self).patterns@).push(pattern@));
    }

    /// Adds all the patterns of another filter, behind those already there.
    pub fn add_all(&mut self, other: TopicFilter)
        ensures
            final(self).qos == old(self).qos,
            texts(final(self).patterns@) == texts(old(self).patterns@) + texts(other.patterns@),
    {
        let mut i: usize = 0;
        assert(texts(other.patterns@).take(0) =~= Seq::<Seq<char>>::empty());
        assert(texts(self.patterns@) =~= texts(old(self).patterns@) + texts(
            other.patterns@,
        ).take(0));
        while i < other.patterns.len()
            invariant
                i <= other.patterns.len(),
                self.qos == old(self).qos,
                texts(self.patterns@) == texts(old(self).patterns@) + texts(
                    other.patterns@,
                ).take(i as int),
            decreases other.patterns.len() - i,
        {
            let ghost before = self.patterns@;
            let copy = other.patterns[i].clone();
            self.patterns.push(copy);
            i += 1;
            assert(texts(self.patterns@) =~= texts(before).push(copy@));
            assert(texts(other.patterns@).take(i as int) =~= texts(other.patterns@).take(
                i - 1,
            ).push(copy@));
        }
        assert(texts(other.patterns@).take(other.patterns.len() as int) =~= texts(
            other.patterns@,
        ));
    }

    /// The same patterns, asked for with another quality of service.
    pub fn with_qos(self, qos: QoS) -> (filter: TopicFilter)
        ensures
            filter.patterns == self.patterns,
            filter.qos == qos,
    {
        TopicFilter { patterns: self.patterns, qos }
    }

    /// Tells whether the filter accepts the topic of the given name.
    pub fn accept_topic_name(&self, name: &str) -> (r: bool)
        ensures
            r == self.accepts(name@),
    {
        let mut i: usize = 0;
        while i < self.patterns.len()
            invariant
                i <= self.patterns.len(),
                forall|j: int| 0 <= j < i ==> !topic_matches(name@, #[trigger] self.patterns@[j]@),
            decreases self.patterns.len() - i,
        {
            if matches(name, self.patterns[i].as_str()) {
                return true;
            }
            i += 1;
        }
        false
    }

    /// Tells whether the filter accepts the topic.
    pub fn accept_topic(&self, topic: &Topic) -> (r: bool)
        ensures
            r == self.accepts(topic@),
    {
        self.accept_topic_name(topic.name())
    }
}

} // verus!
