use std::collections::{BTreeMap, BTreeSet};

use tedge_gateway::entity_store::model::EntityType;
use tedge_gateway::entity_store::store::{EntityRegistrationMessage, EntityStore, Protocol};
use tedge_gateway::json::Json;
use tedge_gateway::mqtt_topics::EntityTopicId;

/// A request in short: a topic is a word, each of its letters one level
/// further from the main device. The empty word is the main device; a device
/// stands under the device that the word without its last letter names, and
/// a service of that word is the service, named by the last letter, of that
/// device.
#[derive(Debug, Clone)]
enum Action {
    AddDevice { topic: String, props: Vec<(String, String)> },
    AddService { topic: String, props: Vec<(String, String)> },
    RemDevice { topic: String },
    RemService { topic: String },
}

impl Action {
    fn target(&self) -> &str {
        match self {
            Action::AddDevice { topic, .. }
            | Action::AddService { topic, .. }
            | Action::RemDevice { topic }
            | Action::RemService { topic } => topic.as_ref(),
        }
    }

    fn parent(&self) -> Option<(&str, &str)> {
        let topic = self.target();
        let len: usize = topic.len();
        match len {
            0 => None,
            1 => Some(("main", &topic[0..1])),
            _ => Some((&topic[0..(len - 1)], &topic[(len - 1)..len])),
        }
    }

    fn topic_id(&self) -> EntityTopicId {
        let text = match (self.parent(), self) {
            (None, _) => "device/main//".to_string(),
            (Some(_), Action::AddDevice { topic, .. }) | (Some(_), Action::RemDevice { topic }) => {
                format!("device/{topic}//")
            }
            (Some((parent, id)), Action::AddService { .. })
            | (Some((parent, id)), Action::RemService { .. }) => {
                format!("device/{parent}/service/{id}")
            }
        };
        EntityTopicId::from_str(&text).unwrap()
    }

    fn parent_topic_id(&self) -> Option<EntityTopicId> {
        self.parent()
            .map(|(parent, _)| EntityTopicId::from_str(&format!("device/{parent}//")).unwrap())
    }

    fn target_type(&self) -> EntityType {
        match (self.parent(), self) {
            (None, _) => EntityType::MainDevice,
            (Some(_), Action::AddDevice { .. }) | (Some(_), Action::RemDevice { .. }) => {
                EntityType::ChildDevice
            }
            (Some(_), Action::AddService { .. }) | (Some(_), Action::RemService { .. }) => {
                EntityType::Service
            }
        }
    }

    fn properties(&self) -> Vec<(String, Json)> {
        match self {
            Action::AddDevice { props, .. } | Action::AddService { props, .. } => {
                props.iter().map(|(k, v)| (k.clone(), Json::Text(v.clone()))).collect()
            }
            Action::RemDevice { .. } | Action::RemService { .. } => vec![],
        }
    }

    fn is_addition(&self) -> bool {
        matches!(self, Action::AddDevice { .. } | Action::AddService { .. })
    }

    fn registration(&self) -> EntityRegistrationMessage {
        EntityRegistrationMessage {
            topic_id: self.topic_id(),
            external_id: None,
            entity_type: self.target_type(),
            parent: self.parent_topic_id(),
            other: self.properties(),
        }
    }
}

/// The simplest account of the entities: all that are known, each with its
/// parent, and those among them that are registered.
struct State {
    entities: BTreeMap<String, Option<String>>,
    registered: BTreeSet<String>,
}

impl State {
    fn new() -> State {
        let mut state = State { entities: BTreeMap::new(), registered: BTreeSet::new() };
        state.apply(Protocol::HTTP, &Action::AddDevice { topic: String::new(), props: vec![] });
        state
    }

    /// What the one who asked is told: the entities that the request
    /// registered or took out.
    fn apply(&mut self, protocol: Protocol, action: &Action) -> BTreeSet<String> {
        let topic = action.topic_id().as_str().to_string();
        if action.is_addition() {
            let parent = action.parent_topic_id().map(|p| p.as_str().to_string());
            if let Some(parent) = parent.as_ref() {
                if protocol == Protocol::HTTP && !self.registered.contains(parent) {
                    return BTreeSet::new();
                }
            }
            if self.entities.contains_key(&topic) {
                BTreeSet::new()
            } else {
                self.entities.insert(topic.clone(), parent.clone());
                self.register(topic, parent)
            }
        } else if self.entities.contains_key(&topic) {
            self.entities.remove(&topic);
            self.registered.remove(&topic);
            self.cascade_deregistration(BTreeSet::from([topic]))
        } else {
            BTreeSet::new()
        }
    }

    fn register(&mut self, new_entity: String, parent: Option<String>) -> BTreeSet<String> {
        if parent.as_ref().map_or(true, |p| self.registered.contains(p)) {
            self.registered.insert(new_entity.clone());
            self.cascade_registration(BTreeSet::from([new_entity]))
        } else {
            BTreeSet::new()
        }
    }

    fn cascade_registration(&mut self, mut new_entities: BTreeSet<String>) -> BTreeSet<String> {
        let mut new_connected = BTreeSet::new();
        for (entity_id, parent) in self.entities.iter() {
            if let Some(parent_id) = parent {
                if !self.registered.contains(entity_id) && new_entities.contains(parent_id) {
                    new_connected.insert(entity_id.clone());
                }
            }
        }
        if !new_connected.is_empty() {
            for entity_id in &new_connected {
                self.registered.insert(entity_id.clone());
            }
            for entity_id in self.cascade_registration(new_connected) {
                new_entities.insert(entity_id);
            }
        }
        new_entities
    }

    fn cascade_deregistration(&mut self, mut old_entities: BTreeSet<String>) -> BTreeSet<String> {
        let mut new_disconnected = BTreeSet::new();
        for (entity_id, parent) in self.entities.iter() {
            if let Some(parent_id) = parent {
                if old_entities.contains(parent_id) {
                    new_disconnected.insert(entity_id.clone());
                }
            }
        }
        if !new_disconnected.is_empty() {
            for entity_id in &new_disconnected {
                self.entities.remove(entity_id);
                self.registered.remove(entity_id);
            }
            for entity_id in self.cascade_deregistration(new_disconnected) {
                old_entities.insert(entity_id);
            }
        }
        old_entities
    }

    fn waiting(&self) -> BTreeSet<String> {
        self.entities.keys().filter(|k| !self.registered.contains(*k)).cloned().collect()
    }
}

/// Numbers that look arbitrary and are the same at each run.
struct Numbers {
    state: u64,
}

impl Numbers {
    fn below(&mut self, bound: usize) -> usize {
        self.state = self
            .state
            .wrapping_mul(6364136223846793005u64)
            .wrapping_add(1442695040888963407u64);
        ((self.state >> 33) % (bound as u64)) as usize
    }

    fn name(&mut self) -> String {
        let len: usize = 1 + self.below(3);
        (0..len).map(|_| ['a', 'b', 'c'][self.below(3)]).collect()
    }

    fn props(&mut self) -> Vec<(String, String)> {
        let count: usize = self.below(2);
        (0..count)
            .map(|_| {
                (["x", "y", "z"][self.below(3)].to_string(), self.below(10).to_string())
            })
            .collect()
    }

    fn action_on(&mut self, topic: String) -> (Protocol, Action) {
        let protocol = if self.below(2) == 0 { Protocol::HTTP } else { Protocol::MQTT };
        let props = self.props();
        let action = match self.below(4) {
            0 => Action::AddDevice { topic, props },
            1 => Action::AddService { topic, props },
            2 => Action::RemService { topic },
            _ => Action::RemDevice { topic },
        };
        (protocol, action)
    }

    /// A list of requests, each on a target of an earlier one or on a new
    /// one.
    fn walk(&mut self, length: usize) -> Vec<(Protocol, Action)> {
        let mut actions: Vec<(Protocol, Action)> = vec![];
        for _ in 0..length {
            let fresh = self.name();
            let pick: usize = self.below(actions.len() + 1);
            let topic = actions.get(pick).map(|(_, a)| a.target().to_string()).unwrap_or(fresh);
            let next = self.action_on(topic);
            actions.push(next);
        }
        actions
    }
}

fn set_of(ids: &[EntityTopicId]) -> BTreeSet<String> {
    ids.iter().map(|id| id.as_str().to_string()).collect()
}

fn run(walk: &[(Protocol, Action)]) {
    let mut store = EntityStore::new("device-under-test");
    let mut state = State::new();
    for (protocol, action) in walk {
        let expected = state.apply(*protocol, action);
        let actual = if action.is_addition() {
            match store.register(action.registration(), *protocol) {
                Ok(ids) => set_of(&ids),
                Err(_) => BTreeSet::new(),
            }
        } else {
            set_of(&store.deregister(&action.topic_id()))
        };
        assert_eq!(actual, expected, "after {action:?} in {walk:?}");
        assert_eq!(set_of(&store.registered_topic_ids()), state.registered, "in {walk:?}");
        let waiting: BTreeSet<String> =
            store.pending_entities().iter().map(|e| e.topic_id.as_str().to_string()).collect();
        assert_eq!(waiting, state.waiting(), "in {walk:?}");
    }
}

#[test]
fn it_works_for_any_registration_order() {
    let mut numbers = Numbers { state: 7 };
    for _ in 0..3000 {
        let walk = numbers.walk(6);
        run(&walk);
    }
}

#[test]
fn it_works_for_long_walks() {
    let mut numbers = Numbers { state: 2024 };
    for _ in 0..300 {
        let walk = numbers.walk(40);
        run(&walk);
    }
}

#[test]
fn a_short_word_names_an_entity() {
    let main = Action::AddDevice { topic: String::new(), props: vec![] };
    assert_eq!(main.topic_id().as_str(), "device/main//");
    assert!(main.parent_topic_id().is_none());
    assert_eq!(main.target_type(), EntityType::MainDevice);

    let child = Action::AddDevice { topic: "a".to_string(), props: vec![] };
    assert_eq!(child.topic_id().as_str(), "device/a//");
    assert_eq!(child.parent_topic_id().unwrap().as_str(), "device/main//");
    assert_eq!(child.target_type(), EntityType::ChildDevice);

    let nested = Action::RemDevice { topic: "abc".to_string() };
    assert_eq!(nested.topic_id().as_str(), "device/abc//");
    assert_eq!(nested.parent_topic_id().unwrap().as_str(), "device/ab//");

    let service = Action::AddService {
        topic: "ab".to_string(),
        props: vec![("x".to_string(), "1".to_string())],
    };
    assert_eq!(service.topic_id().as_str(), "device/a/service/b");
    assert_eq!(service.parent_topic_id().unwrap().as_str(), "device/a//");
    assert_eq!(service.target_type(), EntityType::Service);
    assert_eq!(service.registration().other.len(), 1);

    let main_service = Action::RemService { topic: "c".to_string() };
    assert_eq!(main_service.topic_id().as_str(), "device/main/service/c");
    assert_eq!(main_service.parent_topic_id().unwrap().as_str(), "device/main//");
}
