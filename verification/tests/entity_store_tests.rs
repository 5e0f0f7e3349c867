use tedge_gateway::entity_store::model::{EntityMetadata, EntityType};
use tedge_gateway::entity_store::store::{
    make_default_external_id, EntityRegistrationMessage, EntityStore, EntityStoreError, Protocol,
};
use tedge_gateway::json::Json;
use tedge_gateway::mqtt::message::MqttMessage;
use tedge_gateway::mqtt::topic::Topic;
use tedge_gateway::mqtt_topics::{EntityTopicId, MqttSchema};

fn id(text: &str) -> EntityTopicId {
    EntityTopicId::from_str(text).unwrap()
}

fn registration(topic: &str, kind: EntityType, parent: Option<&str>) -> EntityRegistrationMessage {
    EntityRegistrationMessage {
        topic_id: id(topic),
        external_id: None,
        entity_type: kind,
        parent: parent.map(id),
        other: vec![],
    }
}

fn child(topic: &str, parent: Option<&str>) -> EntityRegistrationMessage {
    registration(topic, EntityType::ChildDevice, parent)
}

fn service(topic: &str, parent: Option<&str>) -> EntityRegistrationMessage {
    registration(topic, EntityType::Service, parent)
}

fn names(ids: &[EntityTopicId]) -> Vec<String> {
    ids.iter().map(|i| i.as_str().to_string()).collect()
}

fn registered(store: &EntityStore) -> Vec<String> {
    names(&store.registered_topic_ids())
}

fn sorted(mut names: Vec<String>) -> Vec<String> {
    names.sort();
    names
}

#[test]
fn new_entity_store() {
    let entity_store = EntityStore::new("device-under-test");
    let found = entity_store.get("device/main//").unwrap();
    let expected = EntityMetadata::main_device("device-under-test".to_string());
    assert_eq!(found.topic_id.as_str(), expected.topic_id.as_str());
    assert_eq!(found.external_id, expected.external_id);
    assert_eq!(found.external_id, "device-under-test");
    assert_eq!(found.entity_type, EntityType::MainDevice);
    assert!(found.parent.is_none());
    assert!(found.other.is_empty());
    assert_eq!(entity_store.main_device().external_id, "device-under-test");
}

#[test]
fn a_child_is_registered_under_the_main_device() {
    let mut store = EntityStore::new("dut");
    let promoted = store.register(child("device/child1//", None), Protocol::HTTP).unwrap();
    assert_eq!(names(&promoted), vec!["device/child1//"]);
    let entity = store.get("device/child1//").unwrap();
    assert_eq!(entity.external_id, "dut:device:child1");
    assert_eq!(entity.parent.as_ref().unwrap().as_str(), "device/main//");
    assert_eq!(entity.entity_type, EntityType::ChildDevice);
    assert_eq!(store.get_by_external_id("dut:device:child1").unwrap().topic_id.as_str(), "device/child1//");
    assert!(store.get_by_external_id("unknown").is_none());
}

#[test]
fn default_external_ids() {
    assert_eq!(make_default_external_id("dut", &id("device/child1//")), "dut:device:child1");
    assert_eq!(
        make_default_external_id("dut", &id("device/child1/service/svc1")),
        "dut:device:child1:service:svc1"
    );
    assert_eq!(make_default_external_id("dut", &id("device/main/service/s")), "dut:device:main:service:s");
    assert_eq!(make_default_external_id("dut", &id("///")), "dut:");
    assert_eq!(make_default_external_id("dut", &id("a//b/")), "dut:a::b");
}

#[test]
fn a_service_stands_under_the_device_that_its_name_gives() {
    let mut store = EntityStore::new("dut");
    store.register(child("device/child1//", None), Protocol::HTTP).unwrap();
    let promoted = store.register(service("device/child1/service/svc1", None), Protocol::HTTP).unwrap();
    assert_eq!(names(&promoted), vec!["device/child1/service/svc1"]);
    let entity = store.get("device/child1/service/svc1").unwrap();
    assert_eq!(entity.parent.as_ref().unwrap().as_str(), "device/child1//");
    assert_eq!(entity.external_id, "dut:device:child1:service:svc1");
    let promoted = store.register(service("device/main/service/svc2", None), Protocol::HTTP).unwrap();
    assert_eq!(names(&promoted), vec!["device/main/service/svc2"]);
    assert_eq!(
        store.get("device/main/service/svc2").unwrap().parent.as_ref().unwrap().as_str(),
        "device/main//"
    );
}

#[test]
fn over_http_a_child_without_parent_is_refused() {
    let mut store = EntityStore::new("dut");
    let error = store
        .register(child("device/child2//", Some("device/child1//")), Protocol::HTTP)
        .unwrap_err();
    assert_eq!(error, EntityStoreError::ParentMissing);
    assert!(store.get("device/child2//").is_none());
    assert!(!store.is_pending("device/child2//"));
    assert_eq!(registered(&store), vec!["device/main//"]);
}

#[test]
fn a_service_is_never_a_parent() {
    let mut store = EntityStore::new("dut");
    store.register(service("device/main/service/svc", None), Protocol::HTTP).unwrap();
    let error = store
        .register(child("device/child//", Some("device/main/service/svc")), Protocol::HTTP)
        .unwrap_err();
    assert_eq!(error, EntityStoreError::InvalidParent);
    // over MQTT, the child waits, and goes on waiting
    let promoted = store
        .register(child("device/child//", Some("device/main/service/svc")), Protocol::MQTT)
        .unwrap();
    assert!(promoted.is_empty());
    assert!(store.is_pending("device/child//"));
}

#[test]
fn a_second_main_device_is_refused() {
    let mut store = EntityStore::new("dut");
    let error = store
        .register(registration("device/other//", EntityType::MainDevice, None), Protocol::MQTT)
        .unwrap_err();
    assert_eq!(error, EntityStoreError::MainDeviceAlreadyRegistered);
}

#[test]
fn external_ids_are_unique() {
    let mut store = EntityStore::new("dut");
    let mut first = child("device/a//", None);
    first.external_id = Some("shared".to_string());
    store.register(first, Protocol::MQTT).unwrap();
    let mut second = child("device/b//", None);
    second.external_id = Some("shared".to_string());
    assert_eq!(store.register(second, Protocol::MQTT).unwrap_err(), EntityStoreError::ExternalIdAlreadyUsed);
    let mut third = child("device/c//", Some("device/unknown//"));
    third.external_id = Some("waiting".to_string());
    assert!(store.register(third, Protocol::MQTT).unwrap().is_empty());
    let mut fourth = child("device/d//", None);
    fourth.external_id = Some("waiting".to_string());
    assert_eq!(store.register(fourth, Protocol::MQTT).unwrap_err(), EntityStoreError::ExternalIdAlreadyUsed);
    let mut fifth = child("device/e//", None);
    fifth.external_id = Some("dut".to_string());
    assert_eq!(store.register(fifth, Protocol::HTTP).unwrap_err(), EntityStoreError::ExternalIdAlreadyUsed);
    // the default id of one entity can be the given id of another
    let mut sixth = child("device/f//", None);
    sixth.external_id = Some("dut:device:g".to_string());
    store.register(sixth, Protocol::HTTP).unwrap();
    assert_eq!(
        store.register(child("device/g//", None), Protocol::HTTP).unwrap_err(),
        EntityStoreError::ExternalIdAlreadyUsed
    );
}

#[test]
fn a_known_entity_is_not_registered_again() {
    let mut store = EntityStore::new("dut");
    store.register(child("device/a//", None), Protocol::MQTT).unwrap();
    let again = store.register(service("device/a//", None), Protocol::MQTT).unwrap();
    assert!(again.is_empty());
    assert_eq!(store.get("device/a//").unwrap().entity_type, EntityType::ChildDevice);
    assert!(store.register(child("device/main//", None), Protocol::HTTP).unwrap().is_empty());
}

#[test]
fn a_child_whose_grandparent_is_missing_is_parked_then_promoted() {
    let mut store = EntityStore::new("dut");
    // the grandchild comes first, then its parent, then its grandparent
    let promoted = store
        .register(child("device/grandchild//", Some("device/child//")), Protocol::MQTT)
        .unwrap();
    assert!(promoted.is_empty());
    assert!(store.is_pending("device/grandchild//"));
    let promoted = store
        .register(child("device/child//", Some("device/grandparent//")), Protocol::MQTT)
        .unwrap();
    assert!(promoted.is_empty());
    assert!(store.is_pending("device/child//"));
    assert!(store.get("device/grandchild//").is_none());
    let promoted = store.register(child("device/grandparent//", None), Protocol::MQTT).unwrap();
    assert_eq!(
        names(&promoted),
        vec!["device/grandparent//", "device/child//", "device/grandchild//"]
    );
    assert!(!store.is_pending("device/child//"));
    assert!(!store.is_pending("device/grandchild//"));
    assert!(store.get("device/grandchild//").is_some());
    assert_eq!(
        registered(&store),
        vec!["device/main//", "device/grandparent//", "device/child//", "device/grandchild//"]
    );
}

#[test]
fn out_of_order_registration_of_a_service() {
    let mut store = EntityStore::new("dut");
    let promoted = store.register(service("device/child1/service/svc1", None), Protocol::MQTT).unwrap();
    assert!(promoted.is_empty());
    let promoted = store.register(child("device/child1//", None), Protocol::MQTT).unwrap();
    assert_eq!(names(&promoted), vec!["device/child1//", "device/child1/service/svc1"]);
    assert!(store.get("device/child1//").is_some());
    assert!(store.get("device/child1/service/svc1").is_some());
}

#[test]
fn any_order_registers_the_same_entities() {
    let all = [
        ("device/a//", None, EntityType::ChildDevice),
        ("device/b//", Some("device/a//"), EntityType::ChildDevice),
        ("device/c//", Some("device/b//"), EntityType::ChildDevice),
        ("device/a/service/s", None, EntityType::Service),
        ("device/d//", Some("device/missing//"), EntityType::ChildDevice),
        ("device/e//", Some("device/a/service/s"), EntityType::ChildDevice),
    ];
    let orders: [[usize; 6]; 5] = [
        [0, 1, 2, 3, 4, 5],
        [5, 4, 3, 2, 1, 0],
        [2, 0, 5, 1, 4, 3],
        [3, 5, 1, 4, 2, 0],
        [1, 2, 3, 0, 5, 4],
    ];
    let expected = sorted(
        vec!["device/main//", "device/a//", "device/b//", "device/c//", "device/a/service/s"]
            .into_iter()
            .map(String::from)
            .collect(),
    );
    for order in orders {
        let mut store = EntityStore::new("dut");
        let mut promoted_in_all = vec!["device/main//".to_string()];
        for at in order {
            let (topic, parent, kind) = all[at];
            let promoted = store.register(registration(topic, kind, parent), Protocol::MQTT).unwrap();
            promoted_in_all.extend(names(&promoted));
        }
        assert_eq!(sorted(registered(&store)), expected, "{:?}", order);
        assert_eq!(sorted(promoted_in_all), expected, "{:?}", order);
        assert!(store.is_pending("device/d//"));
        assert!(store.is_pending("device/e//"));
        // each entity comes behind its parent
        let list = registered(&store);
        for name in &list[1..] {
            let parent = store.get(name).unwrap().parent.as_ref().unwrap().as_str().to_string();
            let parent_at = list.iter().position(|n| *n == parent).unwrap();
            let own_at = list.iter().position(|n| n == name).unwrap();
            assert!(parent_at < own_at);
        }
    }
}

#[test]
fn registering_never_unregisters() {
    let mut store = EntityStore::new("dut");
    store.register(child("device/a//", None), Protocol::MQTT).unwrap();
    store.register(child("device/b//", Some("device/a//")), Protocol::MQTT).unwrap();
    let before = registered(&store);
    let _ = store.register(child("device/c//", Some("device/x//")), Protocol::MQTT);
    let _ = store.register(child("device/x//", Some("device/b//")), Protocol::HTTP);
    let after = registered(&store);
    assert_eq!(&after[..before.len()], &before[..]);
    assert_eq!(after.len(), before.len() + 2);
}

#[test]
fn deregistering_takes_the_descendants_out() {
    let mut store = EntityStore::new("dut");
    for (topic, parent) in [
        ("device/a//", None),
        ("device/b//", Some("device/a//")),
        ("device/c//", Some("device/b//")),
        ("device/other//", None),
        ("device/waiting//", Some("device/unknown//")),
        ("device/below//", Some("device/waiting//")),
    ] {
        store.register(child(topic, parent), Protocol::MQTT).unwrap();
    }
    store.register(service("device/b/service/s", None), Protocol::MQTT).unwrap();
    let removed = store.deregister(&id("device/a//"));
    assert_eq!(removed[0].as_str(), "device/a//");
    assert_eq!(
        sorted(names(&removed)),
        sorted(
            vec!["device/a//", "device/b//", "device/c//", "device/b/service/s"]
                .into_iter()
                .map(String::from)
                .collect()
        )
    );
    assert_eq!(registered(&store), vec!["device/main//", "device/other//"]);
    assert!(store.is_pending("device/waiting//"));
    // an entity that waits is taken out with those that wait for it
    let removed = store.deregister(&id("device/waiting//"));
    assert_eq!(names(&removed), vec!["device/waiting//", "device/below//"]);
    assert!(!store.is_pending("device/waiting//"));
    assert!(!store.is_pending("device/below//"));
    // what was taken out can come back
    let promoted = store.register(child("device/a//", None), Protocol::HTTP).unwrap();
    assert_eq!(names(&promoted), vec!["device/a//"]);
}

#[test]
fn the_main_device_and_unknown_entities_are_not_deregistered() {
    let mut store = EntityStore::new("dut");
    store.register(child("device/a//", None), Protocol::MQTT).unwrap();
    assert!(store.deregister(&id("device/main//")).is_empty());
    assert!(store.deregister(&id("device/unknown//")).is_empty());
    assert_eq!(registered(&store), vec!["device/main//", "device/a//"]);
}

#[test]
fn entities_are_registered_when_first_heard_of() {
    let mut store = EntityStore::new("dut");
    let made = store.auto_register(&id("device/child1/service/svc1")).unwrap();
    assert_eq!(made.len(), 2);
    assert_eq!(made[0].topic_id.as_str(), "device/child1//");
    assert_eq!(made[0].entity_type, EntityType::ChildDevice);
    assert_eq!(made[1].topic_id.as_str(), "device/child1/service/svc1");
    assert_eq!(made[1].entity_type, EntityType::Service);
    assert_eq!(
        registered(&store),
        vec!["device/main//", "device/child1//", "device/child1/service/svc1"]
    );
    assert_eq!(store.get("device/child1/service/svc1").unwrap().external_id, "dut:device:child1:service:svc1");
    assert!(store.auto_register(&id("device/child1//")).unwrap().is_empty());
    let made = store.auto_register(&id("device/main/service/s")).unwrap();
    assert_eq!(made.len(), 1);
    let made = store.auto_register(&id("device/child2//")).unwrap();
    assert_eq!(made.len(), 1);
    assert_eq!(store.get("device/child2//").unwrap().external_id, "dut:device:child2");
    assert_eq!(
        store.auto_register(&id("factory/line/robot/arm")).unwrap_err(),
        EntityStoreError::NonDefaultTopicScheme
    );
}

fn registration_message(topic: &str, payload: &str) -> MqttMessage {
    MqttMessage::new(&Topic::new(topic).unwrap(), payload.as_bytes().to_vec())
}

#[test]
fn registrations_are_read_from_messages() {
    let schema = MqttSchema::new();
    let message = registration_message(
        "te/device/pump1//",
        r#"{"@type":"child-device","@parent":"device/main//","name":"Pump 1","@id":"pump-1","n":3}"#,
    );
    let registration = EntityRegistrationMessage::new(&schema, &message).unwrap();
    assert_eq!(registration.topic_id.as_str(), "device/pump1//");
    assert_eq!(registration.entity_type, EntityType::ChildDevice);
    assert_eq!(registration.parent.as_ref().unwrap().as_str(), "device/main//");
    assert_eq!(registration.external_id, Some("pump-1".to_string()));
    assert_eq!(registration.other.len(), 2);
    assert!(matches!(&registration.other[0], (key, Json::Number(value)) if key == "n" && value == "3"));
    assert!(matches!(&registration.other[1], (key, Json::Text(value)) if key == "name" && value == "Pump 1"));
    let message = registration_message("te/device/main/service/s", r#"{"@type":"service"}"#);
    let registration = EntityRegistrationMessage::new(&schema, &message).unwrap();
    assert_eq!(registration.entity_type, EntityType::Service);
    assert!(registration.parent.is_none());
    assert!(registration.external_id.is_none());
}

#[test]
fn messages_that_are_no_registrations_are_refused() {
    let schema = MqttSchema::new();
    for (topic, payload) in [
        ("te/device/pump1//", r#"{"@parent":"device/main//"}"#),
        ("te/device/pump1//", r#"{"@type":"pump"}"#),
        ("te/device/pump1//", r#"{"@type":7}"#),
        ("te/device/pump1//", r#"{"@type":"child-device","@parent":"device/main"}"#),
        ("te/device/pump1//", r#"{"@type":"child-device","@parent":3}"#),
        ("te/device/pump1//", r#"{"@type":"child-device","@id":3}"#),
        ("te/device/pump1//", r#"["@type"]"#),
        ("te/device/pump1//", ""),
        ("te/device/pump1///m/temp", r#"{"@type":"child-device"}"#),
        ("other/device/pump1//", r#"{"@type":"child-device"}"#),
    ] {
        assert!(
            EntityRegistrationMessage::new(&schema, &registration_message(topic, payload)).is_none(),
            "{} {}",
            topic,
            payload
        );
    }
}

#[test]
fn registrations_are_written_as_messages() {
    let schema = MqttSchema::new();
    let mut registration = child("device/pump1//", Some("device/main//"));
    registration.external_id = Some("pump-1".to_string());
    registration.other = vec![("name".to_string(), Json::Text("Pump 1".to_string()))];
    let message = registration.to_mqtt_message(&schema).unwrap();
    assert_eq!(message.topic.name(), "te/device/pump1//");
    assert!(message.retain);
    let written: serde_json::Value = serde_json::from_slice(&message.payload).unwrap();
    let expected: serde_json::Value = serde_json::from_str(
        r#"{"@type":"child-device","@parent":"device/main//","@id":"pump-1","name":"Pump 1"}"#,
    )
    .unwrap();
    assert_eq!(written, expected);
    let read = EntityRegistrationMessage::new(&schema, &message).unwrap();
    assert_eq!(read.topic_id.as_str(), "device/pump1//");
    assert_eq!(read.external_id, Some("pump-1".to_string()));
    assert_eq!(read.other.len(), 1);
}

use tedge_gateway::entity_store::log::LogRecord;

#[test]
fn the_store_is_built_again_from_its_log() {
    let schema = MqttSchema::new();
    let lines = [
        ("te/device/a//", r#"{"@type":"child-device"}"#),
        ("te/device/a/service/s", r#"{"@type":"service"}"#),
        ("te/device/b//", "this record is damaged"),
        ("te/device/c//", r#"{"@type":"child-device","@parent":"device/a//","@id":"sea"}"#),
        ("te/device/d//", r#"{"@type":"child-device","@parent":"device/missing//"}"#),
        ("te/device/a/service/s", ""),
        ("te/device/unknown//", ""),
        ("te/device/a///m/t", ""),
    ];
    let records: Vec<Option<LogRecord>> = lines
        .iter()
        .map(|(topic, payload)| LogRecord::from_message(&schema, &registration_message(topic, payload)))
        .collect();
    assert!(matches!(records[0], Some(LogRecord::Registered(_))));
    assert!(records[2].is_none());
    assert!(matches!(&records[5], Some(LogRecord::Deregistered(id)) if id.as_str() == "device/a/service/s"));
    assert!(records[7].is_none());
    let store = EntityStore::replay("dut", &records);
    assert_eq!(registered(&store), vec!["device/main//", "device/a//", "device/c//"]);
    assert!(store.is_pending("device/d//"));
    assert_eq!(store.get("device/c//").unwrap().external_id, "sea");

    // the log is written anew, and read again
    let snapshot = store.snapshot();
    assert_eq!(snapshot.len(), 3);
    let records: Vec<Option<LogRecord>> = snapshot
        .iter()
        .rev()
        .map(|registration| registration.to_mqtt_message(&schema).unwrap())
        .map(|message| LogRecord::from_message(&schema, &message))
        .collect();
    let rebuilt = EntityStore::replay("dut", &records);
    assert_eq!(sorted(registered(&rebuilt)), sorted(registered(&store)));
    assert!(rebuilt.is_pending("device/d//"));
    assert_eq!(rebuilt.get("device/c//").unwrap().external_id, "sea");
    assert_eq!(rebuilt.registered_entities().len(), 3);
    assert_eq!(rebuilt.pending_entities().len(), 1);
}

#[test]
fn over_http_a_missing_parent_is_told_of_a_known_entity_too() {
    let mut store = EntityStore::new("dut");
    // the entity waits for its parent
    let parked = store.register(child("device/abc//", Some("device/ab//")), Protocol::MQTT).unwrap();
    assert!(parked.is_empty());
    assert!(store.is_pending("device/abc//"));
    // the same registration over HTTP fails, and nothing changes
    let refused = store.register(child("device/abc//", Some("device/ab//")), Protocol::HTTP);
    assert_eq!(refused.unwrap_err(), EntityStoreError::ParentMissing);
    assert!(store.is_pending("device/abc//"));
    assert_eq!(registered(&store), vec!["device/main//"]);
    assert_eq!(store.pending_entities().len(), 1);

    // a registered entity that now names a parent that is not registered
    store.register(child("device/a//", None), Protocol::HTTP).unwrap();
    let refused = store.register(child("device/a//", Some("device/nowhere//")), Protocol::HTTP);
    assert_eq!(refused.unwrap_err(), EntityStoreError::ParentMissing);
    // or a service as its parent
    store.register(service("device/a/service/s", Some("device/a//")), Protocol::HTTP).unwrap();
    let refused = store.register(child("device/a//", Some("device/a/service/s")), Protocol::HTTP);
    assert_eq!(refused.unwrap_err(), EntityStoreError::InvalidParent);
    // with a parent that is registered, a known entity is passed over
    let again = store.register(child("device/a//", None), Protocol::HTTP).unwrap();
    assert!(again.is_empty());
    let again = store.register(child("device/abc//", None), Protocol::HTTP).unwrap();
    assert!(again.is_empty());
    assert!(store.is_pending("device/abc//"));
    assert_eq!(sorted(registered(&store)), vec!["device/a//", "device/a/service/s", "device/main//"]);

    // the missing parent is told before a name in the cloud that is taken
    let mut taken = child("device/b//", Some("device/nowhere//"));
    taken.external_id = Some("dut:device:a".to_string());
    assert_eq!(store.register(taken, Protocol::HTTP).unwrap_err(), EntityStoreError::ParentMissing);
    // over MQTT the known entity is passed over, whatever parent it names
    let again = store.register(child("device/a//", Some("device/nowhere//")), Protocol::MQTT).unwrap();
    assert!(again.is_empty());
}

#[test]
fn registrations_that_come_again_change_nothing() {
    let all = [
        ("device/a//", None, EntityType::ChildDevice),
        ("device/b//", Some("device/a//"), EntityType::ChildDevice),
        ("device/a/service/s", None, EntityType::Service),
        ("device/d//", Some("device/missing//"), EntityType::ChildDevice),
    ];
    let runs: [&[usize]; 4] = [
        &[0, 1, 2, 3],
        &[3, 3, 2, 1, 1, 0, 2, 3, 0],
        &[1, 0, 1, 0, 2, 3, 3, 3],
        &[2, 2, 1, 3, 0, 0, 1, 2, 3, 0, 1],
    ];
    let mut outcomes = vec![];
    for run in runs {
        let mut store = EntityStore::new("dut");
        let mut promoted_in_all: Vec<String> = vec![];
        for at in run {
            let (topic, parent, kind) = all[*at];
            let promoted = store.register(registration(topic, kind, parent), Protocol::MQTT).unwrap();
            promoted_in_all.extend(names(&promoted));
        }
        // each entity is registered once, however often its registration came
        assert_eq!(
            sorted(promoted_in_all),
            vec!["device/a//", "device/a/service/s", "device/b//"],
            "{:?}",
            run
        );
        let waiting: Vec<String> =
            store.pending_entities().iter().map(|e| e.topic_id.as_str().to_string()).collect();
        outcomes.push((sorted(registered(&store)), waiting));
    }
    for outcome in &outcomes[1..] {
        assert_eq!(*outcome, outcomes[0]);
    }
    assert_eq!(outcomes[0].1, vec!["device/d//"]);
}

#[test]
fn malformed_registrations_are_told_apart() {
    let schema = MqttSchema::new();
    let malformed = |topic: &str, payload: &str| {
        EntityRegistrationMessage::is_malformed(&schema, &registration_message(topic, payload))
    };
    assert!(malformed("te/device/child1//", "{"));
    assert!(malformed("te/device/child1//", r#"{"@type":"gadget"}"#));
    assert!(malformed("te/device/child1//", r#"{"@parent":"device/main//"}"#));
    assert!(malformed("te/device/child1//", r#"{"@type":"child-device","@id":7}"#));
    assert!(malformed("te/device/child1//", "[]"));
    // a registration, a message that clears one, and messages on other topics
    assert!(!malformed("te/device/child1//", r#"{"@type":"child-device"}"#));
    assert!(!malformed("te/device/child1//", ""));
    assert!(!malformed("te/device/child1///m/temperature", "{"));
    assert!(!malformed("other/device/child1//", "{"));
}

#[test]
fn an_alarm_tells_that_the_log_was_given_up() {
    let alarm = tedge_gateway::entity_store::log::log_given_up_alarm(&MqttSchema::new()).unwrap();
    assert_eq!(alarm.topic.name(), "te/device/main///a/entity_store_log");
    assert!(!alarm.retain);
    let payload: serde_json::Value = serde_json::from_slice(&alarm.payload).unwrap();
    assert_eq!(payload["severity"], "major");
    assert_eq!(
        payload["text"],
        "The log of the entity store cannot be written: the store goes on in memory alone"
    );
    let elsewhere =
        tedge_gateway::entity_store::log::log_given_up_alarm(&MqttSchema::with_root("a/+".to_string()));
    assert!(elsewhere.is_none());
}
