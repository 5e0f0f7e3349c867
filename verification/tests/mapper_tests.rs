use tedge_gateway::entity_store::model::{EntityMetadata, EntityType};
use tedge_gateway::json::Json;
use tedge_gateway::mapper::{entity_creation_message, EntityMapper};
use tedge_gateway::mqtt::message::MqttMessage;
use tedge_gateway::mqtt::topic::Topic;
use tedge_gateway::mqtt_topics::{EntityTopicId, MqttSchema};
use tedge_gateway::smartrest::topic::TopicPrefix;

fn mapper() -> EntityMapper {
    EntityMapper::new("dut", MqttSchema::new(), TopicPrefix::new("c8y").unwrap())
}

fn publish(mapper: &mut EntityMapper, topic: &str, payload: &str) -> Vec<(String, String)> {
    let message = MqttMessage::new(&Topic::new(topic).unwrap(), payload.as_bytes().to_vec());
    mapper
        .handle_registration(&message)
        .into_iter()
        .map(|r| r.unwrap())
        .map(|m| (m.topic.name().to_string(), String::from_utf8(m.payload).unwrap()))
        .collect()
}

#[test]
fn child_device_creation_over_mqtt() {
    let mut mapper = mapper();
    let output = publish(
        &mut mapper,
        "te/device/pump1//",
        r#"{"@type":"child-device","@parent":"device/main//"}"#,
    );
    assert_eq!(
        output,
        vec![("c8y/s/us".to_string(), "101,dut:device:pump1,pump1,thin-edge.io-child".to_string())]
    );
}

#[test]
fn lax_out_of_order_registration() {
    let mut mapper = mapper();
    let output = publish(&mut mapper, "te/device/child1/service/svc1", r#"{"@type":"service"}"#);
    assert!(output.is_empty());
    let output = publish(&mut mapper, "te/device/child1//", r#"{"@type":"child-device"}"#);
    assert_eq!(
        output,
        vec![
            (
                "c8y/s/us".to_string(),
                "101,dut:device:child1,child1,thin-edge.io-child".to_string()
            ),
            (
                "c8y/s/us/dut:device:child1".to_string(),
                "102,dut:device:child1:service:svc1,service,svc1,up".to_string()
            ),
        ]
    );
    assert!(mapper.store.get("device/child1//").is_some());
    assert!(mapper.store.get("device/child1/service/svc1").is_some());
    assert!(!mapper.store.is_pending("device/child1/service/svc1"));
}

#[test]
fn names_and_types_are_taken_from_the_registration() {
    let mut mapper = mapper();
    let output = publish(
        &mut mapper,
        "te/device/pump1//",
        r#"{"@type":"child-device","name":"Pump, the first","type":"pump","@id":"pump-one"}"#,
    );
    assert_eq!(output, vec![("c8y/s/us".to_string(), "101,pump-one,\"Pump, the first\",pump".to_string())]);
    let output = publish(
        &mut mapper,
        "te/device/pump1/service/collectd",
        r#"{"@type":"service","name":"Collectd","type":"systemd"}"#,
    );
    assert_eq!(
        output,
        vec![("c8y/s/us/pump-one".to_string(), "102,dut:device:pump1:service:collectd,systemd,Collectd,up".to_string())]
    );
}

#[test]
fn what_is_no_registration_changes_nothing() {
    let mut mapper = mapper();
    assert!(publish(&mut mapper, "te/device/pump1//", "not json").is_empty());
    assert!(publish(&mut mapper, "te/device/pump1///m/t", r#"{"@type":"child-device"}"#).is_empty());
    assert!(mapper.store.get("device/pump1//").is_none());
    assert!(!mapper.store.is_pending("device/pump1//"));
    // a known entity is not created again
    assert_eq!(publish(&mut mapper, "te/device/pump1//", r#"{"@type":"child-device"}"#).len(), 1);
    assert!(publish(&mut mapper, "te/device/pump1//", r#"{"@type":"child-device"}"#).is_empty());
}

#[test]
fn creation_messages_of_single_entities() {
    let prefix = TopicPrefix::new("c8y").unwrap();
    let entity = EntityMetadata {
        topic_id: EntityTopicId::from_str("factory/line/robot/arm").unwrap(),
        external_id: "arm".to_string(),
        entity_type: EntityType::Service,
        parent: Some(EntityTopicId::default_main_device()),
        other: vec![("name".to_string(), Json::Number("3".to_string()))],
    };
    let message = entity_creation_message(&entity, "dut", "dut", &prefix).unwrap();
    assert_eq!(message.topic.name(), "c8y/s/us");
    assert_eq!(message.payload, b"102,arm,service,arm,up".to_vec());
    let main = EntityMetadata::main_device("dut".to_string());
    assert!(entity_creation_message(&main, "dut", "dut", &prefix).is_err());
}

fn heard(mapper: &EntityMapper, topic: &str) -> Vec<(String, String, bool)> {
    let message = MqttMessage::new(&Topic::new(topic).unwrap(), b"{}".to_vec());
    mapper
        .handle_telemetry(&message)
        .into_iter()
        .map(|m| (m.topic.name().to_string(), String::from_utf8(m.payload).unwrap(), m.retain))
        .collect()
}

#[test]
fn entities_are_announced_when_first_heard_of() {
    let mut mapper = mapper();
    // a measurement of the service of an unknown device: both are made up, the device first
    let announced = heard(&mapper, "te/device/child1/service/svc1/m/temperature");
    assert_eq!(
        announced,
        vec![
            ("te/device/child1//".to_string(), r#"{"@type":"child-device"}"#.to_string(), true),
            ("te/device/child1/service/svc1".to_string(), r#"{"@type":"service"}"#.to_string(), true),
        ]
    );
    // nothing is registered before the announcements have come back
    assert!(mapper.store.get("device/child1//").is_none());
    let mut created = vec![];
    for (topic, payload, _) in announced {
        created.extend(publish(&mut mapper, &topic, &payload));
    }
    assert_eq!(
        created,
        vec![
            (
                "c8y/s/us".to_string(),
                "101,dut:device:child1,child1,thin-edge.io-child".to_string()
            ),
            (
                "c8y/s/us/dut:device:child1".to_string(),
                "102,dut:device:child1:service:svc1,service,svc1,up".to_string()
            ),
        ]
    );
    // known entities are not announced again
    assert!(heard(&mapper, "te/device/child1/service/svc1/m/temperature").is_empty());
    assert!(heard(&mapper, "te/device/child1///e/login").is_empty());
    assert!(heard(&mapper, "te/device/main///a/temperature_alarm").is_empty());
    // the service of a known device comes alone
    assert_eq!(
        heard(&mapper, "te/device/child1/service/other/a/high"),
        vec![("te/device/child1/service/other".to_string(), r#"{"@type":"service"}"#.to_string(), true)]
    );
    assert_eq!(
        heard(&mapper, "te/device/child2///e/login"),
        vec![("te/device/child2//".to_string(), r#"{"@type":"child-device"}"#.to_string(), true)]
    );
}

#[test]
fn only_telemetry_of_entities_named_by_the_usual_scheme_makes_up_registrations() {
    let mapper = mapper();
    assert!(heard(&mapper, "te/factory/line1/robot/arm/m/speed").is_empty());
    assert!(heard(&mapper, "te/device/child1//").is_empty());
    assert!(heard(&mapper, "te/device/child1///cmd/restart/c1").is_empty());
    assert!(heard(&mapper, "te/device/child1///cmd/restart").is_empty());
    assert!(heard(&mapper, "other/device/child1///m/t").is_empty());
    assert!(heard(&mapper, "te/device/child1").is_empty());
}
