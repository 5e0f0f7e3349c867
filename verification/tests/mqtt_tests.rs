use tedge_gateway::mqtt::error::{ConnectReturnCode, MqttError, SubscribeReasonCode};
use tedge_gateway::mqtt::message::MqttMessage;
use tedge_gateway::mqtt::topic::{valid_filter, valid_topic, QoS, Topic, TopicFilter};
use tedge_gateway::mqtt_topics::{
    Channel, EntityTopicError, EntityTopicId, MqttSchema, OperationType, TopicIdError,
};

#[test]
fn topics_hold_no_wildcard() {
    assert!(valid_topic("te/device/main//"));
    assert!(valid_topic(""));
    assert!(!valid_topic("te/+/main"));
    assert!(!valid_topic("te/#"));
    assert_eq!(Topic::new("a/b").unwrap().name(), "a/b");
    match Topic::new("a/+") {
        Err(MqttError::InvalidTopic { name }) => assert_eq!(name, "a/+"),
        _ => panic!("an error was expected"),
    }
}

#[test]
fn filters_are_well_formed() {
    for pattern in ["a/b", "a/+/c", "a/#", "#", "+", "+/+", "a//b", "/"] {
        assert!(valid_filter(pattern), "{}", pattern);
    }
    for pattern in ["", "a/#/b", "a/b#", "a/+b", "a+/b", "a/##", "#/a", "sport/++"] {
        assert!(!valid_filter(pattern), "{}", pattern);
    }
    assert!(TopicFilter::new("a/#").is_ok());
    match TopicFilter::new("a/#/b") {
        Err(MqttError::InvalidFilter { pattern }) => assert_eq!(pattern, "a/#/b"),
        _ => panic!("an error was expected"),
    }
}

#[test]
fn topics_meet_filters() {
    let cases = [
        ("a/b/c", "a/b/c", true),
        ("a/b/c", "a/+/c", true),
        ("a/b/c", "a/#", true),
        ("a", "a/#", true),
        ("a/b/c", "#", true),
        ("a/b/c", "a/b", false),
        ("a/b", "a/b/c", false),
        ("a/b/c", "a/+", false),
        ("a//c", "a/+/c", true),
        ("a/b/c", "+/+/+", true),
        ("$SYS/x", "#", false),
        ("$SYS/x", "$SYS/x", false),
        ("", "", true),
        ("", "#", true),
        ("a/b", "a/c", false),
        ("tedge/child1/commands/res/firmware_update", "tedge/+/commands/res/firmware_update", true),
        ("éa/b", "+/b", true),
    ];
    for (topic, filter, expected) in cases {
        assert_eq!(tedge_gateway::mqtt::topic::matches(topic, filter), expected, "{} against {}", topic, filter);
    }
}

#[test]
fn a_filter_accepts_what_meets_one_of_its_patterns() {
    let mut filter = TopicFilter::new_unchecked("a/+");
    filter.add("b/#").unwrap();
    assert!(filter.add("c/#/d").is_err());
    filter.add_all(TopicFilter::new_unchecked("c"));
    assert_eq!(filter.patterns, vec!["a/+", "b/#", "c"]);
    assert!(filter.accept_topic(&Topic::new("a/x").unwrap()));
    assert!(filter.accept_topic(&Topic::new("b/x/y").unwrap()));
    assert!(filter.accept_topic(&Topic::new("c").unwrap()));
    assert!(!filter.accept_topic(&Topic::new("d").unwrap()));
    assert!(!TopicFilter::empty().accept_topic(&Topic::new("a").unwrap()));
    assert_eq!(filter.with_qos(QoS::ExactlyOnce).qos, QoS::ExactlyOnce);
    let topic = Topic::new("x/y").unwrap();
    assert!(topic.filter().accept_topic(&topic));
}

#[test]
fn messages_are_built() {
    let topic = Topic::new("a/b").unwrap();
    let message = MqttMessage::new(&topic, b"hello".to_vec());
    assert_eq!(message.topic.name(), "a/b");
    assert_eq!(message.qos, QoS::AtLeastOnce);
    assert!(!message.retain);
    assert_eq!(message.payload_bytes(), b"hello");
    assert_eq!(message.payload_str().unwrap(), "hello");
    let message = message.with_retain().with_qos(QoS::AtMostOnce);
    assert!(message.retain);
    assert_eq!(message.qos, QoS::AtMostOnce);
    let copy = message.clone();
    assert_eq!(copy.payload, message.payload);
    assert_eq!(MqttMessage::from_text(&topic, "héllo").payload, "héllo".as_bytes().to_vec());
    assert!(message.accepted_by(&TopicFilter::new_unchecked("a/+")));
}

#[test]
fn a_payload_that_is_no_text_gives_an_excerpt() {
    let topic = Topic::new("a/b").unwrap();
    let mut payload = b"temperature: 12\n degrees ".to_vec();
    payload.push(0xff);
    payload.extend_from_slice(b"more");
    let message = MqttMessage::new(&topic, payload);
    match message.payload_str() {
        Err(MqttError::InvalidUtf8Payload { input_excerpt, valid_up_to }) => {
            assert_eq!(input_excerpt, "temperature:12degrees");
            assert_eq!(valid_up_to, 25);
        }
        _ => panic!("an error was expected"),
    }
}

#[test]
fn excerpts_are_cut_after_80_characters() {
    let input = "a b\tc\n".repeat(100);
    let prefix = MqttError::input_prefix(&input, 80);
    assert_eq!(prefix.len(), 80);
    assert_eq!(&prefix[..6], "abcabc");
    assert_eq!(MqttError::input_prefix("a\u{2003}b\u{a0}c", 80), "abc");
    assert_eq!(MqttError::input_prefix("abc", 0), "");
    assert_eq!(MqttError::input_prefix("abc", 2), "ab");
}

#[test]
fn connection_errors() {
    assert!(MqttError::maybe_connection_error(ConnectReturnCode::Success).is_none());
    match MqttError::maybe_connection_error(ConnectReturnCode::NotAuthorized) {
        Some(MqttError::ConnectionRejected(code)) => assert_eq!(code, ConnectReturnCode::NotAuthorized),
        _ => panic!("an error was expected"),
    }
}

#[test]
fn subscription_errors() {
    let granted = vec![SubscribeReasonCode::Success(1), SubscribeReasonCode::Success(0)];
    assert!(MqttError::maybe_subscription_error(&granted).is_none());
    assert!(MqttError::maybe_subscription_error(&vec![]).is_none());
    let failed = vec![SubscribeReasonCode::Success(1), SubscribeReasonCode::Failure];
    assert!(matches!(
        MqttError::maybe_subscription_error(&failed),
        Some(MqttError::SubscriptionFailure)
    ));
}

#[test]
fn entity_topic_ids_have_four_segments() {
    assert_eq!(EntityTopicId::from_str("device/main//").unwrap().as_str(), "device/main//");
    assert_eq!(EntityTopicId::from_str("a/b/c/d").unwrap().as_str(), "a/b/c/d");
    assert_eq!(EntityTopicId::from_str("///").unwrap().as_str(), "///");
    assert_eq!(EntityTopicId::from_str("device/main").unwrap_err(), TopicIdError::TooShort);
    assert_eq!(EntityTopicId::from_str("").unwrap_err(), TopicIdError::TooShort);
    assert_eq!(EntityTopicId::from_str("a/b/c/d/e").unwrap_err(), TopicIdError::TooLong);
    assert_eq!(EntityTopicId::from_str("a/+/c/d").unwrap_err(), TopicIdError::InvalidMqttTopic);
    assert_eq!(EntityTopicId::from_str("a/b/c/#").unwrap_err(), TopicIdError::InvalidMqttTopic);
}

#[test]
fn entity_topic_ids_of_the_usual_scheme() {
    let main = EntityTopicId::default_main_device();
    assert_eq!(main.as_str(), "device/main//");
    assert!(main.is_default_main_device());
    assert_eq!(main.default_device_name(), Some("main".to_string()));
    assert_eq!(main.default_service_name(), None);
    assert!(main.default_parent_identifier().is_none());

    let child = EntityTopicId::default_child_device("child1").unwrap();
    assert_eq!(child.as_str(), "device/child1//");
    assert!(!child.is_default_main_device());
    assert_eq!(child.default_device_name(), Some("child1".to_string()));
    assert_eq!(child.default_parent_identifier().unwrap().as_str(), "device/main//");

    let service = EntityTopicId::default_child_service("child1", "svc").unwrap();
    assert_eq!(service.as_str(), "device/child1/service/svc");
    assert_eq!(service.default_device_name(), Some("child1".to_string()));
    assert_eq!(service.default_service_name(), Some("svc".to_string()));
    assert_eq!(service.default_parent_identifier().unwrap().as_str(), "device/child1//");
    assert_eq!(
        EntityTopicId::default_main_service("svc").unwrap().as_str(),
        "device/main/service/svc"
    );
    assert_eq!(
        EntityTopicId::default_child_device("a/b").unwrap_err(),
        TopicIdError::TooLong
    );
    assert_eq!(
        EntityTopicId::default_child_device("a+b").unwrap_err(),
        TopicIdError::InvalidMqttTopic
    );

    let custom = EntityTopicId::from_str("factory/line1/robot/arm").unwrap();
    assert_eq!(custom.default_device_name(), None);
    assert_eq!(custom.default_service_name(), None);
    assert!(custom.default_parent_identifier().is_none());
    assert_eq!(custom.to_segments(), vec!["factory", "line1", "robot", "arm"]);
}

#[test]
fn operations_have_names() {
    for name in [
        "health",
        "log_upload",
        "config_snapshot",
        "config_update",
        "firmware_update",
        "software_list",
        "software_update",
        "restart",
        "device_profile",
        "my_operation",
    ] {
        assert_eq!(OperationType::from_name(name).name(), name);
    }
    assert!(matches!(OperationType::from_name("restart"), OperationType::Restart));
    assert!(matches!(OperationType::from_name("other"), OperationType::Custom(_)));
}

fn channel_text(schema: &MqttSchema, entity: &EntityTopicId, channel: Channel) -> String {
    schema.topic_name(entity, &channel)
}

#[test]
fn topics_are_made_of_root_entity_and_channel() {
    let schema = MqttSchema::new();
    let main = EntityTopicId::default_main_device();
    assert_eq!(channel_text(&schema, &main, Channel::EntityMetadata), "te/device/main//");
    assert_eq!(
        channel_text(&schema, &main, Channel::Measurement { measurement_type: "temp".into() }),
        "te/device/main///m/temp"
    );
    assert_eq!(
        channel_text(&schema, &main, Channel::Event { event_type: "login".into() }),
        "te/device/main///e/login"
    );
    assert_eq!(
        channel_text(&schema, &main, Channel::Alarm { alarm_type: "temperature_alarm".into() }),
        "te/device/main///a/temperature_alarm"
    );
    assert_eq!(
        channel_text(&schema, &main, Channel::CommandMetadata { operation: OperationType::Restart }),
        "te/device/main///cmd/restart"
    );
    assert_eq!(
        channel_text(
            &schema,
            &main,
            Channel::Command { operation: OperationType::Restart, cmd_id: "c1".into() }
        ),
        "te/device/main///cmd/restart/c1"
    );
    let schema = MqttSchema::with_root("custom".to_string());
    let child = EntityTopicId::default_child_device("c").unwrap();
    assert_eq!(
        schema.capability_topic_for(&child, OperationType::Custom("x".into())).unwrap().name(),
        "custom/device/c///cmd/x"
    );
    assert!(schema
        .topic_for(&child, &Channel::Measurement { measurement_type: "+".into() })
        .is_err());
}

#[test]
fn topics_are_read_back() {
    let schema = MqttSchema::new();
    let (entity, channel) = schema.entity_channel_of("te/device/main///cmd/restart/c1").unwrap();
    assert_eq!(entity.as_str(), "device/main//");
    match channel {
        Channel::Command { operation, cmd_id } => {
            assert!(matches!(operation, OperationType::Restart));
            assert_eq!(cmd_id, "c1");
        }
        _ => panic!("a command was expected"),
    }
    let (entity, channel) = schema.entity_channel_of("te/device/pump1//").unwrap();
    assert_eq!(entity.as_str(), "device/pump1//");
    assert!(matches!(channel, Channel::EntityMetadata));
    let (entity, channel) = schema.entity_channel_of("te/device/c/service/s/a/too_hot").unwrap();
    assert_eq!(entity.as_str(), "device/c/service/s");
    assert!(matches!(channel, Channel::Alarm { alarm_type } if alarm_type == "too_hot"));
    let (_, channel) = schema.entity_channel_of("te/device/c///m/").unwrap();
    assert!(matches!(channel, Channel::Measurement { measurement_type } if measurement_type.is_empty()));
    let (_, channel) = schema.entity_channel_of("te/device/c///e/x").unwrap();
    assert!(matches!(channel, Channel::Event { .. }));
    let (_, channel) = schema.entity_channel_of("te/device/c///cmd/my_op").unwrap();
    assert!(matches!(channel, Channel::CommandMetadata { operation: OperationType::Custom(_) }));
}

#[test]
fn topics_of_another_shape_are_refused() {
    let schema = MqttSchema::new();
    let cases = [
        ("tedge/device/main//", EntityTopicError::NotUnderRoot),
        ("te", EntityTopicError::NotUnderRoot),
        ("te/device/main", EntityTopicError::TopicId(TopicIdError::TooShort)),
        ("te/device/+//", EntityTopicError::TopicId(TopicIdError::InvalidMqttTopic)),
        ("te/device/main///x/y", EntityTopicError::InvalidChannel),
        ("te/device/main///m", EntityTopicError::InvalidChannel),
        ("te/device/main///cmd/a/b/c", EntityTopicError::InvalidChannel),
        ("te/device/main///m/a/b", EntityTopicError::InvalidChannel),
    ];
    for (topic, expected) in cases {
        assert_eq!(schema.entity_channel_of(topic).unwrap_err(), expected, "{}", topic);
    }
}

use tedge_gateway::mqtt_topics::{ChannelFilter, EntityFilter};

#[test]
fn subscriptions_get_what_they_are_for() {
    let schema = MqttSchema::new();
    let main = EntityTopicId::default_main_device();
    let child = EntityTopicId::default_child_device("c").unwrap();
    let pattern = |entity: EntityFilter, channel: ChannelFilter| {
        schema.topics(&entity, &channel).patterns[0].clone()
    };
    assert_eq!(pattern(EntityFilter::AnyEntity, ChannelFilter::EntityMetadata), "te/+/+/+/+");
    assert_eq!(pattern(EntityFilter::AnyEntity, ChannelFilter::Measurement), "te/+/+/+/+/m/+");
    assert_eq!(pattern(EntityFilter::AnyEntity, ChannelFilter::Event), "te/+/+/+/+/e/+");
    assert_eq!(pattern(EntityFilter::AnyEntity, ChannelFilter::Alarm), "te/+/+/+/+/a/+");
    assert_eq!(pattern(EntityFilter::AnyEntity, ChannelFilter::AnyCommandMetadata), "te/+/+/+/+/cmd/+");
    assert_eq!(pattern(EntityFilter::AnyEntity, ChannelFilter::AnyCommand), "te/+/+/+/+/cmd/+/+");
    assert_eq!(
        pattern(EntityFilter::Entity(main.clone()), ChannelFilter::Command(OperationType::Restart)),
        "te/device/main///cmd/restart/+"
    );
    assert_eq!(
        pattern(EntityFilter::Entity(child.clone()), ChannelFilter::CommandMetadata(OperationType::LogUpload)),
        "te/device/c///cmd/log_upload"
    );
    let commands = schema.topics(&EntityFilter::AnyEntity, &ChannelFilter::AnyCommand);
    for entity in [&main, &child] {
        let topic = schema
            .topic_for(entity, &Channel::Command { operation: OperationType::Restart, cmd_id: "c1".into() })
            .unwrap();
        assert!(commands.accept_topic(&topic));
        let topic = schema
            .topic_for(entity, &Channel::CommandMetadata { operation: OperationType::Restart })
            .unwrap();
        assert!(!commands.accept_topic(&topic));
    }
    let alarms = schema.topics(&EntityFilter::Entity(child.clone()), &ChannelFilter::Alarm);
    assert!(alarms.accept_topic(&schema.topic_for(&child, &Channel::Alarm { alarm_type: "x".into() }).unwrap()));
    assert!(!alarms.accept_topic(&schema.topic_for(&main, &Channel::Alarm { alarm_type: "x".into() }).unwrap()));
}
