use tedge_gateway::mqtt::topic::QoS;
use tedge_gateway::smartrest::error::SmartRestSerializerError;
use tedge_gateway::smartrest::inventory::{
    child_device_creation_message, service_creation_message, service_creation_message_payload,
    set_c8y_config_fragment, set_c8y_profile_target_payload, C8ySmartRestSetInterval117,
};
use tedge_gateway::smartrest::payload::{
    decode_line, encode_line, SmartrestPayload, MAX_PAYLOAD_LIMIT_IN_BYTES,
};
use tedge_gateway::smartrest::topic::{publish_topic_from_parent, C8yTopic, TopicPrefix};

fn strings(items: &[&str]) -> Vec<String> {
    items.iter().map(|s| s.to_string()).collect()
}

fn c8y() -> TopicPrefix {
    TopicPrefix::new("c8y").unwrap()
}

#[test]
fn line_with_quotes_is_escaped() {
    let fields = strings(&["304", "temperature_alarm", "External \"sensor\" raised alarm", "t"]);
    assert_eq!(
        encode_line(&fields),
        "304,temperature_alarm,\"External \"\"sensor\"\" raised alarm\",t"
    );
}

#[test]
fn plain_fields_are_joined_by_commas() {
    assert_eq!(encode_line(&strings(&["101", "child", "name", "type"])), "101,child,name,type");
    assert_eq!(encode_line(&strings(&["303", "a", "", "t"])), "303,a,,t");
    assert_eq!(encode_line(&strings(&[""])), "");
    assert_eq!(encode_line(&Vec::new()), "");
}

#[test]
fn fields_with_commas_or_line_breaks_are_quoted() {
    assert_eq!(encode_line(&strings(&["I, raised, it"])), "\"I, raised, it\"");
    assert_eq!(encode_line(&strings(&["a\nb", "c"])), "\"a\nb\",c");
    assert_eq!(encode_line(&strings(&["a\rb"])), "\"a\rb\"");
    assert_eq!(encode_line(&strings(&["\""])), "\"\"\"\"");
}

#[test]
fn line_round_trip() {
    let fields = strings(&["a,b", "", "c\"d", "e\nf", "plain", "\"\"", ","]);
    let line = encode_line(&fields);
    assert_eq!(decode_line(&line), Some(fields));
}

#[test]
fn every_visible_ascii_text_round_trips() {
    let all: String = (0x20u8..0x7f).map(|b| b as char).collect();
    let line = encode_line(&vec![all.clone()]);
    assert_eq!(decode_line(&line), Some(vec![all]));
    for b in 0x20u8..0x7f {
        let text = format!("x{}y", b as char);
        assert_eq!(decode_line(&encode_line(&vec![text.clone()])), Some(vec![text]));
    }
}

#[test]
fn lines_are_read_into_fields() {
    assert_eq!(decode_line("a,b,c"), Some(strings(&["a", "b", "c"])));
    assert_eq!(decode_line(""), Some(strings(&[""])));
    assert_eq!(decode_line("a,"), Some(strings(&["a", ""])));
    assert_eq!(decode_line("\"a,b\",c"), Some(strings(&["a,b", "c"])));
    assert_eq!(decode_line("\"a\"\"b\""), Some(strings(&["a\"b"])));
}

#[test]
fn malformed_lines_are_refused() {
    assert_eq!(decode_line("a\"b"), None);
    assert_eq!(decode_line("\"abc"), None);
    assert_eq!(decode_line("\"abc\"d"), None);
    assert_eq!(decode_line("a\nb"), None);
}

#[test]
fn payload_of_exactly_16_kib_serializes() {
    assert_eq!(MAX_PAYLOAD_LIMIT_IN_BYTES, 16 * 1024);
    let fields = vec!["x".repeat(16384)];
    let payload = SmartrestPayload::serialize(&fields).unwrap();
    assert_eq!(payload.as_str().len(), 16384);
}

#[test]
fn payload_of_16_kib_and_one_byte_is_rejected() {
    let fields = vec!["x".repeat(16385)];
    match SmartrestPayload::serialize(&fields) {
        Err(SmartRestSerializerError::PayloadTooLarge { actual_size, limit }) => {
            assert_eq!(actual_size, 16385);
            assert_eq!(limit, 16384);
        }
        other => panic!("unexpected: {:?}", other.map(|p| p.into_inner())),
    }
}

#[test]
fn payload_size_counts_bytes_and_quotes() {
    // 16383 characters and a comma make 16386 bytes once quoted
    let fields = vec![format!("{},", "x".repeat(16382))];
    assert!(SmartrestPayload::serialize(&fields).is_err());
    // 8192 characters of two bytes each
    let fields = vec!["é".repeat(8192)];
    assert!(SmartrestPayload::serialize(&fields).is_ok());
    let fields = vec![format!("{}x", "é".repeat(8192))];
    assert!(SmartrestPayload::serialize(&fields).is_err());
}

#[test]
fn child_device_creation() {
    let message = child_device_creation_message(
        "dut:device:pump1",
        Some("pump1"),
        None,
        None,
        "dut",
        &c8y(),
        false,
    )
    .unwrap();
    assert_eq!(message.topic.name(), "c8y/s/us");
    assert_eq!(message.payload, b"101,dut:device:pump1,pump1,thin-edge.io-child".to_vec());
    assert_eq!(message.qos, QoS::AtLeastOnce);
    assert!(!message.retain);
}

#[test]
fn child_device_creation_with_defaults_and_marker() {
    let message =
        child_device_creation_message("child1", None, Some("raspberry"), Some("dut"), "dut", &c8y(), true)
            .unwrap();
    assert_eq!(message.topic.name(), "c8y/s/us");
    assert_eq!(message.payload, b"101,child1,child1,raspberry,true".to_vec());
}

#[test]
fn child_device_creation_under_a_child() {
    let message =
        child_device_creation_message("grandchild", None, None, Some("child1"), "dut", &c8y(), false)
            .unwrap();
    assert_eq!(message.topic.name(), "c8y/s/us/child1");
}

fn invalid_value(error: SmartRestSerializerError) -> (String, String) {
    match error {
        SmartRestSerializerError::InvalidValue(e) => (e.field_name, e.value),
        other => panic!("unexpected: {:?}", other),
    }
}

#[test]
fn child_device_creation_refuses_empty_values() {
    let error = child_device_creation_message("", None, None, None, "dut", &c8y(), false).unwrap_err();
    assert_eq!(invalid_value(error), ("child_id".to_string(), "".to_string()));
    let error =
        child_device_creation_message("c", Some(""), None, None, "dut", &c8y(), false).unwrap_err();
    assert_eq!(invalid_value(error), ("device_name".to_string(), "".to_string()));
    let error =
        child_device_creation_message("c", None, Some(""), None, "dut", &c8y(), false).unwrap_err();
    assert_eq!(invalid_value(error), ("device_type".to_string(), "".to_string()));
}

#[test]
fn child_device_creation_refuses_what_does_not_fit_or_has_no_topic() {
    let long = "x".repeat(20000);
    let error = child_device_creation_message(&long, None, None, None, "dut", &c8y(), false).unwrap_err();
    assert!(matches!(error, SmartRestSerializerError::PayloadTooLarge { .. }));
    let error =
        child_device_creation_message("c", None, None, Some("a+b"), "dut", &c8y(), false).unwrap_err();
    match error {
        SmartRestSerializerError::InvalidTopic { name } => assert_eq!(name, "c8y/s/us/a+b"),
        other => panic!("unexpected: {:?}", other),
    }
}

#[test]
fn invalid_value_message() {
    let error = child_device_creation_message("", None, None, None, "dut", &c8y(), false).unwrap_err();
    match error {
        SmartRestSerializerError::InvalidValue(e) => {
            assert_eq!(e.message(), "Field `child_id` contains invalid value: ")
        }
        other => panic!("unexpected: {:?}", other),
    }
}

#[test]
fn service_creation() {
    let payload = service_creation_message_payload("svc1", "Service 1", "systemd", "up").unwrap();
    assert_eq!(payload.as_str(), "102,svc1,systemd,Service 1,up");
    let message =
        service_creation_message("svc1", "Service 1", "systemd", "up", Some("child1"), "dut", &c8y())
            .unwrap();
    assert_eq!(message.topic.name(), "c8y/s/us/child1");
    assert_eq!(message.payload, b"102,svc1,systemd,Service 1,up".to_vec());
}

#[test]
fn service_creation_refuses_empty_values() {
    let cases = [
        (("", "n", "t", "s"), "service_id"),
        (("i", "", "t", "s"), "service_name"),
        (("i", "n", "", "s"), "service_type"),
        (("i", "n", "t", ""), "service_status"),
    ];
    for ((id, name, kind, status), field) in cases {
        let error = service_creation_message_payload(id, name, kind, status).unwrap_err();
        assert_eq!(invalid_value(error), (field.to_string(), "".to_string()));
    }
}

#[test]
fn config_fragment() {
    let payload = set_c8y_config_fragment("typeA", "http://url", Some("name")).unwrap();
    assert_eq!(payload.into_inner(), "120,typeA,http://url,name");
    let payload = set_c8y_config_fragment("typeA", "http://url", None).unwrap();
    assert_eq!(payload.into_inner(), "120,typeA,http://url,");
    assert!(set_c8y_config_fragment(&"x".repeat(17000), "", None).is_err());
}

#[test]
fn profile_target_payload() {
    assert_eq!(set_c8y_profile_target_payload(true).into_inner(), "121,true");
    assert_eq!(set_c8y_profile_target_payload(false).into_inner(), "121,false");
}

#[test]
fn required_availability_is_given_in_minutes() {
    let message = C8ySmartRestSetInterval117 {
        c8y_topic: C8yTopic::SmartRestResponse,
        interval_secs: 3600,
        prefix: c8y(),
    }
    .into_message()
    .unwrap();
    assert_eq!(message.topic.name(), "c8y/s/us");
    assert_eq!(message.payload, b"117,60".to_vec());
    let message = C8ySmartRestSetInterval117 {
        c8y_topic: C8yTopic::ChildSmartRestResponse("child".into()),
        interval_secs: 59,
        prefix: c8y(),
    }
    .into_message()
    .unwrap();
    assert_eq!(message.topic.name(), "c8y/s/us/child");
    assert_eq!(message.payload, b"117,0".to_vec());
    let message = C8ySmartRestSetInterval117 {
        c8y_topic: C8yTopic::SmartRestResponse,
        interval_secs: u64::MAX,
        prefix: c8y(),
    }
    .into_message()
    .unwrap();
    assert_eq!(message.payload, b"117,307445734561825860".to_vec());
    assert!(C8ySmartRestSetInterval117 {
        c8y_topic: C8yTopic::ChildSmartRestResponse("#".into()),
        interval_secs: 1,
        prefix: c8y(),
    }
    .into_message()
    .is_err());
}

#[test]
fn cloud_topics() {
    let prefix = TopicPrefix::new("custom").unwrap();
    assert_eq!(C8yTopic::SmartRestRequest.to_string(&prefix), "custom/s/ds");
    assert_eq!(C8yTopic::SmartRestResponse.to_string(&prefix), "custom/s/us");
    assert_eq!(C8yTopic::ChildSmartRestResponse("c".into()).to_string(&prefix), "custom/s/us/c");
    assert_eq!(C8yTopic::upstream_topic(&prefix).name(), "custom/s/us");
    assert_eq!(C8yTopic::downstream_topic(&prefix).name(), "custom/s/ds");
    assert!(TopicPrefix::new("").is_none());
    assert!(TopicPrefix::new("a+b").is_none());
    assert!(TopicPrefix::new("a#").is_none());
}

#[test]
fn publish_topic_depends_on_the_parent() {
    assert_eq!(publish_topic_from_parent(None, "main", &c8y()).unwrap().name(), "c8y/s/us");
    assert_eq!(publish_topic_from_parent(Some("main"), "main", &c8y()).unwrap().name(), "c8y/s/us");
    assert_eq!(
        publish_topic_from_parent(Some("child"), "main", &c8y()).unwrap().name(),
        "c8y/s/us/child"
    );
    assert!(publish_topic_from_parent(Some("chi+ld"), "main", &c8y()).is_err());
}
