use tedge_gateway::compatibility_adapter::{
    convert_from_old_agent_response, convert_to_old_agent_request, old_and_new_command_topics,
    try_convert, OldAgentAdapter,
};
use tedge_gateway::mqtt::message::MqttMessage;
use tedge_gateway::mqtt::topic::{QoS, Topic};
use tedge_gateway::smartrest::topic::TopicPrefix;

fn message(topic: &str, payload: &str) -> MqttMessage {
    MqttMessage::new(&Topic::new(topic).unwrap(), payload.as_bytes().to_vec())
}

fn json(bytes: &[u8]) -> serde_json::Value {
    serde_json::from_slice(bytes).unwrap()
}

fn parsed(text: &str) -> serde_json::Value {
    serde_json::from_str(text).unwrap()
}

#[test]
fn a_new_command_becomes_a_request_for_the_old_agent() {
    let input = message("te/device/main///cmd/restart/c8y-mapper-123", r#"{"status":"init"}"#);
    let output = try_convert("c8y-mapper", &input).unwrap().unwrap();
    assert_eq!(output.topic.name(), "tedge/commands/req/control/restart");
    assert_eq!(json(&output.payload), parsed(r#"{"id":"c8y-mapper-123"}"#));
    assert_eq!(output.qos, QoS::AtLeastOnce);
    assert!(!output.retain);
}

#[test]
fn the_request_keeps_the_other_fields() {
    let input = message(
        "te/device/main///cmd/software_update/abc",
        r#"{"status":"init","updateList":[{"type":"apt","modules":[{"name":"x","version":"1.0","action":"install"}]}],"n":1.5,"b":true,"z":null}"#,
    );
    let output = try_convert("c8y-mapper", &input).unwrap().unwrap();
    assert_eq!(output.topic.name(), "tedge/commands/req/software/update");
    assert_eq!(
        json(&output.payload),
        parsed(
            r#"{"id":"abc","updateList":[{"type":"apt","modules":[{"name":"x","version":"1.0","action":"install"}]}],"n":1.5,"b":true,"z":null}"#
        )
    );
}

#[test]
fn the_id_of_the_topic_takes_the_place_of_one_in_the_payload() {
    let output =
        convert_to_old_agent_request("software/list", "new", br#"{"id":"old","status":"init"}"#)
            .unwrap()
            .unwrap();
    assert_eq!(output.topic.name(), "tedge/commands/req/software/list");
    assert_eq!(json(&output.payload), parsed(r#"{"id":"new"}"#));
}

#[test]
fn clearing_messages_and_later_states_are_ignored() {
    let input = message("te/device/main///cmd/restart/c1", "");
    assert!(try_convert("c8y-mapper", &input).unwrap().is_none());
    for status in ["scheduled", "executing", "successful", "failed"] {
        let input =
            message("te/device/main///cmd/software_list/c1", &format!(r#"{{"status":"{}"}}"#, status));
        assert!(try_convert("c8y-mapper", &input).unwrap().is_none());
    }
}

#[test]
fn a_request_without_status_is_an_error() {
    let input = message("te/device/main///cmd/restart/c1", r#"{"state":"init"}"#);
    assert_eq!(
        try_convert("c8y-mapper", &input).unwrap_err(),
        r#"Fail to inject command 'id' into agent control/restart request: {"state":"init"}"#
    );
    let input = message("te/device/main///cmd/restart/c1", "not json");
    assert_eq!(
        try_convert("c8y-mapper", &input).unwrap_err(),
        "Fail to inject command 'id' into agent control/restart request: not json"
    );
    let input = message("te/device/main///cmd/restart/c1", r#"{"status":3}"#);
    assert!(try_convert("c8y-mapper", &input).is_err());
    let input = message("te/device/main///cmd/restart/c1", r#"["status"]"#);
    assert!(try_convert("c8y-mapper", &input).is_err());
    let input = MqttMessage::new(
        &Topic::new("te/device/main///cmd/restart/c1").unwrap(),
        vec![0xff, 0xfe],
    );
    assert_eq!(
        try_convert("c8y-mapper", &input).unwrap_err(),
        "Fail to inject command 'id' into agent control/restart request: non utf8 payload"
    );
}

#[test]
fn a_response_of_the_old_agent_becomes_a_command_state() {
    let payload = r#"{"id":"c8y-mapper-123","status":"executing"}"#;
    let input = message("tedge/commands/res/control/restart", payload);
    let output = try_convert("c8y-mapper", &input).unwrap().unwrap();
    assert_eq!(output.topic.name(), "te/device/main///cmd/restart/c8y-mapper-123");
    assert_eq!(output.payload, payload.as_bytes().to_vec());
    assert!(output.retain);
    assert_eq!(output.qos, QoS::AtLeastOnce);
}

#[test]
fn the_prefix_is_put_before_other_ids() {
    let input = message("tedge/commands/res/software/list", r#"{"id":"123","status":"successful"}"#);
    let output = try_convert("c8y-mapper", &input).unwrap().unwrap();
    assert_eq!(output.topic.name(), "te/device/main///cmd/software_list/c8y-mapper-123");
    let input = message("tedge/commands/res/software/update", r#"{"id":"x","status":"failed"}"#);
    let output = try_convert("c8y-mapper", &input).unwrap().unwrap();
    assert_eq!(output.topic.name(), "te/device/main///cmd/software_update/c8y-mapper-x");
}

#[test]
fn a_response_without_id_is_an_error() {
    assert_eq!(
        convert_from_old_agent_response("c8y-mapper", "restart", br#"{"status":"failed"}"#).unwrap_err(),
        r#"Fail to extract command 'id' from agent restart response: {"status":"failed"}"#
    );
    assert!(convert_from_old_agent_response("c8y-mapper", "restart", br#"{"id":7}"#).is_err());
    assert!(convert_from_old_agent_response("c8y-mapper", "restart", b"").is_err());
    assert!(convert_from_old_agent_response("c8y-mapper", "restart", br#"{"id":"a/+"}"#).is_err());
}

#[test]
fn other_topics_are_ignored() {
    for topic in [
        "tedge/commands/res/control/other",
        "tedge/commands/req/control/restart",
        "te/device/child///cmd/restart/c1",
        "te/device/main///cmd/config_update/c1",
        "te/device/main///cmd/restart",
        "te/device/main/service/x/cmd/restart/c1",
        "unrelated",
    ] {
        let input = message(topic, r#"{"id":"1","status":"init"}"#);
        assert!(try_convert("c8y-mapper", &input).unwrap().is_none(), "{}", topic);
    }
    // any root will do
    let input = message("root/device/main///cmd/restart/c1", r#"{"status":"init"}"#);
    assert!(try_convert("c8y-mapper", &input).unwrap().is_some());
}

#[test]
fn the_adapter_publishes_what_it_converts() {
    let mut adapter = OldAgentAdapter::new(&TopicPrefix::new("c8y").unwrap());
    assert_eq!(adapter.prefix, "c8y-mapper");
    let input = message("tedge/commands/res/control/restart", r#"{"id":"1","status":"failed"}"#);
    let output = adapter.convert(&input);
    assert_eq!(output.len(), 1);
    assert_eq!(output[0].topic.name(), "te/device/main///cmd/restart/c8y-mapper-1");
    let input = message("tedge/commands/res/control/restart", "{}");
    assert!(adapter.convert(&input).is_empty());
    let input = message("unrelated", "{}");
    assert!(adapter.convert(&input).is_empty());
}

#[test]
fn the_adapter_listens_to_old_and_new_topics() {
    let filter = old_and_new_command_topics();
    assert_eq!(
        filter.patterns,
        vec![
            "tedge/commands/res/control/restart",
            "tedge/commands/res/software/list",
            "tedge/commands/res/software/update",
            "te/device/main///cmd/restart/+",
            "te/device/main///cmd/software_list/+",
            "te/device/main///cmd/software_update/+",
        ]
    );
    assert!(filter.accept_topic(&Topic::new("te/device/main///cmd/restart/c1").unwrap()));
    assert!(!filter.accept_topic(&Topic::new("te/device/main///cmd/restart").unwrap()));
}
