use tedge_gateway::actors::{
    combined_topic_filter, matching_peers, mqtt_route, ActorExit, ConfigChannel, ConfigInput,
    ConfigInputAndResponse, ConfigManagerActor, ConfigOutput, ConfigPeer, FanIn, FileEvent,
    FileRequest, HttpError, HttpRequest, LinkError, LogManagerBuilder, MqttActorBuilder,
    MqttActorMessage, MqttRoute, RuntimeAction, RuntimeEvent, Supervisor,
    DEFAULT_CHANNEL_CAPACITY, DEFAULT_GRACE_PERIOD_SECS,
};
use tedge_gateway::c8y_http_proxy::{C8YRestRequest, UploadConfigFile, UploadLogBinary};
use tedge_gateway::cli::{
    established_bridges, get_bridge_config_file_path_cloud, possible_clouds, BridgeCandidate,
    BridgeLocation, C8yHost, CertCommand, CertConfig, Cloud, CloudBorrow, CloudProfiles,
    ConfigError, RefreshBridgesCmd, RefreshStep, SystemService, TEdgeCertCli, TEdgeReconnectCli,
    UploadCertCli,
};
use tedge_gateway::mqtt::message::MqttMessage;
use tedge_gateway::mqtt::topic::{Topic, TopicFilter};

fn message(topic: &str) -> MqttMessage {
    MqttMessage::new(&Topic::new(topic).unwrap(), b"Hi Bob".to_vec())
}

fn filters(patterns: &[&str]) -> Vec<TopicFilter> {
    patterns.iter().map(|p| TopicFilter::new_unchecked(p)).collect()
}

#[test]
fn messages_of_the_broker_go_to_the_peers_that_subscribed() {
    let subscriptions = filters(&["messages/for/alice", "messages/for/bob", "messages/for/+", "other/#"]);
    assert_eq!(matching_peers(&subscriptions, &message("messages/for/bob")), vec![1, 2]);
    assert_eq!(matching_peers(&subscriptions, &message("messages/for/alice")), vec![0, 2]);
    assert_eq!(matching_peers(&subscriptions, &message("nobody")), Vec::<usize>::new());
    match mqtt_route(&subscriptions, MqttActorMessage::DirectMessage(message("other/x"))) {
        MqttRoute::ToPeers(peers, sent) => {
            assert_eq!(peers, vec![3]);
            assert_eq!(sent.payload, b"Hi Bob".to_vec());
        }
        other => panic!("unexpected: {:?}", other),
    }
    match mqtt_route(&subscriptions, MqttActorMessage::PeerMessage(message("messages/for/bob"))) {
        MqttRoute::ToBroker(sent) => assert_eq!(sent.topic.name(), "messages/for/bob"),
        other => panic!("unexpected: {:?}", other),
    }
}

#[test]
fn the_mqtt_actor_subscribes_for_all_its_peers() {
    let mut builder = MqttActorBuilder::new();
    assert_eq!(builder.add_client(TopicFilter::new_unchecked("c8y/s/ds")), 0);
    let mut both = TopicFilter::new_unchecked("a/+");
    both.add_unchecked("b/#");
    assert_eq!(builder.add_client(both), 1);
    assert_eq!(builder.add_client(TopicFilter::empty()), 2);
    assert_eq!(builder.build().patterns, vec!["c8y/s/ds", "a/+", "b/#"]);
    assert!(combined_topic_filter(&vec![]).patterns.is_empty());
}

#[test]
fn the_configuration_manager_routes_its_messages() {
    let to_actor = ConfigInputAndResponse::from_input(ConfigInput::MqttMessage(message("a")));
    assert!(matches!(to_actor, ConfigInputAndResponse::MqttMessage(_)));
    let to_actor =
        ConfigInputAndResponse::from_input(ConfigInput::FileEvent(FileEvent { path: "p".into() }));
    assert!(matches!(to_actor, ConfigInputAndResponse::FileEvent(_)));
    assert!(matches!(
        ConfigInputAndResponse::MqttMessage(message("a")).channel(),
        ConfigChannel::Events(ConfigInput::MqttMessage(_))
    ));
    assert!(matches!(
        ConfigInputAndResponse::FileEvent(FileEvent { path: "p".into() }).channel(),
        ConfigChannel::Events(ConfigInput::FileEvent(_))
    ));
    assert!(matches!(
        ConfigInputAndResponse::HttpResult(Err(HttpError { reason: "r".into() })).channel(),
        ConfigChannel::HttpResponses(Err(_))
    ));
    assert_eq!(ConfigOutput::MqttMessage(message("a")).peer(), ConfigPeer::Mqtt);
    assert_eq!(
        ConfigOutput::HttpRequest(HttpRequest { method: "GET".into(), url: "u".into(), body: vec![] }).peer(),
        ConfigPeer::Http
    );
    assert_eq!(
        ConfigOutput::FileRequest(FileRequest { path: "p".into() }).peer(),
        ConfigPeer::FileWatcher
    );
    let request = (ConfigManagerActor {}).process_mqtt_message(&message("a"));
    assert_eq!(request.url, "https://my-tenant.c8y.io");
    assert_eq!(DEFAULT_CHANNEL_CAPACITY, 10);
}

#[test]
fn the_log_manager_needs_its_peers() {
    let mut builder = LogManagerBuilder::new();
    assert!(matches!(builder.check_peers(), Err(LinkError::MissingPeer { role }) if role == "mqtt"));
    builder.with_c8y_http_proxy();
    assert!(matches!(builder.check_peers(), Err(LinkError::MissingPeer { role }) if role == "mqtt"));
    builder.with_mqtt_connection();
    assert!(builder.check_peers().is_ok());
    builder.with_fs_connection();
    assert!(builder.fs_connected);
    let mut builder = LogManagerBuilder::new();
    builder.with_mqtt_connection();
    assert!(matches!(builder.check_peers(), Err(LinkError::MissingPeer { role }) if role == "http"));
    assert_eq!(LogManagerBuilder::subscriptions().patterns, vec!["c8y/s/ds"]);
}

#[test]
fn a_fan_in_keeps_the_order_of_each_source() {
    let mut fan_in: FanIn<&str> = FanIn::new(3);
    assert!(fan_in.pop().is_none());
    fan_in.push(1, "b1").unwrap();
    fan_in.push(2, "c1").unwrap();
    fan_in.push(1, "b2").unwrap();
    fan_in.push(0, "a1").unwrap();
    fan_in.push(2, "c2").unwrap();
    assert_eq!(fan_in.push(3, "lost"), Err("lost"));
    let mut by_source: Vec<Vec<&str>> = vec![vec![], vec![], vec![]];
    let mut count = 0;
    while let Some((source, message)) = fan_in.pop() {
        by_source[source].push(message);
        count += 1;
    }
    assert_eq!(count, 5);
    assert_eq!(by_source, vec![vec!["a1"], vec!["b1", "b2"], vec!["c1", "c2"]]);
}

#[test]
fn the_runtime_ends_when_all_actors_have_ended() {
    let mut supervisor = Supervisor::new(2);
    assert!(matches!(
        supervisor.handle(RuntimeEvent::ActorFinished(ActorExit::Completed)),
        RuntimeAction::Continue
    ));
    assert!(matches!(
        supervisor.handle(RuntimeEvent::ActorFinished(ActorExit::Completed)),
        RuntimeAction::Exit(None)
    ));
}

#[test]
fn the_runtime_shuts_down_on_a_signal() {
    let mut supervisor = Supervisor::new(2);
    assert!(matches!(supervisor.handle(RuntimeEvent::GracePeriodElapsed), RuntimeAction::Continue));
    assert!(matches!(supervisor.handle(RuntimeEvent::ShutdownSignal), RuntimeAction::CloseInputs));
    assert!(matches!(supervisor.handle(RuntimeEvent::ShutdownSignal), RuntimeAction::Continue));
    assert!(matches!(
        supervisor.handle(RuntimeEvent::ActorFinished(ActorExit::Completed)),
        RuntimeAction::Continue
    ));
    assert!(matches!(supervisor.handle(RuntimeEvent::GracePeriodElapsed), RuntimeAction::AbortRemaining));
    assert_eq!(supervisor.running, 0);
    assert_eq!(DEFAULT_GRACE_PERIOD_SECS, 10);
}

#[test]
fn the_runtime_returns_the_first_fatal_error() {
    let mut supervisor = Supervisor::new(3);
    assert!(matches!(
        supervisor.handle(RuntimeEvent::ActorFinished(ActorExit::Fatal("first".into()))),
        RuntimeAction::CloseInputs
    ));
    assert!(matches!(
        supervisor.handle(RuntimeEvent::ActorFinished(ActorExit::Fatal("second".into()))),
        RuntimeAction::Continue
    ));
    match supervisor.handle(RuntimeEvent::ActorFinished(ActorExit::Completed)) {
        RuntimeAction::Exit(Some(error)) => assert_eq!(error, "first"),
        other => panic!("unexpected: {:?}", other),
    }
    let mut alone = Supervisor::new(1);
    assert!(matches!(
        alone.handle(RuntimeEvent::ActorFinished(ActorExit::Fatal("only".into()))),
        RuntimeAction::Exit(Some(_))
    ));
}

#[test]
fn requests_to_the_cloud_name_their_device() {
    let log = C8YRestRequest::UploadLogBinary(UploadLogBinary {
        log_type: "t".into(),
        log_content: "c".into(),
        child_device_id: Some("child".into()),
    });
    assert_eq!(log.child_device_id(), Some(&"child".to_string()));
    let config = C8YRestRequest::UploadConfigFile(UploadConfigFile {
        config_path: "/etc/x".into(),
        config_type: "t".into(),
        child_device_id: None,
    });
    assert_eq!(config.child_device_id(), None);
}

fn cloud(cloud: Cloud, profile: Option<&str>) -> CloudBorrow {
    CloudBorrow { cloud, profile: profile.map(String::from) }
}

fn shown(clouds: &[CloudBorrow]) -> Vec<String> {
    clouds.iter().map(|c| c.to_string()).collect()
}

#[test]
fn bridges_have_files() {
    assert_eq!(cloud(Cloud::C8y, None).bridge_config_filename(), "c8y-bridge.conf");
    assert_eq!(cloud(Cloud::Azure, None).bridge_config_filename(), "az-bridge.conf");
    assert_eq!(cloud(Cloud::Aws, None).bridge_config_filename(), "aws-bridge.conf");
    assert_eq!(cloud(Cloud::C8y, Some("second")).bridge_config_filename(), "c8y@second-bridge.conf");
    assert_eq!(
        get_bridge_config_file_path_cloud(&cloud(Cloud::Aws, Some("p"))),
        ("mosquitto-conf".to_string(), "aws@p-bridge.conf".to_string())
    );
}

#[test]
fn only_bridges_with_a_file_are_established() {
    let profiles = CloudProfiles { c8y: vec![None, Some("second".into())], az: vec![None], aws: vec![] };
    let possible = possible_clouds(&profiles);
    assert_eq!(shown(&possible), vec!["c8y", "c8y@second", "az"]);
    let established = established_bridges(&possible, &vec![false, true, true]);
    assert_eq!(shown(&established), vec!["c8y@second", "az"]);
    assert!(established_bridges(&possible, &vec![false, false, false]).is_empty());
}

fn steps(plan: &[RefreshStep]) -> Vec<String> {
    plan.iter()
        .map(|step| match step {
            RefreshStep::SayNothingToRefresh => "nothing".to_string(),
            RefreshStep::SaveCommonMosquittoConfig => "common".to_string(),
            RefreshStep::RefreshBridge(c) => format!("refresh {}", c.to_string()),
            RefreshStep::ChownCertificateAndKey(c) => format!("chown {}", c.to_string()),
            RefreshStep::UseBuiltInBridge(c) => format!("built-in {}", c.to_string()),
            RefreshStep::RestartMosquitto => "restart".to_string(),
        })
        .collect()
}

#[test]
fn bridges_are_refreshed_one_by_one() {
    let profiles = || CloudProfiles { c8y: vec![None], az: vec![None], aws: vec![None] };
    let cmd = RefreshBridgesCmd::new(false, profiles());
    assert_eq!(cmd.description(), "Refresh all currently active mosquitto bridges (restarts mosquitto)");
    assert_eq!(steps(&cmd.plan(&vec![], &vec![])), vec!["nothing"]);
    let established = vec![cloud(Cloud::C8y, None), cloud(Cloud::Aws, None)];
    let candidates = vec![
        BridgeCandidate { cloud: cloud(Cloud::C8y, None), location: Some(BridgeLocation::Mosquitto) },
        BridgeCandidate { cloud: cloud(Cloud::Azure, None), location: None },
        BridgeCandidate { cloud: cloud(Cloud::Aws, None), location: Some(BridgeLocation::BuiltIn) },
    ];
    assert_eq!(
        steps(&cmd.plan(&established, &candidates)),
        vec!["common", "refresh c8y", "refresh aws", "chown c8y", "chown aws", "built-in aws", "restart"]
    );
    let cmd = RefreshBridgesCmd::new(true, profiles());
    assert_eq!(steps(&cmd.plan(&vec![], &vec![])), vec!["common", "restart"]);
    assert_eq!(
        steps(&cmd.plan(&established, &candidates)),
        vec!["common", "chown c8y", "chown aws", "built-in aws", "restart"]
    );
    let candidates = vec![BridgeCandidate {
        cloud: cloud(Cloud::C8y, Some("other")),
        location: Some(BridgeLocation::BuiltIn),
    }];
    assert_eq!(steps(&cmd.plan(&established, &candidates)), vec!["common", "chown c8y@other", "restart"]);
}

#[test]
fn reconnect_commands() {
    let cmd = TEdgeReconnectCli::C8y.build_command();
    assert_eq!((cmd.config_file.as_str(), cmd.cloud, cmd.use_mapper), ("c8y-bridge.conf", Cloud::C8y, true));
    let cmd = TEdgeReconnectCli::Az.build_command();
    assert_eq!((cmd.config_file.as_str(), cmd.cloud, cmd.use_mapper), ("az-bridge.conf", Cloud::Azure, true));
    let cmd = TEdgeReconnectCli::Aws.build_command();
    assert_eq!((cmd.config_file.as_str(), cmd.cloud, cmd.use_mapper), ("aws-bridge.conf", Cloud::Aws, true));
    assert_eq!(SystemService::Mosquitto.as_service_name(), "mosquitto");
    assert_eq!(SystemService::TEdgeSMAgent.as_service_name(), "tedge-agent");
}

fn config(built_in: bool, device_id: Option<&str>) -> CertConfig {
    CertConfig {
        bridge_built_in: built_in,
        device_id: device_id.map(String::from),
        cert_path: "/etc/tedge/device-certs/tedge-certificate.pem".into(),
        key_path: "/etc/tedge/device-certs/tedge-private-key.pem".into(),
        csr_path: "/etc/tedge/device-certs/tedge.csr".into(),
        c8y: vec![
            C8yHost { profile: None, http: Some("tenant.c8y.io".into()) },
            C8yHost { profile: Some("second".into()), http: None },
        ],
    }
}

#[test]
fn certificate_commands() {
    match (TEdgeCertCli::Create { id: "dev".into() }).build_command(&config(false, None)).unwrap() {
        CertCommand::Create(cmd) => {
            assert_eq!(cmd.id, "dev");
            assert_eq!(cmd.cert_path, "/etc/tedge/device-certs/tedge-certificate.pem");
            assert_eq!(cmd.key_path, "/etc/tedge/device-certs/tedge-private-key.pem");
            assert_eq!((cmd.user.as_str(), cmd.group.as_str()), ("mosquitto", "mosquitto"));
        }
        other => panic!("unexpected: {:?}", other),
    }
    match (TEdgeCertCli::Create { id: "dev".into() }).build_command(&config(true, None)).unwrap() {
        CertCommand::Create(cmd) => assert_eq!((cmd.user.as_str(), cmd.group.as_str()), ("tedge", "tedge")),
        other => panic!("unexpected: {:?}", other),
    }
    match (TEdgeCertCli::CreateCsr { id: None, output_path: None })
        .build_command(&config(false, Some("own")))
        .unwrap()
    {
        CertCommand::CreateCsr(cmd) => {
            assert_eq!(cmd.id, "own");
            assert_eq!(cmd.csr_path, "/etc/tedge/device-certs/tedge.csr");
        }
        other => panic!("unexpected: {:?}", other),
    }
    match (TEdgeCertCli::CreateCsr { id: Some("given".into()), output_path: Some("/tmp/x.csr".into()) })
        .build_command(&config(false, None))
        .unwrap()
    {
        CertCommand::CreateCsr(cmd) => {
            assert_eq!(cmd.id, "given");
            assert_eq!(cmd.csr_path, "/tmp/x.csr");
        }
        other => panic!("unexpected: {:?}", other),
    }
    assert!(matches!(
        (TEdgeCertCli::CreateCsr { id: None, output_path: None }).build_command(&config(false, None)),
        Err(ConfigError::DeviceIdNotSet)
    ));
    assert!(matches!(TEdgeCertCli::Show.build_command(&config(false, None)), Ok(CertCommand::Show(_))));
    assert!(matches!(TEdgeCertCli::Remove.build_command(&config(false, None)), Ok(CertCommand::Remove(_))));
    assert!(matches!(TEdgeCertCli::Renew.build_command(&config(false, None)), Ok(CertCommand::Renew(_))));
}

fn upload(cloud: CloudBorrow) -> TEdgeCertCli {
    TEdgeCertCli::Upload(UploadCertCli { cloud, username: "admin".into(), password: "secret-word".into() })
}

#[test]
fn certificates_are_uploaded_to_cumulocity_alone() {
    match upload(cloud(Cloud::C8y, None)).build_command(&config(false, Some("dev"))).unwrap() {
        CertCommand::Upload(cmd) => {
            assert_eq!(cmd.device_id, "dev");
            assert_eq!(cmd.host, "tenant.c8y.io");
            assert_eq!(cmd.username, "admin");
            assert_eq!(cmd.password, "secret-word");
            assert_eq!(cmd.path, "/etc/tedge/device-certs/tedge-certificate.pem");
        }
        other => panic!("unexpected: {:?}", other),
    }
    match upload(cloud(Cloud::Azure, None)).build_command(&config(false, Some("dev"))) {
        Err(ConfigError::UploadNotSupported { message }) => {
            assert_eq!(message, "Uploading certificates via the tedge cli isn't supported for az")
        }
        other => panic!("unexpected: {:?}", other),
    }
    assert!(matches!(
        upload(cloud(Cloud::C8y, None)).build_command(&config(false, None)),
        Err(ConfigError::DeviceIdNotSet)
    ));
    assert!(matches!(
        upload(cloud(Cloud::C8y, Some("second"))).build_command(&config(false, Some("dev"))),
        Err(ConfigError::HostNotSet)
    ));
    assert!(matches!(
        upload(cloud(Cloud::C8y, Some("third"))).build_command(&config(false, Some("dev"))),
        Err(ConfigError::UnknownProfile)
    ));
}

/// The MQTT actor with its peers, and a broker that sends back whatever is
/// published on a topic that the actor subscribed to.
struct Loopback {
    builder: MqttActorBuilder,
    inboxes: Vec<Vec<MqttMessage>>,
    published: Vec<MqttMessage>,
}

impl Loopback {
    fn new() -> Loopback {
        Loopback { builder: MqttActorBuilder::new(), inboxes: vec![], published: vec![] }
    }

    fn client(&mut self, subscriptions: TopicFilter) -> usize {
        self.inboxes.push(vec![]);
        self.builder.add_client(subscriptions)
    }

    fn send(&mut self, message: MqttMessage) {
        let subscribed = self.builder.build();
        match mqtt_route(&self.builder.subscriptions, MqttActorMessage::PeerMessage(message)) {
            MqttRoute::ToBroker(sent) => {
                self.published.push(sent.clone());
                if subscribed.accept(&sent) {
                    self.deliver(sent);
                }
            }
            other => panic!("unexpected: {:?}", other),
        }
    }

    fn deliver(&mut self, message: MqttMessage) {
        match mqtt_route(&self.builder.subscriptions, MqttActorMessage::DirectMessage(message)) {
            MqttRoute::ToPeers(peers, sent) => {
                for peer in peers {
                    self.inboxes[peer].push(sent.clone());
                }
            }
            other => panic!("unexpected: {:?}", other),
        }
    }

    fn recv(&mut self, peer: usize) -> Option<(String, String)> {
        if self.inboxes[peer].is_empty() {
            return None;
        }
        let message = self.inboxes[peer].remove(0);
        Some((message.topic.name().to_string(), message.payload_str().expect("utf8").to_string()))
    }
}

fn text_message(topic: &Topic, payload: &str) -> MqttMessage {
    MqttMessage::new(topic, payload.as_bytes().to_vec())
}

fn received(topic: &Topic, payload: &str) -> Option<(String, String)> {
    Some((topic.name().to_string(), payload.to_string()))
}

#[test]
fn mqtt_actor_can_reliably_forward_messages_under_load() {
    let mut mqtt = Loopback::new();
    let _child_device: usize = mqtt.client(TopicFilter::empty());
    let c8y_mapper_topic = Topic::new_unchecked("some/tedge/topic");
    let c8y_mapper: usize = mqtt.client(c8y_mapper_topic.filter());
    let c8y_topic = Topic::new_unchecked("c8y/s/us");

    for _ in 1..100 {
        mqtt.send(text_message(&c8y_mapper_topic, "Hi Bob"));
    }
    let mut forwarded: usize = 0;
    while let Some((topic, payload)) = mqtt.recv(c8y_mapper) {
        assert_eq!(topic, "some/tedge/topic");
        mqtt.send(text_message(&c8y_topic, &payload));
        forwarded += 1;
    }
    assert_eq!(forwarded, 99);
    assert_eq!(mqtt.published.len(), 198);
    assert!(mqtt.published[99..].iter().all(|m| m.topic.name() == "c8y/s/us"));
    assert!(mqtt.published.iter().all(|m| m.payload == b"Hi Bob".to_vec()));
}

#[test]
fn communicate_over_mqtt() {
    let mut mqtt = Loopback::new();
    let alice_topic = Topic::new_unchecked("messages/for/alice");
    let alice: usize = mqtt.client(alice_topic.filter());
    let bob_topic = Topic::new_unchecked("messages/for/bob");
    let bob: usize = mqtt.client(bob_topic.filter());
    let mut all_topics = TopicFilter::empty();
    all_topics.add_all(alice_topic.filter());
    all_topics.add_all(bob_topic.filter());
    let spy: usize = mqtt.client(all_topics);

    // Message pub on some topic is received by all subscribers
    mqtt.send(text_message(&bob_topic, "Hi Bob"));
    assert_eq!(mqtt.recv(bob), received(&bob_topic, "Hi Bob"));
    assert_eq!(mqtt.recv(spy), received(&bob_topic, "Hi Bob"));

    // Messages from misc clients can be published without awaiting for a response
    mqtt.send(text_message(&alice_topic, "1"));
    mqtt.send(text_message(&alice_topic, "2"));
    mqtt.send(text_message(&bob_topic, "A"));
    mqtt.send(text_message(&alice_topic, "3"));
    mqtt.send(text_message(&bob_topic, "B"));
    mqtt.send(text_message(&bob_topic, "C"));

    // A subscriber receives only the messages for its subscriptions
    assert_eq!(mqtt.recv(bob), received(&bob_topic, "A"));
    assert_eq!(mqtt.recv(bob), received(&bob_topic, "B"));
    assert_eq!(mqtt.recv(bob), received(&bob_topic, "C"));
    assert_eq!(mqtt.recv(bob), None);

    // When messages are pub/sub on a single topic; they are received in order
    assert_eq!(mqtt.recv(alice), received(&alice_topic, "1"));
    assert_eq!(mqtt.recv(alice), received(&alice_topic, "2"));
    assert_eq!(mqtt.recv(alice), received(&alice_topic, "3"));
    assert_eq!(mqtt.recv(alice), None);

    let mut messages = vec![];
    for _i in 0..6 {
        let (_, payload) = mqtt.recv(spy).expect("some message");
        messages.push(payload);
    }
    messages.sort();
    assert_eq!(messages, vec!["1", "2", "3", "A", "B", "C"]);
    assert_eq!(mqtt.recv(spy), None);
}
