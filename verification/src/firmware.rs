//! Firmware updates of child devices: what is done with each message.

use crate::json::Json;
use crate::json_codec::json_parsed;
use crate::mqtt::error::MqttError;
use crate::mqtt::message::{tells_invalid_utf8, MqttMessage, MqttMessageView};
use crate::mqtt::topic::{is_valid_topic, QoS, TopicFilter};
use crate::smartrest::csv::{decoded_line, encoded_line};
use crate::smartrest::error::{Fault, SmartRestSerializerError};
use crate::smartrest::message_ids::{
    FIRMWARE, GET_PENDING_OPERATIONS, SET_OPERATION_TO_EXECUTING, SET_OPERATION_TO_FAILED,
};
use crate::smartrest::payload::{decode_line, payload_fault, SmartrestPayload};
use crate::smartrest::topic::{C8yTopic, TopicPrefix};
use crate::text::{
    chars_of, decimal, decimal_text, owned, same_text, split, split_text, string_of, texts,
};
use vstd::prelude::*;
use vstd::utf8::{decode_utf8, encode_utf8, valid_utf8};

verus! {

/// The time, in seconds, that a child device is given to answer.
pub const DEFAULT_OPERATION_TIMEOUT_SECS: u64 = 10;

/// A firmware and where it is found.
#[derive(Debug)]
pub struct FirmwareEntry {
    pub name: String,
    pub version: String,
    pub url: String,
    pub sha256: String,
}

impl FirmwareEntry {
    pub fn new(name: &str, version: &str, url: &str, sha256: &str) -> (entry: Self)
        ensures
            entry.name@ == name@,
            entry.version@ == version@,
            entry.url@ == url@,
            entry.sha256@ == sha256@,
    {
        Self {
            name: owned(name),
            version: owned(version),
            url: owned(url),
            sha256: owned(sha256),
        }
    }
}

/// How far an operation has come in the cloud's eyes.
#[derive(Debug, PartialEq, Eq, Structural, Copy, Clone)]
pub enum ActiveOperationState {
    Pending,
    Executing,
}

/// The state of a reader that cuts a payload into lines: the lines read,
/// the line being read, and whether the reader stands inside quotes.
pub struct LineScan {
    pub lines: Seq<Seq<char>>,
    pub current: Seq<char>,
    pub quoted: bool,
}

/// The reader's state after a text: a line ends at a line break that
/// stands outside quotes.
pub open spec fn scanned_lines(data: Seq<char>) -> LineScan
    decreases data.len(),
{
    if data.len() == 0 {
        LineScan { lines: Seq::empty(), current: Seq::empty(), quoted: false }
    } else {
        let before = scanned_lines(data.drop_last());
        let c = data.last();
        if c == '\n' && !before.quoted {
            LineScan { lines: before.lines.push(before.current), current: Seq::empty(), quoted: false }
        } else {
            LineScan {
                lines: before.lines,
                current: before.current.push(c),
                quoted: if c == '"' {
                    !before.quoted
                } else {
                    before.quoted
                },
            }
        }
    }
}

/// The messages of a payload: its lines, but for the empty ones. A line
/// break between quotes does not end a line.
pub open spec fn smartrest_messages(data: Seq<char>) -> Seq<Seq<char>> {
    let scan = scanned_lines(data);
    scan.lines.push(scan.current).filter(|line: Seq<char>| line.len() > 0)
}

/// Cuts a payload into its messages.
pub fn collect_smartrest_messages(data: &str) -> (messages: Vec<String>)
    ensures
        texts(messages@) == smartrest_messages(data@),
{
    let chars = chars_of(data);
    let mut messages: Vec<String> = Vec::new();
    let mut current: Vec<char> = Vec::new();
    let mut quoted = false;
    let ghost keep = |line: Seq<char>| line.len() > 0;
    let mut i: usize = 0;
    proof {
        assert(chars@.take(0) =~= Seq::<char>::empty());
        reveal(Seq::filter);
        assert(texts(messages@) =~= Seq::<Seq<char>>::empty().filter(keep));
    }
    while i < chars.len()
        invariant
            i <= chars.len(),
            keep == |line: Seq<char>| line.len() > 0,
            texts(messages@) == scanned_lines(chars@.take(i as int)).lines.filter(keep),
            current@ == scanned_lines(chars@.take(i as int)).current,
            quoted == scanned_lines(chars@.take(i as int)).quoted,
        decreases chars.len() - i,
    {
        let c = chars[i];
        let ghost before = scanned_lines(chars@.take(i as int));
        proof {
            assert(chars@.take(i + 1).drop_last() =~= chars@.take(i as int));
            assert(chars@.take(i + 1).last() == c);
            reveal(Seq::filter);
            assert(before.lines.push(before.current).drop_last() =~= before.lines);
        }
        if c == '\n' && !quoted {
            if current.len() > 0 {
                let ghost old_messages = messages@;
                messages.push(string_of(&current));
                assert(texts(messages@) =~= texts(old_messages).push(current@));
            }
            current = Vec::new();
        } else {
            current.push(c);
            if c == '"' {
                quoted = !quoted;
            }
        }
        i += 1;
    }
    proof {
        assert(chars@.take(chars.len() as int) =~= chars@);
        let scan = scanned_lines(chars@);
        reveal(Seq::filter);
        assert(scan.lines.push(scan.current).drop_last() =~= scan.lines);
    }
    if current.len() > 0 {
        let ghost old_messages = messages@;
        messages.push(string_of(&current));
        assert(texts(messages@) =~= texts(old_messages).push(current@));
    }
    messages
}

/// The cloud's request to update the firmware of a device.
#[derive(Debug)]
pub struct SmartRestFirmwareRequest {
    pub device: String,
    pub name: String,
    pub version: String,
    pub url: String,
}

/// A firmware request as contracts speak of it.
pub struct FirmwareRequestView {
    pub device: Seq<char>,
    pub name: Seq<char>,
    pub version: Seq<char>,
    pub url: Seq<char>,
}

/// The firmware request that a line stands for: the line has five fields,
/// the code of firmware requests first.
pub open spec fn firmware_request_of(line: Seq<char>) -> Option<FirmwareRequestView> {
    match decoded_line(line) {
        Some(fields) if fields.len() == 5 && fields[0] == decimal(FIRMWARE as nat) => Some(
            FirmwareRequestView {
                device: fields[1],
                name: fields[2],
                version: fields[3],
                url: fields[4],
            },
        ),
        _ => None,
    }
}

impl SmartRestFirmwareRequest {
    pub open spec fn view(&self) -> FirmwareRequestView {
        FirmwareRequestView {
            device: self.device@,
            name: self.name@,
            version: self.version@,
            url: self.url@,
        }
    }

    /// Reads a firmware request from a line.
    pub fn from_smartrest(line: &str) -> (r: Option<SmartRestFirmwareRequest>)
        ensures
            match firmware_request_of(line@) {
                Some(view) => r matches Some(request) && request@ == view,
                None => r is None,
            },
    {
        match decode_line(line) {
            Some(fields) => {
                assert(forall|i: int| 0 <= i < fields@.len() ==> texts(fields@)[i] == fields@[i]@);
                if fields.len() == 5 && same_text(
                    fields[0].as_str(),
                    decimal_text(FIRMWARE as u64).as_str(),
                ) {
                    Some(
                        SmartRestFirmwareRequest {
                            device: fields[1].clone(),
                            name: fields[2].clone(),
                            version: fields[3].clone(),
                            url: fields[4].clone(),
                        },
                    )
                } else {
                    None
                }
            },
            None => None,
        }
    }
}

/// What is done with one message of the cloud.
#[derive(Debug)]
pub enum RequestAction {
    /// The firmware is to be downloaded and handed to the child device.
    Download(SmartRestFirmwareRequest),
    /// The message has the code of a firmware request, and is none.
    Incorrect(String),
    /// The message is not meant for the firmware manager.
    Ignored,
}

/// What is done with one message of the cloud, as contracts speak of it.
pub enum RequestActionView {
    Download(FirmwareRequestView),
    Incorrect(Seq<char>),
    Ignored,
}

impl RequestAction {
    pub open spec fn view(&self) -> RequestActionView {
        match self {
            RequestAction::Download(request) => RequestActionView::Download(request@),
            RequestAction::Incorrect(line) => RequestActionView::Incorrect(line@),
            RequestAction::Ignored => RequestActionView::Ignored,
        }
    }
}

/// What is done with one message of the cloud: a message whose first field
/// is the code of firmware requests is a request, or is incorrect; any other
/// message is passed over.
pub open spec fn request_action_of(line: Seq<char>) -> RequestActionView {
    if split_text(line, ',')[0] == decimal(FIRMWARE as nat) {
        match firmware_request_of(line) {
            Some(request) => RequestActionView::Download(request),
            None => RequestActionView::Incorrect(line),
        }
    } else {
        RequestActionView::Ignored
    }
}

/// What is done with a message.
#[derive(Debug)]
pub enum FirmwareAction {
    /// The health of the firmware manager is asked for.
    SendHealthStatus,
    /// A child device answered to a firmware update.
    ChildResponse,
    /// The cloud sent messages; for each, what is done with it.
    Requests(Vec<RequestAction>),
    /// The message came on a topic that was not subscribed to.
    Unexpected,
}

/// The views of a list of actions.
pub open spec fn action_views(actions: Seq<RequestAction>) -> Seq<RequestActionView> {
    actions.map_values(|a: RequestAction| a@)
}

/// The topics on which the health of a service is asked for.
pub fn health_check_topics(service_name: &str) -> (filter: TopicFilter)
    ensures
        texts(filter.patterns@) == seq![
            "tedge/health-check"@,
            "tedge/health-check/"@ + service_name@,
        ],
{
    let mut filter = TopicFilter::new_unchecked("tedge/health-check");
    let mut topic = owned("tedge/health-check/");
    topic.append(service_name);
    filter.add_unchecked(topic.as_str());
    assert(texts(filter.patterns@) =~= seq![
        "tedge/health-check"@,
        "tedge/health-check/"@ + service_name@,
    ]);
    filter
}

/// The name under which the firmware manager is known as a service.
pub open spec fn plugin_service_name() -> Seq<char> {
    "c8y-firmware-plugin"@
}

/// The part of the firmware manager that decides: the topics that it
/// listens to, by what comes on them.
#[derive(Debug)]
pub struct FirmwareManager {
    pub c8y_request_topics: TopicFilter,
    pub health_check_topics: TopicFilter,
    pub firmware_update_response_topics: TopicFilter,
}

impl FirmwareManager {
    /// The firmware manager for the cloud bridge of the given prefix.
    pub fn new(prefix: &TopicPrefix) -> (manager: FirmwareManager)
        ensures
            texts(manager.c8y_request_topics.patterns@) == seq![prefix@ + "/s/ds"@],
            texts(manager.health_check_topics.patterns@) == seq![
                "tedge/health-check"@,
                "tedge/health-check/"@ + plugin_service_name(),
            ],
            texts(manager.firmware_update_response_topics.patterns@) == seq![
                "tedge/+/commands/res/firmware_update"@,
            ],
    {
        let requests = C8yTopic::downstream_topic(prefix);
        FirmwareManager {
            c8y_request_topics: requests.filter(),
            health_check_topics: health_check_topics("c8y-firmware-plugin"),
            firmware_update_response_topics: TopicFilter::new_unchecked(
                "tedge/+/commands/res/firmware_update",
            ),
        }
    }

    /// All the topics that the firmware manager listens to: the cloud's
    /// requests, then the health checks, then the answers of the child
    /// devices.
    pub fn subscriptions(&self) -> (filter: TopicFilter)
        ensures
            texts(filter.patterns@) == texts(self.c8y_request_topics.patterns@) + texts(
                self.health_check_topics.patterns@,
            ) + texts(self.firmware_update_response_topics.patterns@),
    {
        let mut filter = TopicFilter::empty();
        assert(texts(filter.patterns@) =~= Seq::<Seq<char>>::empty());
        filter.add_all(copy_filter(&self.c8y_request_topics));
        filter.add_all(copy_filter(&self.health_check_topics));
        filter.add_all(copy_filter(&self.firmware_update_response_topics));
        assert(texts(filter.patterns@) =~= texts(self.c8y_request_topics.patterns@) + texts(
            self.health_check_topics.patterns@,
        ) + texts(self.firmware_update_response_topics.patterns@));
        filter
    }

    /// Tells what is to be done with a message: by its topic, the health is
    /// told, the answer of a child device is handled, or the messages of the
    /// cloud are gone through one by one. A payload of the cloud that is no
    /// text is an error.
    pub fn process_mqtt_message(&self, message: &MqttMessage) -> (r: Result<
        FirmwareAction,
        MqttError,
    >)
        ensures
            if self.health_check_topics.accepts(message.topic@) {
                r matches Ok(FirmwareAction::SendHealthStatus)
            } else if self.firmware_update_response_topics.accepts(message.topic@) {
                r matches Ok(FirmwareAction::ChildResponse)
            } else if self.c8y_request_topics.accepts(message.topic@) {
                if valid_utf8(message.payload@) {
                    r matches Ok(FirmwareAction::Requests(actions)) && action_views(actions@)
                        == smartrest_messages(decode_utf8(message.payload@)).map_values(
                        |line: Seq<char>| request_action_of(line),
                    )
                } else {
                    r matches Err(e) && tells_invalid_utf8(e, message.payload@)
                }
            } else {
                r matches Ok(FirmwareAction::Unexpected)
            },
    {
        if self.health_check_topics.accept(message) {
            Ok(FirmwareAction::SendHealthStatus)
        } else if self.firmware_update_response_topics.accept(message) {
            Ok(FirmwareAction::ChildResponse)
        } else if self.c8y_request_topics.accept(message) {
            let payload = match message.payload_str() {
                Ok(payload) => payload,
                Err(e) => {
                    return Err(e);
                },
            };
            let messages = collect_smartrest_messages(payload);
            let ghost lines = texts(messages@);
            let ghost classify = |line: Seq<char>| request_action_of(line);
            let mut actions: Vec<RequestAction> = Vec::new();
            let mut i: usize = 0;
            assert(action_views(actions@) =~= lines.map_values(classify).take(0));
            while i < messages.len()
                invariant
                    i <= messages.len(),
                    lines == texts(messages@),
                    classify == |line: Seq<char>| request_action_of(line),
                    action_views(actions@) == lines.map_values(classify).take(i as int),
                decreases messages.len() - i,
            {
                let line = messages[i].as_str();
                let fields = split(line, ',');
                assert(texts(fields@)[0] == fields@[0]@);
                let action = if same_text(
                    fields[0].as_str(),
                    decimal_text(FIRMWARE as u64).as_str(),
                ) {
                    match SmartRestFirmwareRequest::from_smartrest(line) {
                        Some(request) => RequestAction::Download(request),
                        None => RequestAction::Incorrect(owned(line)),
                    }
                } else {
                    RequestAction::Ignored
                };
                let ghost before = actions@;
                actions.push(action);
                i += 1;
                proof {
                    assert(action_views(actions@) =~= action_views(before).push(action@));
                    assert(lines.map_values(classify).take(i as int) =~= lines.map_values(
                        classify,
                    ).take(i - 1).push(action@));
                }
            }
            assert(lines.map_values(classify).take(messages.len() as int) =~= lines.map_values(
                classify,
            ));
            Ok(FirmwareAction::Requests(actions))
        } else {
            Ok(FirmwareAction::Unexpected)
        }
    }
}

fn copy_filter(filter: &TopicFilter) -> (copy: TopicFilter)
    ensures
        texts(copy.patterns@) == texts(filter.patterns@),
        copy.qos == filter.qos,
{
    TopicFilter { patterns: crate::text::clone_strings(&filter.patterns), qos: filter.qos }
}

/// The name of the operation, as the cloud knows it.
pub open spec fn firmware_operation_name() -> Seq<char> {
    "c8y_Firmware"@
}

/// The fields of the line that tells the cloud that the firmware update is
/// being executed.
pub open spec fn executing_fields() -> Seq<Seq<char>> {
    seq![decimal(SET_OPERATION_TO_EXECUTING as nat), firmware_operation_name()]
}

/// The fields of the line that tells the cloud that the firmware update has
/// failed, and why.
pub open spec fn failed_fields(reason: Seq<char>) -> Seq<Seq<char>> {
    seq![decimal(SET_OPERATION_TO_FAILED as nat), firmware_operation_name(), reason]
}

/// What keeps the failure of a firmware update from being told: a topic
/// with a wildcard in it, or a line over the size ceiling.
pub open spec fn failure_fault(child_id: Seq<char>, reason: Seq<char>, prefix: Seq<char>) -> Option<
    Fault,
> {
    let topic = prefix + "/s/us/"@ + child_id;
    if !is_valid_topic(topic) {
        Some(Fault::InvalidTopic { name: topic })
    } else if payload_fault(executing_fields()) is Some {
        payload_fault(executing_fields())
    } else {
        payload_fault(failed_fields(reason))
    }
}

/// The message with the given fields, on the topic of a child device.
pub open spec fn child_message(child_id: Seq<char>, prefix: Seq<char>, fields: Seq<Seq<char>>) -> MqttMessageView {
    MqttMessageView {
        topic: prefix + "/s/us/"@ + child_id,
        payload: encode_utf8(encoded_line(fields)),
        qos: QoS::AtLeastOnce,
        retain: false,
    }
}

/// The messages that tell the cloud that the firmware update of a child
/// device has failed: an operation that the cloud holds to be pending is
/// first said to be executing, and then to have failed.
pub fn fail_pending_firmware_operation_in_c8y(
    child_id: &str,
    op_state: ActiveOperationState,
    failure_reason: &str,
    prefix: &TopicPrefix,
) -> (r: Result<Vec<MqttMessage>, SmartRestSerializerError>)
    ensures
        match failure_fault(child_id@, failure_reason@, prefix@) {
            Some(fault) => r matches Err(e) && e@ == fault,
            None => {
                &&& r matches Ok(messages)
                &&& messages@.map_values(|m: MqttMessage| m@) == if op_state
                    == ActiveOperationState::Pending {
                    seq![
                        child_message(child_id@, prefix@, executing_fields()),
                        child_message(child_id@, prefix@, failed_fields(failure_reason@)),
                    ]
                } else {
                    seq![child_message(child_id@, prefix@, failed_fields(failure_reason@))]
                }
            },
        },
{
    let topic = match C8yTopic::ChildSmartRestResponse(owned(child_id)).to_topic(prefix) {
        Ok(topic) => topic,
        Err(e) => {
            return Err(crate::smartrest::inventory::topic_error(e));
        },
    };
    let mut executing: Vec<String> = Vec::new();
    executing.push(decimal_text(SET_OPERATION_TO_EXECUTING as u64));
    executing.push(owned("c8y_Firmware"));
    assert(texts(executing@) =~= executing_fields());
    let executing_msg = match SmartrestPayload::serialize(&executing) {
        Ok(payload) => MqttMessage::new(&topic, payload.into_bytes()),
        Err(e) => {
            return Err(e);
        },
    };
    let mut failed: Vec<String> = Vec::new();
    failed.push(decimal_text(SET_OPERATION_TO_FAILED as u64));
    failed.push(owned("c8y_Firmware"));
    failed.push(owned(failure_reason));
    assert(texts(failed@) =~= failed_fields(failure_reason@));
    let failed_msg = match SmartrestPayload::serialize(&failed) {
        Ok(payload) => MqttMessage::new(&topic, payload.into_bytes()),
        Err(e) => {
            return Err(e);
        },
    };
    let ghost view = |m: MqttMessage| m@;
    let mut messages: Vec<MqttMessage> = Vec::new();
    match op_state {
        ActiveOperationState::Pending => {
            messages.push(executing_msg);
            messages.push(failed_msg);
            assert(messages@.map_values(view) =~= seq![
                child_message(child_id@, prefix@, executing_fields()),
                child_message(child_id@, prefix@, failed_fields(failure_reason@)),
            ]);
        },
        ActiveOperationState::Executing => {
            messages.push(failed_msg);
            assert(messages@.map_values(view) =~= seq![
                child_message(child_id@, prefix@, failed_fields(failure_reason@)),
            ]);
        },
    }
    Ok(messages)
}

/// The child device that a topic of answers names: the second level of
/// `tedge/<child>/commands/res/firmware_update`.
pub open spec fn child_of_topic(topic: Seq<char>) -> Option<Seq<char>> {
    let levels = split_text(topic, '/');
    if levels.len() == 5 && levels[0] == "tedge"@ && levels[2] == "commands"@ && levels[3]
        == "res"@ && levels[4] == "firmware_update"@ && levels[1].len() > 0 {
        Some(levels[1])
    } else {
        None
    }
}

/// The child device that a topic of answers names.
pub fn get_child_id_from_child_topic(topic: &str) -> (r: Option<String>)
    ensures
        match child_of_topic(topic@) {
            Some(child) => r matches Some(id) && id@ == child,
            None => r is None,
        },
{
    let levels = split(topic, '/');
    assert(forall|i: int| 0 <= i < levels@.len() ==> texts(levels@)[i] == levels@[i]@);
    if levels.len() == 5 && same_text(levels[0].as_str(), "tedge") && same_text(
        levels[2].as_str(),
        "commands",
    ) && same_text(levels[3].as_str(), "res") && same_text(
        levels[4].as_str(),
        "firmware_update",
    ) && !levels[1].as_str().is_empty() {
        Some(levels[1].clone())
    } else {
        None
    }
}

/// Why the firmware update of a child device fails when the child device
/// has not answered in time.
pub open spec fn timeout_reason(child_id: Seq<char>, hash: Seq<char>) -> Seq<char> {
    "Timeout due to lack of response from child device: "@ + child_id + " for hash: "@ + hash
}

/// Why the firmware update of a child device fails when the child device
/// has not answered in time.
pub fn make_timeout_reason(child_id: &str, hash: &str) -> (reason: String)
    ensures
        reason@ == timeout_reason(child_id@, hash@),
{
    let mut reason = owned("Timeout due to lack of response from child device: ");
    reason.append(child_id);
    reason.append(" for hash: ");
    reason.append(hash);
    reason
}

/// Why nothing was made of the answer of a child device.
#[derive(Debug)]
pub enum ChildResponseError {
    /// The topic of the answer names no child device.
    UnknownChild { topic: String },
    /// The failure cannot be told to the cloud.
    Serializer(SmartRestSerializerError),
}

/// Whether the answer of a child device can be read: it is a JSON text.
pub open spec fn is_readable_answer(payload: Seq<u8>) -> bool {
    json_parsed(payload) is Some
}

/// Why the firmware update of a child device fails when its answer cannot
/// be read.
pub open spec fn unreadable_answer_reason() -> Seq<char> {
    "the answer of the child device cannot be read"@
}

impl FirmwareManager {
    /// Takes the answer of a child device to a firmware update. For an
    /// answer that can be read, nothing is told to the cloud here. For one
    /// that cannot, the update of the child device that the topic names has
    /// failed: the cloud, which holds it to be pending, is told that it is
    /// executing, and then that it has failed.
    pub fn handle_child_device_firmware_operation_response(
        &self,
        message: &MqttMessage,
        prefix: &TopicPrefix,
    ) -> (r: Result<Vec<MqttMessage>, ChildResponseError>)
        ensures
            if is_readable_answer(message.payload@) {
                r matches Ok(messages) && messages@.len() == 0
            } else {
                match child_of_topic(message.topic@) {
                    None => r matches Err(ChildResponseError::UnknownChild { topic })
                        && topic@ == message.topic@,
                    Some(child) => match failure_fault(
                        child,
                        unreadable_answer_reason(),
                        prefix@,
                    ) {
                        Some(fault) => r matches Err(ChildResponseError::Serializer(e)) && e@
                            == fault,
                        None => {
                            &&& r matches Ok(messages)
                            &&& messages@.map_values(|m: MqttMessage| m@) == seq![
                                child_message(child, prefix@, executing_fields()),
                                child_message(
                                    child,
                                    prefix@,
                                    failed_fields(unreadable_answer_reason()),
                                ),
                            ]
                        },
                    },
                }
            },
    {
        if Json::parse(message.payload.as_slice()).is_some() {
            return Ok(Vec::new());
        }
        let child_id = match get_child_id_from_child_topic(message.topic.name()) {
            Some(child_id) => child_id,
            None => {
                return Err(ChildResponseError::UnknownChild { topic: owned(message.topic.name()) });
            },
        };
        match fail_pending_firmware_operation_in_c8y(
            child_id.as_str(),
            ActiveOperationState::Pending,
            "the answer of the child device cannot be read",
            prefix,
        ) {
            Ok(messages) => Ok(messages),
            Err(e) => Err(ChildResponseError::Serializer(e)),
        }
    }
}

/// The message that asks the cloud for the operations that are pending.
pub fn get_pending_operations_from_cloud(prefix: &TopicPrefix) -> (message: MqttMessage)
    ensures
        message@ == (MqttMessageView {
            topic: prefix@ + "/s/us"@,
            payload: encode_utf8(decimal(GET_PENDING_OPERATIONS as nat)),
            qos: QoS::AtLeastOnce,
            retain: false,
        }),
{
    let topic = C8yTopic::upstream_topic(prefix);
    MqttMessage::from_text(&topic, decimal_text(GET_PENDING_OPERATIONS as u64).as_str())
}

} // verus!
