//! Alarms, as the cloud takes them.

use crate::json::{field_views, get_field, remove_field, without_field, Json, JsonView};
use crate::json_codec::json_parsed;
use crate::mqtt::message::MqttMessage;
use crate::mqtt_topics::{parsed_topic, Channel, ChannelView, MqttSchema};
use crate::smartrest::csv::encoded_line;
use crate::smartrest::error::{Fault, SmartRestSerializerError};
use crate::smartrest::message_ids::{
    CLEAR_EXISTING_ALARM, CREATE_CRITICAL_ALARM, CREATE_MAJOR_ALARM, CREATE_MINOR_ALARM,
    CREATE_WARNING_ALARM,
};
use crate::smartrest::payload::{payload_fault, SmartrestPayload};
use crate::text::same_text;
use crate::text::{decimal, decimal_text, texts};
use time::OffsetDateTime;
use time::format_description::well_known::Rfc3339;
use vstd::prelude::*;

verus! {

/// `time::OffsetDateTime`: a moment with its offset from UTC, carried
/// through as it is.
#[verifier::external_type_specification]
#[verifier::external_body]
pub struct ExOffsetDateTime(OffsetDateTime);

/// `time::error::Format`: why a moment could not be written.
#[verifier::external_type_specification]
#[verifier::external_body]
pub struct ExFormatError(time::error::Format);

/// A moment written as RFC 3339 asks, which `OffsetDateTime::format` does for
/// years from 0 to 9999 and offsets of whole minutes; none for other moments.
pub uninterp spec fn rfc3339_text(time: OffsetDateTime) -> Option<Seq<char>>;

/// Writes a moment with `OffsetDateTime::format` in the RFC 3339 format. The
/// result depends on the moment alone.
#[verifier::external_body]
fn format_rfc3339(time: &OffsetDateTime) -> (r: Result<String, time::error::Format>)
    ensures
        match rfc3339_text(*time) {
            Some(text) => r matches Ok(s) && s@ == text,
            None => r is Err,
        },
{
    time.format(&Rfc3339)
}

/// How bad an alarm is.
#[derive(Clone, Copy, PartialEq, Eq, Structural, Debug)]
pub enum AlarmSeverity {
    Critical,
    Major,
    Minor,
    Warning,
}

/// The device or service that an alarm is about, where it is not the main
/// device.
#[derive(Debug)]
pub struct SourceInfo {
    pub id: String,
    pub source_type: String,
}

/// An alarm to raise.
#[derive(Debug)]
pub struct C8yCreateAlarm {
    pub alarm_type: String,
    pub source: Option<SourceInfo>,
    pub severity: AlarmSeverity,
    pub text: String,
    pub time: OffsetDateTime,
    pub fragments: Vec<(String, Json)>,
}

/// An alarm to clear.
#[derive(Debug)]
pub struct C8yClearAlarm {
    pub alarm_type: String,
    pub source: Option<SourceInfo>,
}

/// An alarm, raised or cleared.
#[derive(Debug)]
pub enum C8yAlarm {
    Create(C8yCreateAlarm),
    Clear(C8yClearAlarm),
}

/// The template code for raising an alarm of a severity.
pub open spec fn alarm_code(severity: AlarmSeverity) -> nat {
    match severity {
        AlarmSeverity::Critical => CREATE_CRITICAL_ALARM as nat,
        AlarmSeverity::Major => CREATE_MAJOR_ALARM as nat,
        AlarmSeverity::Minor => CREATE_MINOR_ALARM as nat,
        AlarmSeverity::Warning => CREATE_WARNING_ALARM as nat,
    }
}

/// The fields of the line that raises an alarm, given the alarm's time as
/// text: the code of its severity, its type, its text and its time.
pub open spec fn create_alarm_fields(
    severity: AlarmSeverity,
    alarm_type: Seq<char>,
    text: Seq<char>,
    time: Seq<char>,
) -> Seq<Seq<char>> {
    seq![decimal(alarm_code(severity)), alarm_type, text, time]
}

/// The fields of the line that clears an alarm: the code and the alarm's type.
pub open spec fn clear_alarm_fields(alarm_type: Seq<char>) -> Seq<Seq<char>> {
    seq![decimal(CLEAR_EXISTING_ALARM as nat), alarm_type]
}

/// The fields of an alarm's line; none where the alarm's time cannot be
/// written.
pub open spec fn alarm_fields(alarm: C8yAlarm) -> Option<Seq<Seq<char>>> {
    match alarm {
        C8yAlarm::Create(create) => match rfc3339_text(create.time) {
            Some(time) => Some(
                create_alarm_fields(create.severity, create.alarm_type@, create.text@, time),
            ),
            None => None,
        },
        C8yAlarm::Clear(clear) => Some(clear_alarm_fields(clear.alarm_type@)),
    }
}

/// What keeps an alarm from being written: a time that cannot be written,
/// or a line over the size ceiling.
pub open spec fn alarm_fault(alarm: C8yAlarm) -> Option<Fault> {
    match alarm_fields(alarm) {
        Some(fields) => payload_fault(fields),
        None => Some(Fault::InvalidTime),
    }
}

/// The SmartREST line of an alarm.
pub fn serialize_alarm(c8y_alarm: &C8yAlarm) -> (r: Result<
    SmartrestPayload,
    SmartRestSerializerError,
>)
    ensures
        match alarm_fault(*c8y_alarm) {
            Some(fault) => r matches Err(e) && e@ == fault,
            None => r matches Ok(payload) && payload@ == encoded_line(
                alarm_fields(*c8y_alarm).unwrap(),
            ),
        },
{
    let mut fields: Vec<String> = Vec::new();
    match c8y_alarm {
        C8yAlarm::Create(alarm) => {
            let smartrest_code = match alarm.severity {
                AlarmSeverity::Critical => CREATE_CRITICAL_ALARM,
                AlarmSeverity::Major => CREATE_MAJOR_ALARM,
                AlarmSeverity::Minor => CREATE_MINOR_ALARM,
                AlarmSeverity::Warning => CREATE_WARNING_ALARM,
            };
            let time = match format_rfc3339(&alarm.time) {
                Ok(time) => time,
                Err(_) => {
                    return Err(SmartRestSerializerError::InvalidTime);
                },
            };
            fields.push(decimal_text(smartrest_code as u64));
            fields.push(alarm.alarm_type.clone());
            fields.push(alarm.text.clone());
            fields.push(time);
            assert(texts(fields@) =~= alarm_fields(*c8y_alarm).unwrap());
        },
        C8yAlarm::Clear(alarm) => {
            fields.push(decimal_text(CLEAR_EXISTING_ALARM as u64));
            fields.push(alarm.alarm_type.clone());
            assert(texts(fields@) =~= alarm_fields(*c8y_alarm).unwrap());
        },
    }
    SmartrestPayload::serialize(&fields)
}

/// The moment that a text stands for in the RFC 3339 format: what
/// `OffsetDateTime::parse` reads from it. None for a text that is no such
/// moment.
pub uninterp spec fn rfc3339_time(text: Seq<char>) -> Option<OffsetDateTime>;

/// Reads a moment with `OffsetDateTime::parse` in the RFC 3339 format. The
/// result depends on the text alone.
#[verifier::external_body]
fn parse_rfc3339(text: &str) -> (r: Option<OffsetDateTime>)
    ensures
        r == rfc3339_time(text@),
{
    OffsetDateTime::parse(text, &Rfc3339).ok()
}

/// The severity of a name.
pub open spec fn severity_of_name(name: Seq<char>) -> Option<AlarmSeverity> {
    if name == "critical"@ {
        Some(AlarmSeverity::Critical)
    } else if name == "major"@ {
        Some(AlarmSeverity::Major)
    } else if name == "minor"@ {
        Some(AlarmSeverity::Minor)
    } else if name == "warning"@ {
        Some(AlarmSeverity::Warning)
    } else {
        None
    }
}

impl AlarmSeverity {
    /// The severity of a name.
    pub fn from_name(name: &str) -> (r: Option<AlarmSeverity>)
        ensures
            r == severity_of_name(name@),
    {
        if same_text(name, "critical") {
            Some(AlarmSeverity::Critical)
        } else if same_text(name, "major") {
            Some(AlarmSeverity::Major)
        } else if same_text(name, "minor") {
            Some(AlarmSeverity::Minor)
        } else if same_text(name, "warning") {
            Some(AlarmSeverity::Warning)
        } else {
            None
        }
    }
}

/// An alarm as contracts speak of it.
pub enum AlarmView {
    Create {
        alarm_type: Seq<char>,
        severity: AlarmSeverity,
        text: Seq<char>,
        time: OffsetDateTime,
        fragments: Seq<(Seq<char>, JsonView)>,
    },
    Clear { alarm_type: Seq<char> },
}

impl C8yAlarm {
    pub open spec fn view(&self) -> AlarmView {
        match self {
            C8yAlarm::Create(alarm) => AlarmView::Create {
                alarm_type: alarm.alarm_type@,
                severity: alarm.severity,
                text: alarm.text@,
                time: alarm.time,
                fragments: field_views(alarm.fragments@),
            },
            C8yAlarm::Clear(alarm) => AlarmView::Clear { alarm_type: alarm.alarm_type@ },
        }
    }
}

/// A field that is a text where it is there.
pub open spec fn text_field(fields: Seq<(Seq<char>, JsonView)>, key: Seq<char>) -> Result<
    Option<Seq<char>>,
    (),
> {
    match JsonView::Object(fields).field(key) {
        None => Ok(None),
        Some(JsonView::Text(text)) => Ok(Some(text)),
        Some(_) => Err(()),
    }
}

/// The alarm that a payload stands for: an empty payload clears the alarm;
/// a JSON object raises it, with `severity` (major if it has none), `text`
/// (the alarm's type if it has none) and `time` (now if it has none); the
/// other fields go with it. None for any other payload, and for a severity or
/// a time that is none.
pub open spec fn alarm_parsed(alarm_type: Seq<char>, payload: Seq<u8>, now: OffsetDateTime) -> Option<
    AlarmView,
> {
    if payload.len() == 0 {
        Some(AlarmView::Clear { alarm_type })
    } else {
        match json_parsed(payload) {
            Some(JsonView::Object(fields)) => match (
                text_field(fields, "severity"@),
                text_field(fields, "text"@),
                text_field(fields, "time"@),
            ) {
                (Ok(severity), Ok(text), Ok(time)) => {
                    let severity = match severity {
                        Some(name) => severity_of_name(name),
                        None => Some(AlarmSeverity::Major),
                    };
                    let time = match time {
                        Some(written) => rfc3339_time(written),
                        None => Some(now),
                    };
                    if severity is Some && time is Some {
                        Some(
                            AlarmView::Create {
                                alarm_type,
                                severity: severity.unwrap(),
                                text: match text {
                                    Some(t) => t,
                                    None => alarm_type,
                                },
                                time: time.unwrap(),
                                fragments: without_field(
                                    without_field(without_field(fields, "severity"@), "text"@),
                                    "time"@,
                                ),
                            },
                        )
                    } else {
                        None
                    }
                },
                _ => None,
            },
            _ => None,
        }
    }
}

fn get_text_field(fields: &Vec<(String, Json)>, key: &str) -> (r: Result<Option<String>, ()>)
    ensures
        match text_field(field_views(fields@), key@) {
            Ok(Some(text)) => r matches Ok(Some(found)) && found@ == text,
            Ok(None) => r matches Ok(None),
            Err(_) => r is Err,
        },
{
    match get_field(fields, key) {
        None => Ok(None),
        Some(Json::Text(text)) => Ok(Some(text.clone())),
        Some(_) => Err(()),
    }
}

impl C8yAlarm {
    /// Reads the alarm of the given type from the payload of a message. The
    /// moment `now` is the time of an alarm that brings none.
    pub fn from_payload(alarm_type: &str, payload: &[u8], now: OffsetDateTime) -> (r: Option<
        C8yAlarm,
    >)
        ensures
            match alarm_parsed(alarm_type@, payload@, now) {
                Some(view) => r matches Some(alarm) && alarm@ == view,
                None => r is None,
            },
    {
        if payload.len() == 0 {
            return Some(
                C8yAlarm::Clear(C8yClearAlarm { alarm_type: alarm_type.to_owned(), source: None }),
            );
        }
        let fields = match Json::parse(payload) {
            Some(Json::Object(fields)) => {
                proof {
                    Json::Object(fields).lemma_view();
                }
                fields
            },
            _ => {
                return None;
            },
        };
        let severity = match get_text_field(&fields, "severity") {
            Ok(severity) => severity,
            Err(_) => {
                return None;
            },
        };
        let text = match get_text_field(&fields, "text") {
            Ok(text) => text,
            Err(_) => {
                return None;
            },
        };
        let time = match get_text_field(&fields, "time") {
            Ok(time) => time,
            Err(_) => {
                return None;
            },
        };
        let severity = match severity {
            Some(name) => match AlarmSeverity::from_name(name.as_str()) {
                Some(severity) => severity,
                None => {
                    return None;
                },
            },
            None => AlarmSeverity::Major,
        };
        let time = match time {
            Some(written) => match parse_rfc3339(written.as_str()) {
                Some(time) => time,
                None => {
                    return None;
                },
            },
            None => now,
        };
        let text = match text {
            Some(text) => text,
            None => alarm_type.to_owned(),
        };
        let fragments = remove_field(
            remove_field(remove_field(fields, "severity"), "text"),
            "time",
        );
        Some(
            C8yAlarm::Create(
                C8yCreateAlarm {
                    alarm_type: alarm_type.to_owned(),
                    source: None,
                    severity,
                    text,
                    time,
                    fragments,
                },
            ),
        )
    }

    /// Reads an alarm from a message on an alarm's topic. None for a message
    /// on another topic.
    pub fn from_message(schema: &MqttSchema, message: &MqttMessage, now: OffsetDateTime) -> (r:
        Option<C8yAlarm>)
        ensures
            match parsed_topic(schema.root@, message.topic@) {
                Ok((_, ChannelView::Alarm(alarm_type))) => match alarm_parsed(
                    alarm_type,
                    message.payload@,
                    now,
                ) {
                    Some(view) => r matches Some(alarm) && alarm@ == view,
                    None => r is None,
                },
                _ => r is None,
            },
    {
        match schema.entity_channel_of(message.topic.name()) {
            Ok((_, Channel::Alarm { alarm_type })) => C8yAlarm::from_payload(
                alarm_type.as_str(),
                message.payload_bytes(),
                now,
            ),
            _ => None,
        }
    }
}

} // verus!
