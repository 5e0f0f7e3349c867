//! What the actors ask of the cloud over HTTP.

use vstd::prelude::*;

verus! {

/// A log to upload as a binary.
#[derive(Debug)]
pub struct UploadLogBinary {
    pub log_type: String,
    pub log_content: String,
    pub child_device_id: Option<String>,
}

/// A configuration file to upload.
#[derive(Debug)]
pub struct UploadConfigFile {
    pub config_path: String,
    pub config_type: String,
    pub child_device_id: Option<String>,
}

/// The id under which the cloud keeps an event.
pub type EventId = String;

/// A request to the cloud.
#[derive(Debug)]
pub enum C8YRestRequest {
    UploadLogBinary(UploadLogBinary),
    UploadConfigFile(UploadConfigFile),
}

/// The cloud's answer.
#[derive(Debug)]
pub enum C8YRestResponse {
    EventId(EventId),
    Unit,
}

impl C8YRestRequest {
    /// The device that a request is for; none for the main device.
    pub fn child_device_id(&self) -> (r: Option<&String>)
        ensures
            r == match self {
                C8YRestRequest::UploadLogBinary(request) => match request.child_device_id {
                    Some(id) => Some(&id),
                    None => None,
                },
                C8YRestRequest::UploadConfigFile(request) => match request.child_device_id {
                    Some(id) => Some(&id),
                    None => None,
                },
            },
    {
        match self {
            C8YRestRequest::UploadLogBinary(request) => request.child_device_id.as_ref(),
            C8YRestRequest::UploadConfigFile(request) => request.child_device_id.as_ref(),
        }
    }
}

} // verus!
