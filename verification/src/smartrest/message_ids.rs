//! The catalog of SmartREST template codes. Every message that the gateway
//! writes or reads takes its code from here.

use vstd::prelude::*;

verus! {

// Messages sent to the cloud.
pub const DEVICE_CREATION: usize = 100;

pub const CHILD_DEVICE_CREATION: usize = 101;

pub const SERVICE_CREATION: usize = 102;

pub const SERVICE_STATUS_UPDATE: usize = 104;

pub const SET_SUPPORTED_OPERATIONS: usize = 114;

pub const SET_FIRMWARE: usize = 115;

pub const SET_SOFTWARE_LIST: usize = 116;

pub const SET_REQUIRED_AVAILABILITY: usize = 117;

pub const SET_SUPPORTED_LOGS: usize = 118;

pub const SET_SUPPORTED_CONFIGURATIONS: usize = 119;

pub const SET_CURRENTLY_INSTALLED_CONFIGURATION: usize = 120;

pub const SET_DEVICE_PROFILE_THAT_IS_BEING_APPLIED: usize = 121;

pub const CREATE_CRITICAL_ALARM: usize = 301;

pub const CREATE_MAJOR_ALARM: usize = 302;

pub const CREATE_MINOR_ALARM: usize = 303;

pub const CREATE_WARNING_ALARM: usize = 304;

pub const CLEAR_EXISTING_ALARM: usize = 306;

pub const CREATE_BASIC_EVENT: usize = 400;

pub const GET_PENDING_OPERATIONS: usize = 500;

pub const SET_OPERATION_TO_EXECUTING: usize = 501;

pub const SET_OPERATION_TO_FAILED: usize = 502;

pub const SET_OPERATION_TO_SUCCESSFUL: usize = 503;

// Messages received from the cloud.
pub const RESTART: usize = 510;

pub const COMMAND: usize = 511;

pub const FIRMWARE: usize = 515;

pub const LOG_FILE_REQUEST: usize = 522;

pub const DOWNLOAD_CONFIG_FILE: usize = 524;

pub const UPLOAD_CONFIG_FILE: usize = 526;

pub const DEVICE_PROFILE: usize = 527;

pub const SOFTWARE_UPDATE: usize = 528;

} // verus!
