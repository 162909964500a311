//! The error taxonomy of the audio module and the error envelope.
use crate::error_codes::{BAD_REQUEST, INTERNAL_ERROR, NOT_FOUND};
use vstd::prelude::*;
use vstd::string::StringExecFns;

verus! {

/// The three classes of failure, each with its own status code.
#[derive(Debug, Clone, Copy, PartialEq, Eq, Structural)]
pub enum ErrorKind {
    /// Client-correctable input; safe to echo back.
    Validation,
    /// An unknown module, device or session group.
    NotFound,
    /// The audio backend or the operating system failed.
    BackendFailure,
}

/// The status code that stands for each class of failure.
pub open spec fn kind_code(kind: ErrorKind) -> u16 {
    match kind {
        ErrorKind::Validation => BAD_REQUEST,
        ErrorKind::NotFound => NOT_FOUND,
        ErrorKind::BackendFailure => INTERNAL_ERROR,
    }
}

impl ErrorKind {
    /// The status code of this class of failure.
    pub fn status_code(self) -> (r: u16)
        ensures
            r == kind_code(self),
    {
        match self {
            ErrorKind::Validation => BAD_REQUEST,
            ErrorKind::NotFound => NOT_FOUND,
            ErrorKind::BackendFailure => INTERNAL_ERROR,
        }
    }
}

/// A failure reported by the audio module or its backend.
#[derive(Debug, Clone)]
pub enum AudioError {
    /// The operating system's component runtime could not be initialised.
    ComInitFailed { detail: String },
    /// No output device has the given id.
    DeviceNotFound { device_id: String },
    /// The session manager of a device could not be obtained.
    SessionManagerFailed { detail: String },
    /// The sessions of a device could not be enumerated.
    SessionEnumFailed { detail: String },
    /// No session of the device belongs to the requested group.
    NoSessionsFound,
    /// The device id of a request is empty.
    InvalidDeviceId,
    /// The request body is malformed or out of range.
    InvalidRequestBody { message: String },
    /// Any other error of the operating system's API.
    WindowsError { detail: String },
    /// A device id that is not valid UTF-16.
    Utf16Error { detail: String },
}

impl AudioError {
    /// The class of this failure.
    pub open spec fn kind_spec(&self) -> ErrorKind {
        match self {
            AudioError::InvalidDeviceId => ErrorKind::Validation,
            AudioError::InvalidRequestBody { .. } => ErrorKind::Validation,
            AudioError::DeviceNotFound { .. } => ErrorKind::NotFound,
            AudioError::NoSessionsFound => ErrorKind::NotFound,
            _ => ErrorKind::BackendFailure,
        }
    }

    /// The human-readable description of this failure.
    pub open spec fn describe_spec(&self) -> Seq<char> {
        match self {
            AudioError::ComInitFailed { .. } => "COM initialization failed"@,
            AudioError::DeviceNotFound { device_id } => "Device not found: "@ + device_id@,
            AudioError::SessionManagerFailed { .. } => "Session manager failed"@,
            AudioError::SessionEnumFailed { .. } => "Session enumeration failed"@,
            AudioError::NoSessionsFound => "No sessions found"@,
            AudioError::InvalidDeviceId => "Invalid device ID"@,
            AudioError::InvalidRequestBody { message } => message@,
            AudioError::WindowsError { detail } => "Windows API error: "@ + detail@,
            AudioError::Utf16Error { detail } => "UTF-16 conversion error: "@ + detail@,
        }
    }

    /// The class of this failure.
    pub fn kind(&self) -> (r: ErrorKind)
        ensures
            r == self.kind_spec(),
    {
        match self {
            AudioError::InvalidDeviceId => ErrorKind::Validation,
            AudioError::InvalidRequestBody { .. } => ErrorKind::Validation,
            AudioError::DeviceNotFound { .. } => ErrorKind::NotFound,
            AudioError::NoSessionsFound => ErrorKind::NotFound,
            _ => ErrorKind::BackendFailure,
        }
    }

    /// The human-readable description of this failure.
    pub fn describe(&self) -> (r: String)
        ensures
            r@ == self.describe_spec(),
    {
        match self {
            AudioError::ComInitFailed { .. } => String::from_str("COM initialization failed"),
            AudioError::DeviceNotFound { device_id } => {
                String::from_str("Device not found: ").concat(device_id.as_str())
            },
            AudioError::SessionManagerFailed { .. } => String::from_str("Session manager failed"),
            AudioError::SessionEnumFailed { .. } => String::from_str("Session enumeration failed"),
            AudioError::NoSessionsFound => String::from_str("No sessions found"),
            AudioError::InvalidDeviceId => String::from_str("Invalid device ID"),
            AudioError::InvalidRequestBody { message } => message.clone(),
            AudioError::WindowsError { detail } => {
                String::from_str("Windows API error: ").concat(detail.as_str())
            },
            AudioError::Utf16Error { detail } => {
                String::from_str("UTF-16 conversion error: ").concat(detail.as_str())
            },
        }
    }
}

/// The details that an error envelope may carry for a failure: only
/// validation failures are echoed; backend detail stays on the server.
pub open spec fn details_spec(error: AudioError) -> Option<Seq<char>> {
    if error.kind_spec() == ErrorKind::Validation {
        Some(error.describe_spec())
    } else {
        None
    }
}

/// The status code of a failure, and the details that may be sent with it.
pub fn error_response_from_anyhow(error: &AudioError) -> (r: (u16, Option<String>))
    ensures
        r.0 == kind_code(error.kind_spec()),
        r.1 is Some == details_spec(*error) is Some,
        r.1 is Some ==> r.1.unwrap()@ == details_spec(*error).unwrap(),
{
    let kind = error.kind();
    let details = match kind {
        ErrorKind::Validation => Some(error.describe()),
        _ => None,
    };
    (kind.status_code(), details)
}

/// The error envelope sent back to a client.
#[derive(Debug, Clone)]
pub struct ErrorResponse {
    pub code: u16,
    pub message: String,
    pub details: Option<String>,
}

/// Builds an error envelope from its three parts.
pub fn create_error_response(code: u16, message: &str, details: Option<String>) -> (r:
    ErrorResponse)
    ensures
        r.code == code,
        r.message@ == message@,
        r.details == details,
{
    ErrorResponse { code, message: String::from_str(message), details }
}

} // verus!
