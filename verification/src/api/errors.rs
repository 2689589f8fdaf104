//! The errors the web API answers with: an HTTP status, a machine-readable
//! code and a message.
use crate::adb_device::commands::AdbError;
use crate::text::string_from;
use vstd::prelude::*;

verus! {

/// The machine-readable kind of an API error.
#[derive(Clone, Copy, Debug, PartialEq, Eq, Structural)]
pub enum ErrorCode {
    InternalError,
    DatabaseError,
    IoError,
    AdbError,
    NetworkError,
    HttpClientError,
    SoundCloudError,
    BadRequest,
    InvalidProxyUrl,
    EmptyUrl,
    NotFound,
    TrackNotFound,
    FileNotFound,
    DeviceNotFound,
    Conflict,
    AlreadyProcessing,
}

/// HTTP 400 Bad Request.
pub const STATUS_BAD_REQUEST: u16 = 400;

/// HTTP 404 Not Found.
pub const STATUS_NOT_FOUND: u16 = 404;

/// HTTP 409 Conflict.
pub const STATUS_CONFLICT: u16 = 409;

/// HTTP 500 Internal Server Error.
pub const STATUS_INTERNAL_SERVER_ERROR: u16 = 500;

/// An error answered to a client: the HTTP status, the code and the message.
#[derive(Debug)]
pub struct ApiError {
    pub status: u16,
    pub code: ErrorCode,
    pub message: String,
}

impl ApiError {
    /// An error with the given status, code and message.
    pub fn new(status: u16, code: ErrorCode, message: String) -> (r: Self)
        ensures
            r.status == status,
            r.code == code,
            r.message == message,
    {
        ApiError { status, code, message }
    }

    /// The same error with another code.
    pub fn with_code(self, code: ErrorCode) -> (r: Self)
        ensures
            r.status == self.status,
            r.code == code,
            r.message == self.message,
    {
        ApiError { code, ..self }
    }

    /// A 400 error with the code `BadRequest`.
    pub fn bad_request(message: String) -> (r: Self)
        ensures
            r.status == STATUS_BAD_REQUEST,
            r.code == ErrorCode::BadRequest,
            r.message == message,
    {
        Self::new(STATUS_BAD_REQUEST, ErrorCode::BadRequest, message)
    }

    /// A 500 error with the code `InternalError`.
    pub fn internal(message: String) -> (r: Self)
        ensures
            r.status == STATUS_INTERNAL_SERVER_ERROR,
            r.code == ErrorCode::InternalError,
            r.message == message,
    {
        Self::new(STATUS_INTERNAL_SERVER_ERROR, ErrorCode::InternalError, message)
    }

    /// A 404 error with the code `NotFound`.
    pub fn not_found(message: String) -> (r: Self)
        ensures
            r.status == STATUS_NOT_FOUND,
            r.code == ErrorCode::NotFound,
            r.message == message,
    {
        Self::new(STATUS_NOT_FOUND, ErrorCode::NotFound, message)
    }

    /// A 409 error with the code `Conflict`.
    pub fn conflict(message: String) -> (r: Self)
        ensures
            r.status == STATUS_CONFLICT,
            r.code == ErrorCode::Conflict,
            r.message == message,
    {
        Self::new(STATUS_CONFLICT, ErrorCode::Conflict, message)
    }

    /// The answer to a failure of `adb`: a sync already running is a
    /// conflict, a missing binary or another failure an internal error.
    pub fn from_adb(err: AdbError) -> (r: Self)
        ensures
            err is AlreadyInProgress ==> r.status == STATUS_CONFLICT && r.code == ErrorCode::AlreadyProcessing
                && r.message@ == "Device is currently syncing"@,
            err is NotAvailable ==> r.status == STATUS_INTERNAL_SERVER_ERROR && r.code == ErrorCode::AdbError
                && r.message@ == "ADB binary not found in PATH"@,
            err is Other ==> r.status == STATUS_INTERNAL_SERVER_ERROR && r.code == ErrorCode::AdbError
                && r.message == err->Other_0,
    {
        match err {
            AdbError::AlreadyInProgress => Self::new(
                STATUS_CONFLICT,
                ErrorCode::AlreadyProcessing,
                string_from("Device is currently syncing"),
            ),
            AdbError::NotAvailable => Self::new(
                STATUS_INTERNAL_SERVER_ERROR,
                ErrorCode::AdbError,
                string_from("ADB binary not found in PATH"),
            ),
            AdbError::Other(m) => Self::new(STATUS_INTERNAL_SERVER_ERROR, ErrorCode::AdbError, m),
        }
    }

    /// The answer to a failed file operation: a 500 error with the code
    /// `IoError`.
    pub fn from_io(message: String) -> (r: Self)
        ensures
            r.status == STATUS_INTERNAL_SERVER_ERROR,
            r.code == ErrorCode::IoError,
            r.message == message,
    {
        Self::new(STATUS_INTERNAL_SERVER_ERROR, ErrorCode::IoError, message)
    }

    /// The answer to a failed request to another service: a 400 error with
    /// the code `NetworkError`.
    pub fn from_network(message: String) -> (r: Self)
        ensures
            r.status == STATUS_BAD_REQUEST,
            r.code == ErrorCode::NetworkError,
            r.message == message,
    {
        Self::new(STATUS_BAD_REQUEST, ErrorCode::NetworkError, message)
    }

    /// The answer to a failed SoundCloud request: a 400 error with the code
    /// `SoundCloudError`.
    pub fn from_soundcloud(message: String) -> (r: Self)
        ensures
            r.status == STATUS_BAD_REQUEST,
            r.code == ErrorCode::SoundCloudError,
            r.message == message,
    {
        Self::new(STATUS_BAD_REQUEST, ErrorCode::SoundCloudError, message)
    }

    /// The answer to a failed backup: a 400 error with the code
    /// `DatabaseError`.
    pub fn from_backup(message: String) -> (r: Self)
        ensures
            r.status == STATUS_BAD_REQUEST,
            r.code == ErrorCode::DatabaseError,
            r.message == message,
    {
        Self::new(STATUS_BAD_REQUEST, ErrorCode::DatabaseError, message)
    }
}

} // verus!
