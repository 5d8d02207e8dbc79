//! The errors of the store and of the HTTP API, and how the API answers them.
use vstd::prelude::*;
use vstd::string::*;

verus! {

/// A failure of a store that keeps its records elsewhere. Each variant holds the
/// text of the underlying error.
#[derive(Debug, Clone, PartialEq, Eq)]
pub enum StorageError {
    /// The database refused or failed a statement.
    Db(String),
    /// A record could not be encoded or decoded.
    Serde(String),
}

/// The text of a storage error.
pub open spec fn storage_message(e: StorageError) -> Seq<char> {
    match e {
        StorageError::Db(m) => "db error: "@ + m@,
        StorageError::Serde(m) => "serde error: "@ + m@,
    }
}

impl StorageError {
    /// The text of the error: the kind of failure, then the underlying message.
    pub fn message(&self) -> (out: String)
        ensures
            out@ == storage_message(*self),
    {
        match self {
            StorageError::Db(m) => {
                let mut out = String::from_str("db error: ");
                out.append(m.as_str());
                out
            },
            StorageError::Serde(m) => {
                let mut out = String::from_str("serde error: ");
                out.append(m.as_str());
                out
            },
        }
    }
}

/// The status codes that the API answers with.
pub const STATUS_OK: u16 = 200;
pub const STATUS_NO_CONTENT: u16 = 204;
pub const STATUS_BAD_REQUEST: u16 = 400;
pub const STATUS_NOT_FOUND: u16 = 404;
pub const STATUS_INTERNAL_SERVER_ERROR: u16 = 500;

/// An error of a request to the API.
#[derive(Debug, Clone, PartialEq, Eq)]
pub enum ApiError {
    NotFound,
    BadRequest(String),
    Storage(StorageError),
}

impl From<StorageError> for ApiError {
    fn from(e: StorageError) -> (out: ApiError) {
        ApiError::Storage(e)
    }
}

impl vstd::std_specs::convert::FromSpecImpl<StorageError> for ApiError {
    open spec fn obeys_from_spec() -> bool {
        true
    }

    open spec fn from_spec(e: StorageError) -> ApiError {
        ApiError::Storage(e)
    }
}

/// The status code that answers an error.
pub open spec fn api_status(e: ApiError) -> u16 {
    match e {
        ApiError::NotFound => STATUS_NOT_FOUND,
        ApiError::BadRequest(_) => STATUS_BAD_REQUEST,
        ApiError::Storage(_) => STATUS_INTERNAL_SERVER_ERROR,
    }
}

/// The message in the body that answers an error.
pub open spec fn api_message(e: ApiError) -> Seq<char> {
    match e {
        ApiError::NotFound => "not found"@,
        ApiError::BadRequest(m) => m@,
        ApiError::Storage(s) => storage_message(s),
    }
}

impl ApiError {
    /// The status code of the response to this error.
    pub fn status_code(&self) -> (code: u16)
        ensures
            code == api_status(*self),
    {
        match self {
            ApiError::NotFound => STATUS_NOT_FOUND,
            ApiError::BadRequest(_) => STATUS_BAD_REQUEST,
            ApiError::Storage(_) => STATUS_INTERNAL_SERVER_ERROR,
        }
    }

    /// The message of the response to this error.
    pub fn message(&self) -> (out: String)
        ensures
            out@ == api_message(*self),
    {
        match self {
            ApiError::NotFound => String::from_str("not found"),
            ApiError::BadRequest(m) => m.clone(),
            ApiError::Storage(e) => e.message(),
        }
    }

    /// The response to this error: its status code and message.
    pub fn into_response(self) -> (out: (u16, String))
        ensures
            out.0 == api_status(self),
            out.1@ == api_message(self),
    {
        let code = self.status_code();
        let message = self.message();
        (code, message)
    }
}

} // verus!
