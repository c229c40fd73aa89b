//! Requests and replies of the client daemon's HTTP interface.

use vstd::prelude::*;

verus! {

pub const STATUS_BAD_REQUEST: u16 = 400;

pub const STATUS_UNSUPPORTED_MEDIA_TYPE: u16 = 415;

pub const STATUS_UNPROCESSABLE_ENTITY: u16 = 422;

pub const STATUS_INTERNAL_SERVER_ERROR: u16 = 500;

/// Request to wait until the federation has seen the block at `height`.
#[derive(Clone, Copy, Debug, PartialEq, Eq)]
pub struct WaitBlockHeightPayload {
    pub height: u64,
}

/// A request body that was read as JSON.
pub struct Json<T>(pub T);

impl<T> Json<T> {
    /// The value that the body held.
    pub fn into_inner(self) -> (value: T)
        ensures
            value == self.0,
    {
        self.0
    }
}

/// Why a request body could not be read as the JSON value that was expected.
#[derive(Clone, Copy, Debug, PartialEq, Eq)]
pub enum JsonRejection {
    /// The body is JSON, but not of the expected shape.
    JsonDataError,
    /// The body is not JSON.
    JsonSyntaxError,
    /// The request does not declare its body to be JSON.
    MissingJsonContentType,
    /// Anything else, such as a body that could not be read at all.
    Other,
}

/// The HTTP status that answers a request whose body was rejected.
pub open spec fn spec_rejection_status(rejection: JsonRejection) -> u16 {
    match rejection {
        JsonRejection::JsonDataError => STATUS_UNPROCESSABLE_ENTITY,
        JsonRejection::JsonSyntaxError => STATUS_BAD_REQUEST,
        JsonRejection::MissingJsonContentType => STATUS_UNSUPPORTED_MEDIA_TYPE,
        JsonRejection::Other => STATUS_INTERNAL_SERVER_ERROR,
    }
}

/// The HTTP status that answers a request whose body was rejected.
pub fn rejection_status(rejection: JsonRejection) -> (status: u16)
    ensures
        status == spec_rejection_status(rejection),
{
    match rejection {
        JsonRejection::JsonDataError => STATUS_UNPROCESSABLE_ENTITY,
        JsonRejection::JsonSyntaxError => STATUS_BAD_REQUEST,
        JsonRejection::MissingJsonContentType => STATUS_UNSUPPORTED_MEDIA_TYPE,
        JsonRejection::Other => STATUS_INTERNAL_SERVER_ERROR,
    }
}

/// An error of the client daemon.
#[derive(Clone, Debug, PartialEq, Eq)]
pub enum ClientdError {
    /// The client could not do what was asked; the text says why.
    ClientError(String),
    /// The daemon itself is broken.
    ServerError,
}

impl ClientdError {
    /// The HTTP status that reports this error: a client error is a bad
    /// request, a server error an internal server error.
    pub fn status(&self) -> (status: u16)
        ensures
            status == (match self {
                ClientdError::ClientError(_) => STATUS_BAD_REQUEST,
                ClientdError::ServerError => STATUS_INTERNAL_SERVER_ERROR,
            }),
    {
        match self {
            ClientdError::ClientError(_) => STATUS_BAD_REQUEST,
            ClientdError::ServerError => STATUS_INTERNAL_SERVER_ERROR,
        }
    }
}

} // verus!
