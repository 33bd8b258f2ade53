//! Error values: the error object that answers a request on the wire, its
//! reserved codes, and the errors that end a connection.

use serde_json::Error as JsonError;
use vstd::prelude::*;
use crate::codec::FrameError;

verus! {

/// Invalid JSON was received.
pub const PARSE_ERROR: i32 = -32700;

/// The JSON sent is not a valid request object.
pub const INVALID_REQUEST: i32 = -32600;

/// The method does not exist or is not available.
pub const METHOD_NOT_FOUND: i32 = -32601;

/// Invalid method parameters.
pub const INVALID_PARAMS: i32 = -32602;

/// Internal error of the endpoint.
pub const INTERNAL_ERROR: i32 = -32603;

/// A request arrived before the server got its `initialize` request.
pub const SERVER_NOT_INITIALIZED: i32 = -32002;

/// A request failed although it was well formed.
pub const REQUEST_FAILED: i32 = -32803;

/// The client cancelled the request and the server noticed.
pub const REQUEST_CANCELLED: i32 = -32800;

/// The error object of a response.
#[derive(Debug)]
pub struct ResponseError {
    /// One of the reserved codes, or a code of the application.
    pub code: i32,
    /// A short description of the error.
    pub message: String,
    /// Further information about the error, if any.
    pub data: Option<serde_json::Value>,
}

/// An input or output error of std, carried through unread.
#[verifier::external_type_specification]
#[verifier::external_body]
pub struct ExIoError(std::io::Error);

/// An error of `serde_json`, carried through unread.
#[verifier::external_type_specification]
#[verifier::external_body]
pub struct ExJsonError(JsonError);

/// Errors that end a connection or a call into the peer.
#[derive(Debug)]
#[non_exhaustive]
pub enum Error {
    /// The service main loop stopped.
    ServiceStopped,
    /// No message can be taken from the bytes that the peer sent.
    Frame(FrameError),
    /// Reading from the peer or writing to it failed.
    Io(std::io::Error),
    /// A message of the peer is no JSON, or not of the shape that is due.
    Deserialize(JsonError),
    /// The peer broke the protocol.
    Protocol(String),
    /// The peer replied with an error.
    Response(ResponseError),
    /// No handler took the message.
    Routing(String),
}

} // verus!
