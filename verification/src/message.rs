//! The messages that a service takes: requests and notifications whose
//! parameters are still raw JSON; and the kinds of message on the wire.

use vstd::prelude::*;

verus! {

/// A JSON value of `serde_json`, carried through unread.
#[verifier::external_type_specification]
#[verifier::external_body]
pub struct ExJsonValue(serde_json::Value);

/// A request id of `lsp_types`, carried through unread.
#[verifier::external_type_specification]
#[verifier::external_body]
pub struct ExNumberOrString(lsp_types::NumberOrString);

/// A JSON value.
pub type JsonValue = serde_json::Value;

/// The id by which a response is matched to its request.
pub type RequestId = lsp_types::NumberOrString;

/// A request of any method.
#[derive(Debug)]
pub struct AnyRequest {
    /// The id that the response must carry.
    pub id: RequestId,
    /// The method to invoke.
    pub method: String,
    /// The parameters of the method.
    pub params: JsonValue,
}

/// A notification of any method.
#[derive(Debug)]
pub struct AnyNotification {
    /// The method to invoke.
    pub method: String,
    /// The parameters of the method.
    pub params: JsonValue,
}

/// The kinds of message on the wire.
#[derive(Debug, Clone, Copy, PartialEq, Eq, Structural)]
pub enum MessageKind {
    /// A request: it has an id and a method, and is owed a response.
    Request,
    /// A notification: it has a method and no id.
    Notification,
    /// A response: it has an id and no method.
    Response,
}

/// The kind of a message, by the fields that it has.
pub open spec fn kind_of(has_id: bool, has_method: bool) -> Option<MessageKind> {
    if has_method {
        if has_id {
            Some(MessageKind::Request)
        } else {
            Some(MessageKind::Notification)
        }
    } else if has_id {
        Some(MessageKind::Response)
    } else {
        None
    }
}

/// Tells the kind of an inbound message by the presence of its `id` and
/// `method` fields. A message with neither is of no kind: it breaks the
/// protocol.
pub fn classify(has_id: bool, has_method: bool) -> (kind: Option<MessageKind>)
    ensures
        kind == kind_of(has_id, has_method),
{
    match (has_id, has_method) {
        (true, true) => Some(MessageKind::Request),
        (false, true) => Some(MessageKind::Notification),
        (true, false) => Some(MessageKind::Response),
        (false, false) => None,
    }
}

} // verus!
