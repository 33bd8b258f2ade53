//! What a handler does by default with a message that it does not implement.

use std::ops::ControlFlow;
use vstd::prelude::*;
use vstd::string::StringExecFns;
use crate::error::{Error, ResponseError, METHOD_NOT_FOUND};
use crate::text::{has_optional_prefix, is_optional_method};

verus! {

/// The start of the message that answers a request of an unknown method; the
/// method follows it.
pub open spec fn no_such_method_prefix() -> Seq<char> {
    "No such method: "@
}

/// The start of the protocol error on a notification that nothing handles;
/// the method follows it.
pub open spec fn unhandled_notification_prefix() -> Seq<char> {
    "Unhandled notification: "@
}

/// Whether a result is the default for a notification of the given method
/// that nothing handles: to continue where the method is optional, else to
/// break with a protocol error that names the method.
pub open spec fn is_notification_fallback(
    method: Seq<char>,
    flow: ControlFlow<Result<(), Error>>,
) -> bool {
    if is_optional_method(method) {
        flow == ControlFlow::<Result<(), Error>, ()>::Continue(())
    } else {
        &&& flow matches ControlFlow::Break(Err(Error::Protocol(message)))
        &&& message@ == unhandled_notification_prefix() + method
    }
}

/// The results that a notification handler can return.
pub trait NotifyResult: Sized {
    /// The result for a notification of the given method that nothing
    /// handles.
    fn fallback(method: &str) -> Self;
}

impl NotifyResult for ControlFlow<Result<(), Error>> {
    /// Methods that begin with `$/` are optional: such a notification is
    /// dropped. Any other ends the main loop with a protocol error.
    fn fallback(method: &str) -> (flow: Self)
        ensures
            is_notification_fallback(method@, flow),
    {
        if has_optional_prefix(method) {
            ControlFlow::Continue(())
        } else {
            ControlFlow::Break(
                Err(Error::Protocol(String::from_str("Unhandled notification: ").concat(method))),
            )
        }
    }
}

/// The error that answers a request whose method nothing handles.
pub fn method_not_found(method: &str) -> (error: ResponseError)
    ensures
        error.code == METHOD_NOT_FOUND,
        error.message@ == no_such_method_prefix() + method@,
        error.data is None,
{
    ResponseError {
        code: METHOD_NOT_FOUND,
        message: String::from_str("No such method: ").concat(method),
        data: None,
    }
}

} // verus!
