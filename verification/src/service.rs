//! The service abstraction that handlers and middleware share.

use std::ops::ControlFlow;
use vstd::prelude::*;
use crate::error::Error;
use crate::message::{AnyNotification, AnyRequest};

verus! {

/// A service that takes the inbound traffic of one connection: requests,
/// notifications and internal events.
///
/// Each operation comes with a relation that says what the operation may do:
/// it relates the service before the call, the message, the service after the
/// call and the result. A middleware states its own relations over those of
/// the service it wraps.
pub trait LspService: Sized {
    /// The pending reply to a request.
    type Future;

    /// The internal events that the service takes.
    type Event;

    /// What `call` may do.
    open spec fn call_spec(&self, req: AnyRequest, after: Self, fut: Self::Future) -> bool {
        true
    }

    /// What `notify` may do.
    open spec fn notify_spec(
        &self,
        notif: AnyNotification,
        after: Self,
        flow: ControlFlow<Result<(), Error>>,
    ) -> bool {
        true
    }

    /// What `emit` may do.
    open spec fn emit_spec(
        &self,
        event: Self::Event,
        after: Self,
        flow: ControlFlow<Result<(), Error>>,
    ) -> bool {
        true
    }

    /// Takes a request and hands out its pending reply.
    fn call(&mut self, req: AnyRequest) -> (fut: Self::Future)
        ensures
            old(self).call_spec(req, *final(self), fut),
    ;

    /// Takes a notification. `Break` ends the main loop with the result held.
    fn notify(&mut self, notif: AnyNotification) -> (flow: ControlFlow<Result<(), Error>>)
        ensures
            old(self).notify_spec(notif, *final(self), flow),
    ;

    /// Takes an internal event. `Break` ends the main loop with the result held.
    fn emit(&mut self, event: Self::Event) -> (flow: ControlFlow<Result<(), Error>>)
        ensures
            old(self).emit_spec(event, *final(self), flow),
    ;
}

} // verus!
