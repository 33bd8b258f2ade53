//! A way for services to say which messages they take, for layers that compose
//! several services and have to decide where a message goes.

use vstd::prelude::*;

verus! {

/// Says whether a service can handle a message of a given type.
pub trait CanHandle<Message> {
    /// Returns `true` if the service can handle the given message.
    fn can_handle(&self, e: &Message) -> bool;
}

} // verus!
