//! What holds of the lifecycle in every state and over every run of inbound
//! messages.

use std::ops::ControlFlow;
use vstd::prelude::*;
use crate::error::Error;
use crate::message::AnyNotification;
use crate::service::LspService;
use crate::methods::{
    exit_name, initialize_name, initialized_name, lemma_names_distinct, shutdown_name,
};
use crate::server::{Lifecycle, NotificationVerdict, RequestVerdict, State};

verus! {

/// An inbound message as the lifecycle reads it: whether it is a request
/// (else a notification), and its method.
pub type Inbound = (bool, Seq<char>);

/// The state after one inbound message.
pub open spec fn step(state: State, message: Inbound) -> State {
    if message.0 {
        state.after_request(message.1)
    } else {
        state.after_notification(message.1)
    }
}

/// The state after a run of inbound messages, taken in order.
pub open spec fn run(state: State, messages: Seq<Inbound>) -> State
    decreases messages.len(),
{
    if messages.len() == 0 {
        state
    } else {
        run(step(state, messages[0]), messages.drop_first())
    }
}

/// How many requests of the given method reach the wrapped service over a
/// run of inbound messages.
pub open spec fn forwarded_requests(state: State, messages: Seq<Inbound>, method: Seq<char>) -> nat
    decreases messages.len(),
{
    if messages.len() == 0 {
        0
    } else {
        let first = messages[0];
        let here: nat = if first.0 && first.1 == method && state.request_verdict(first.1)
            == RequestVerdict::Forward {
            1
        } else {
            0
        };
        here + forwarded_requests(step(state, first), messages.drop_first(), method)
    }
}

/// The whole table of the lifecycle, state by state: what becomes of the
/// `initialize` and `shutdown` requests and of any other request, of the
/// `initialized` and `exit` notifications and of any other notification, and
/// the state that follows where it changes.
pub proof fn lemma_lifecycle_table(other: Seq<char>)
    requires
        other != initialize_name(),
        other != shutdown_name(),
        other != initialized_name(),
        other != exit_name(),
    ensures
        // A server that is not initialized takes `initialize` and nothing
        // else.
        State::Uninitialized.request_verdict(initialize_name()) == RequestVerdict::Forward,
        State::Uninitialized.after_request(initialize_name()) == State::Initializing,
        State::Uninitialized.request_verdict(shutdown_name()) == RequestVerdict::NotInitialized,
        State::Uninitialized.request_verdict(other) == RequestVerdict::NotInitialized,
        State::Uninitialized.notification_verdict(initialized_name())
            == NotificationVerdict::Unexpected,
        State::Uninitialized.notification_verdict(exit_name()) == NotificationVerdict::Exit,
        State::Uninitialized.notification_verdict(other) == NotificationVerdict::Ignore,
        // A server that is initializing waits for `initialized`.
        State::Initializing.request_verdict(initialize_name())
            == RequestVerdict::AlreadyInitialized,
        State::Initializing.request_verdict(shutdown_name()) == RequestVerdict::NotInitialized,
        State::Initializing.request_verdict(other) == RequestVerdict::NotInitialized,
        State::Initializing.notification_verdict(initialized_name())
            == NotificationVerdict::BecomeReady,
        State::Initializing.after_notification(initialized_name()) == State::Ready,
        State::Initializing.notification_verdict(exit_name()) == NotificationVerdict::Exit,
        State::Initializing.notification_verdict(other) == NotificationVerdict::Ignore,
        // A server that is ready takes everything but a second `initialize`
        // and a second `initialized`.
        State::Ready.request_verdict(initialize_name()) == RequestVerdict::AlreadyInitialized,
        State::Ready.request_verdict(shutdown_name()) == RequestVerdict::Forward,
        State::Ready.after_request(shutdown_name()) == State::ShuttingDown,
        State::Ready.request_verdict(other) == RequestVerdict::Forward,
        State::Ready.after_request(other) == State::Ready,
        State::Ready.notification_verdict(initialized_name()) == NotificationVerdict::Unexpected,
        State::Ready.notification_verdict(exit_name()) == NotificationVerdict::Exit,
        State::Ready.notification_verdict(other) == NotificationVerdict::Forward,
        // A server that is shutting down takes notifications only.
        State::ShuttingDown.request_verdict(initialize_name())
            == RequestVerdict::AlreadyInitialized,
        State::ShuttingDown.request_verdict(shutdown_name()) == RequestVerdict::ShuttingDown,
        State::ShuttingDown.request_verdict(other) == RequestVerdict::ShuttingDown,
        State::ShuttingDown.notification_verdict(initialized_name())
            == NotificationVerdict::Unexpected,
        State::ShuttingDown.notification_verdict(exit_name()) == NotificationVerdict::Exit,
        State::ShuttingDown.notification_verdict(other) == NotificationVerdict::Forward,
        // The codes that refusals answer with.
        RequestVerdict::NotInitialized.code() == -32002,
        RequestVerdict::AlreadyInitialized.code() == -32600,
        RequestVerdict::ShuttingDown.code() == -32600,
{
    lemma_names_distinct();
}

/// The `exit` notification ends the main loop with success in every state,
/// and leaves the state as it was.
pub proof fn lemma_exit_in_every_state(state: State)
    ensures
        state.notification_verdict(exit_name()) == NotificationVerdict::Exit,
        state.after_notification(exit_name()) == state,
{
}

/// Whatever the wrapped service and the state, the middleware answers the
/// `exit` notification by ending the main loop with success, and neither its
/// state nor the wrapped service changes.
pub proof fn lemma_exit_breaks_with_success<S: LspService>(
    before: Lifecycle<S>,
    notif: AnyNotification,
    after: Lifecycle<S>,
    flow: ControlFlow<Result<(), Error>>,
)
    requires
        notif.method@ == exit_name(),
        before.notify_spec(notif, after, flow),
    ensures
        flow == ControlFlow::<Result<(), Error>, ()>::Break(Ok(())),
        after.same_as(before),
{
}

/// The `initialized` notification is in its turn only while the server is
/// initializing; in every other state it ends the main loop with a protocol
/// error.
pub proof fn lemma_initialized_only_in_turn(state: State)
    ensures
        state.notification_verdict(initialized_name()) == if state == State::Initializing {
            NotificationVerdict::BecomeReady
        } else {
            NotificationVerdict::Unexpected
        },
{
    lemma_names_distinct();
}

/// A request reaches the wrapped service in two cases only: `initialize` at
/// a server not initialized, and any other request at a server that is
/// ready.
pub proof fn lemma_request_forwarded_iff_in_turn(state: State, method: Seq<char>)
    ensures
        state.request_verdict(method) == RequestVerdict::Forward <==> (state
            == State::Uninitialized && method == initialize_name()) || (state == State::Ready
            && method != initialize_name()),
{
}

/// A request that is refused leaves the state as it was.
pub proof fn lemma_refused_request_keeps_state(state: State, method: Seq<char>)
    requires
        state.request_verdict(method) != RequestVerdict::Forward,
    ensures
        state.after_request(method) == state,
{
    lemma_names_distinct();
}

/// A notification reaches the wrapped service only at a server that is ready
/// or shutting down, and never changes the state then.
pub proof fn lemma_notification_forwarded_when_ready(state: State, method: Seq<char>)
    requires
        state.notification_verdict(method) == NotificationVerdict::Forward,
    ensures
        state == State::Ready || state == State::ShuttingDown,
        state.after_notification(method) == state,
{
}

/// One inbound message leaves the state where it is or moves it to the next
/// one: the lifecycle never goes back and skips no state.
pub proof fn lemma_step_moves_forward(state: State, message: Inbound)
    ensures
        state.rank() <= step(state, message).rank() <= state.rank() + 1,
{
}

/// Over a run of inbound messages the lifecycle never goes back.
pub proof fn lemma_run_moves_forward(state: State, messages: Seq<Inbound>)
    ensures
        state.rank() <= run(state, messages).rank(),
    decreases messages.len(),
{
    if messages.len() > 0 {
        lemma_step_moves_forward(state, messages[0]);
        lemma_run_moves_forward(step(state, messages[0]), messages.drop_first());
    }
}

/// Over a run of inbound messages at most one `initialize` request reaches
/// the wrapped service, and none once the server has left its first state.
pub proof fn lemma_initialize_forwarded_once(state: State, messages: Seq<Inbound>)
    ensures
        forwarded_requests(state, messages, initialize_name()) <= 1,
        state != State::Uninitialized ==> forwarded_requests(state, messages, initialize_name())
            == 0,
    decreases messages.len(),
{
    if messages.len() > 0 {
        lemma_initialize_forwarded_once(step(state, messages[0]), messages.drop_first());
        lemma_step_moves_forward(state, messages[0]);
    }
}

/// Over a run of inbound messages at most one `shutdown` request reaches the
/// wrapped service, and none once the server is shutting down.
pub proof fn lemma_shutdown_forwarded_once(state: State, messages: Seq<Inbound>)
    ensures
        forwarded_requests(state, messages, shutdown_name()) <= 1,
        state == State::ShuttingDown ==> forwarded_requests(state, messages, shutdown_name())
            == 0,
    decreases messages.len(),
{
    lemma_names_distinct();
    if messages.len() > 0 {
        lemma_shutdown_forwarded_once(step(state, messages[0]), messages.drop_first());
        lemma_step_moves_forward(state, messages[0]);
    }
}

/// The run of a session that goes by the book: `initialize`, `initialized`,
/// `shutdown`, with any other requests and notifications in between while
/// the server is ready, takes the lifecycle through its four states in
/// order.
pub proof fn lemma_session_by_the_book(work: Seq<Inbound>)
    requires
        forall|i: int|
            0 <= i < work.len() ==> {
                &&& (#[trigger] work[i]).1 != initialize_name()
                &&& work[i].1 != shutdown_name()
                &&& work[i].1 != initialized_name()
            },
    ensures
        step(State::Uninitialized, (true, initialize_name())) == State::Initializing,
        step(State::Initializing, (false, initialized_name())) == State::Ready,
        run(State::Ready, work) == State::Ready,
        step(State::Ready, (true, shutdown_name())) == State::ShuttingDown,
    decreases work.len(),
{
    lemma_names_distinct();
    if work.len() > 0 {
        let rest = work.drop_first();
        assert forall|i: int| 0 <= i < rest.len() implies {
            &&& (#[trigger] rest[i]).1 != initialize_name()
            &&& rest[i].1 != shutdown_name()
            &&& rest[i].1 != initialized_name()
        } by {}
        lemma_session_by_the_book(rest);
    }
}

} // verus!
