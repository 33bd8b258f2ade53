//! The lifecycle of a language server, and the middleware that holds a
//! service to it.
//!
//! A server starts uninitialized. The `initialize` request, then the
//! `initialized` notification make it ready; the `shutdown` request ends its
//! work; the `exit` notification ends the main loop in every state. What
//! arrives out of turn is answered with an error, ignored, or ends the
//! connection, and never reaches the wrapped service.

use std::ops::ControlFlow;
use vstd::prelude::*;
use vstd::string::StringExecFns;
use crate::error::{Error, ResponseError, INVALID_REQUEST, SERVER_NOT_INITIALIZED};
use crate::message::{AnyNotification, AnyRequest};
use crate::methods::{
    exit_method, exit_name, initialize_method, initialize_name, initialized_method,
    initialized_name, lemma_names_distinct, shutdown_method, shutdown_name,
};
use crate::service::LspService;
use crate::text::str_eq;

verus! {

/// Where a server stands in its lifecycle.
#[derive(Debug, Clone, Copy, PartialEq, Eq, Structural)]
pub enum State {
    /// No `initialize` request has arrived.
    Uninitialized,
    /// The `initialize` request was taken; its `initialized` notification has
    /// not arrived.
    Initializing,
    /// The server does its work.
    Ready,
    /// The `shutdown` request was taken.
    ShuttingDown,
}

/// What the lifecycle does with a request.
#[derive(Debug, Clone, Copy, PartialEq, Eq, Structural)]
pub enum RequestVerdict {
    /// The wrapped service takes the request.
    Forward,
    /// Refused: the server is not initialized yet.
    NotInitialized,
    /// Refused: the server was asked to initialize before.
    AlreadyInitialized,
    /// Refused: the server is shutting down.
    ShuttingDown,
}

/// What the lifecycle does with a notification.
#[derive(Debug, Clone, Copy, PartialEq, Eq, Structural)]
pub enum NotificationVerdict {
    /// `exit`: the main loop ends with success.
    Exit,
    /// `initialized` in its turn: the server becomes ready.
    BecomeReady,
    /// `initialized` out of turn: the main loop ends with a protocol error.
    Unexpected,
    /// Dropped: the server is not ready for it.
    Ignore,
    /// The wrapped service takes the notification.
    Forward,
}

/// The message of the error that refuses a request before initialization.
pub open spec fn not_initialized_message() -> Seq<char> {
    "Server is not initialized yet"@
}

/// The message of the error that refuses a second `initialize` request.
pub open spec fn already_initialized_message() -> Seq<char> {
    "Server is already initialized"@
}

/// The message of the error that refuses a request after `shutdown`.
pub open spec fn shutting_down_message() -> Seq<char> {
    "Server is shutting down"@
}

/// The start of the protocol error on an `initialized` notification out of
/// turn; the name of the state follows it.
pub open spec fn unexpected_initialized_prefix() -> Seq<char> {
    "Unexpected initialized notification on state "@
}

impl RequestVerdict {
    /// The code of the error that a refusal answers with.
    pub open spec fn code(self) -> i32 {
        match self {
            RequestVerdict::NotInitialized => SERVER_NOT_INITIALIZED,
            _ => INVALID_REQUEST,
        }
    }

    /// The message of the error that a refusal answers with.
    pub open spec fn message(self) -> Seq<char> {
        match self {
            RequestVerdict::NotInitialized => not_initialized_message(),
            RequestVerdict::AlreadyInitialized => already_initialized_message(),
            _ => shutting_down_message(),
        }
    }

    /// Whether an error object is the one that this refusal answers with.
    pub open spec fn answered_by(self, error: ResponseError) -> bool {
        &&& self != RequestVerdict::Forward
        &&& error.code == self.code()
        &&& error.message@ == self.message()
        &&& error.data is None
    }

    /// The error that answers a refused request; none where the request is
    /// forwarded.
    pub fn rejection(self) -> (error: Option<ResponseError>)
        ensures
            self == RequestVerdict::Forward <==> error is None,
            error matches Some(e) ==> self.answered_by(e),
    {
        match self {
            RequestVerdict::Forward => None,
            RequestVerdict::NotInitialized => Some(
                ResponseError {
                    code: SERVER_NOT_INITIALIZED,
                    message: String::from_str("Server is not initialized yet"),
                    data: None,
                },
            ),
            RequestVerdict::AlreadyInitialized => Some(
                ResponseError {
                    code: INVALID_REQUEST,
                    message: String::from_str("Server is already initialized"),
                    data: None,
                },
            ),
            RequestVerdict::ShuttingDown => Some(
                ResponseError {
                    code: INVALID_REQUEST,
                    message: String::from_str("Server is shutting down"),
                    data: None,
                },
            ),
        }
    }
}

impl State {
    /// The name of the state, as error messages spell it.
    pub open spec fn name(self) -> Seq<char> {
        match self {
            State::Uninitialized => "Uninitialized"@,
            State::Initializing => "Initializing"@,
            State::Ready => "Ready"@,
            State::ShuttingDown => "ShuttingDown"@,
        }
    }

    /// How far the lifecycle has come: 0 for a server not initialized, 3 for
    /// one shutting down.
    pub open spec fn rank(self) -> nat {
        match self {
            State::Uninitialized => 0,
            State::Initializing => 1,
            State::Ready => 2,
            State::ShuttingDown => 3,
        }
    }

    /// What becomes of a request with the given method in this state.
    pub open spec fn request_verdict(self, method: Seq<char>) -> RequestVerdict {
        match self {
            State::Uninitialized => if method == initialize_name() {
                RequestVerdict::Forward
            } else {
                RequestVerdict::NotInitialized
            },
            State::Initializing => if method == initialize_name() {
                RequestVerdict::AlreadyInitialized
            } else {
                RequestVerdict::NotInitialized
            },
            State::Ready => if method == initialize_name() {
                RequestVerdict::AlreadyInitialized
            } else {
                RequestVerdict::Forward
            },
            State::ShuttingDown => if method == initialize_name() {
                RequestVerdict::AlreadyInitialized
            } else {
                RequestVerdict::ShuttingDown
            },
        }
    }

    /// The state after a request with the given method arrived in this state.
    pub open spec fn after_request(self, method: Seq<char>) -> State {
        match self {
            State::Uninitialized if method == initialize_name() => State::Initializing,
            State::Ready if method == shutdown_name() => State::ShuttingDown,
            _ => self,
        }
    }

    /// What becomes of a notification with the given method in this state.
    pub open spec fn notification_verdict(self, method: Seq<char>) -> NotificationVerdict {
        if method == exit_name() {
            NotificationVerdict::Exit
        } else if method == initialized_name() {
            if self == State::Initializing {
                NotificationVerdict::BecomeReady
            } else {
                NotificationVerdict::Unexpected
            }
        } else {
            match self {
                State::Uninitialized | State::Initializing => NotificationVerdict::Ignore,
                State::Ready | State::ShuttingDown => NotificationVerdict::Forward,
            }
        }
    }

    /// The state after a notification with the given method arrived in this
    /// state.
    pub open spec fn after_notification(self, method: Seq<char>) -> State {
        if self.notification_verdict(method) == NotificationVerdict::BecomeReady {
            State::Ready
        } else {
            self
        }
    }

    /// The message of the protocol error on an `initialized` notification that
    /// arrived in this state out of turn.
    pub open spec fn unexpected_initialized_message(self) -> Seq<char> {
        unexpected_initialized_prefix() + self.name()
    }

    /// The name of the state.
    pub fn as_str(self) -> (name: &'static str)
        ensures
            name@ == self.name(),
    {
        match self {
            State::Uninitialized => "Uninitialized",
            State::Initializing => "Initializing",
            State::Ready => "Ready",
            State::ShuttingDown => "ShuttingDown",
        }
    }

    /// Judges a request by its method: what becomes of it, and the state that
    /// follows.
    pub fn on_request(self, method: &str) -> (step: (RequestVerdict, State))
        ensures
            step.0 == self.request_verdict(method@),
            step.1 == self.after_request(method@),
    {
        let initialize = str_eq(method, initialize_method());
        proof {
            lemma_names_distinct();
        }
        match self {
            State::Uninitialized => if initialize {
                (RequestVerdict::Forward, State::Initializing)
            } else {
                (RequestVerdict::NotInitialized, self)
            },
            State::Initializing => if initialize {
                (RequestVerdict::AlreadyInitialized, self)
            } else {
                (RequestVerdict::NotInitialized, self)
            },
            State::Ready => if initialize {
                (RequestVerdict::AlreadyInitialized, self)
            } else if str_eq(method, shutdown_method()) {
                (RequestVerdict::Forward, State::ShuttingDown)
            } else {
                (RequestVerdict::Forward, self)
            },
            State::ShuttingDown => if initialize {
                (RequestVerdict::AlreadyInitialized, self)
            } else {
                (RequestVerdict::ShuttingDown, self)
            },
        }
    }

    /// Judges a notification by its method: what becomes of it, and the state
    /// that follows.
    pub fn on_notification(self, method: &str) -> (step: (NotificationVerdict, State))
        ensures
            step.0 == self.notification_verdict(method@),
            step.1 == self.after_notification(method@),
    {
        if str_eq(method, exit_method()) {
            (NotificationVerdict::Exit, self)
        } else if str_eq(method, initialized_method()) {
            match self {
                State::Initializing => (NotificationVerdict::BecomeReady, State::Ready),
                _ => (NotificationVerdict::Unexpected, self),
            }
        } else {
            match self {
                State::Uninitialized | State::Initializing => (NotificationVerdict::Ignore, self),
                State::Ready | State::ShuttingDown => (NotificationVerdict::Forward, self),
            }
        }
    }

    /// The protocol error on an `initialized` notification that arrived in
    /// this state out of turn.
    pub fn unexpected_initialized(self) -> (error: Error)
        ensures
            error matches Error::Protocol(message)
                && message@ == self.unexpected_initialized_message(),
    {
        let message = String::from_str("Unexpected initialized notification on state ").concat(
            self.as_str(),
        );
        Error::Protocol(message)
    }
}

impl Default for State {
    /// A server starts uninitialized.
    fn default() -> (state: State)
        ensures
            state == State::Uninitialized,
    {
        State::Uninitialized
    }
}

/// The middleware that holds a service to the lifecycle of a language server.
#[derive(Debug)]
pub struct Lifecycle<S> {
    service: S,
    state: State,
}

impl<S> Lifecycle<S> {
    /// The state of the lifecycle.
    pub closed spec fn spec_state(&self) -> State {
        self.state
    }

    /// The wrapped service.
    pub closed spec fn inner(&self) -> S {
        self.service
    }

    /// Whether this middleware holds the same service in the same state as
    /// another.
    pub open spec fn same_as(&self, other: Self) -> bool {
        &&& self.state() == other.state()
        &&& self.inner() == other.inner()
    }

    /// Wraps a service of a server that is not initialized yet.
    pub fn new(service: S) -> (lifecycle: Self)
        ensures
            lifecycle.state() == State::Uninitialized,
            lifecycle.inner() == service,
    {
        Self { service, state: State::Uninitialized }
    }

    /// The state of the lifecycle.
    #[verifier::when_used_as_spec(spec_state)]
    pub fn state(&self) -> (state: State)
        ensures
            state == self.state(),
    {
        self.state
    }

    /// The wrapped service.
    pub fn get_ref(&self) -> (service: &S)
        ensures
            *service == self.inner(),
    {
        &self.service
    }

    /// The wrapped service, to work on it in place: what is done to it is
    /// done to the service that the middleware wraps, and the state of the
    /// lifecycle stays.
    pub fn get_mut(&mut self) -> (service: &mut S)
        ensures
            *service == old(self).inner(),
            final(self).inner() == *final(service),
            final(self).state() == old(self).state(),
    {
        &mut self.service
    }
}

impl<S: Default> Default for Lifecycle<S> {
    /// Wraps the default service of a server that is not initialized yet.
    fn default() -> (lifecycle: Self)
        ensures
            lifecycle.state() == State::Uninitialized,
            call_ensures(S::default, (), lifecycle.inner()),
    {
        Lifecycle::new(S::default())
    }
}

impl<S: LspService> LspService for Lifecycle<S> {
    type Future = Result<S::Future, ResponseError>;

    type Event = S::Event;

    /// The state moves as the request asks. A request in its turn goes to
    /// the wrapped service, whose pending reply is handed out under `Ok`; a
    /// request out of turn is answered under `Err` and the wrapped service
    /// stays as it was.
    open spec fn call_spec(&self, req: AnyRequest, after: Self, fut: Self::Future) -> bool {
        let verdict = self.state().request_verdict(req.method@);
        &&& after.state() == self.state().after_request(req.method@)
        &&& match fut {
            Ok(pending) => {
                &&& verdict == RequestVerdict::Forward
                &&& self.inner().call_spec(req, after.inner(), pending)
            },
            Err(error) => {
                &&& verdict.answered_by(error)
                &&& after.inner() == self.inner()
            },
        }
    }

    /// `exit` breaks with success and `initialized` makes a server that is
    /// initializing ready, or else breaks with a protocol error; of the
    /// others, a server that is not ready drops them and continues, and the
    /// wrapped service takes the rest. Only what is forwarded touches the
    /// wrapped service.
    open spec fn notify_spec(
        &self,
        notif: AnyNotification,
        after: Self,
        flow: ControlFlow<Result<(), Error>>,
    ) -> bool {
        &&& after.state() == self.state().after_notification(notif.method@)
        &&& match self.state().notification_verdict(notif.method@) {
            NotificationVerdict::Exit => {
                &&& flow == ControlFlow::<Result<(), Error>, ()>::Break(Ok(()))
                &&& after.inner() == self.inner()
            },
            NotificationVerdict::BecomeReady | NotificationVerdict::Ignore => {
                &&& flow == ControlFlow::<Result<(), Error>, ()>::Continue(())
                &&& after.inner() == self.inner()
            },
            NotificationVerdict::Unexpected => {
                &&& flow matches ControlFlow::Break(Err(Error::Protocol(message)))
                &&& message@ == self.state().unexpected_initialized_message()
                &&& after.inner() == self.inner()
            },
            NotificationVerdict::Forward => self.inner().notify_spec(notif, after.inner(), flow),
        }
    }

    /// Events pass through to the wrapped service in every state.
    open spec fn emit_spec(
        &self,
        event: Self::Event,
        after: Self,
        flow: ControlFlow<Result<(), Error>>,
    ) -> bool {
        &&& after.state() == self.state()
        &&& self.inner().emit_spec(event, after.inner(), flow)
    }

    fn call(&mut self, req: AnyRequest) -> (fut: Self::Future) {
        let (verdict, next) = self.state.on_request(req.method.as_str());
        self.state = next;
        match verdict.rejection() {
            None => Ok(self.service.call(req)),
            Some(error) => Err(error),
        }
    }

    fn notify(&mut self, notif: AnyNotification) -> (flow: ControlFlow<Result<(), Error>>) {
        let (verdict, next) = self.state.on_notification(notif.method.as_str());
        match verdict {
            NotificationVerdict::Exit => ControlFlow::Break(Ok(())),
            NotificationVerdict::BecomeReady => {
                self.state = next;
                ControlFlow::Continue(())
            },
            NotificationVerdict::Unexpected => ControlFlow::Break(
                Err(self.state.unexpected_initialized()),
            ),
            NotificationVerdict::Ignore => ControlFlow::Continue(()),
            NotificationVerdict::Forward => self.service.notify(notif),
        }
    }

    fn emit(&mut self, event: Self::Event) -> (flow: ControlFlow<Result<(), Error>>) {
        self.service.emit(event)
    }
}

/// The layer that wraps a service in a [`Lifecycle`].
#[derive(Debug, Clone, Copy)]
pub struct LifecycleLayer;

impl LifecycleLayer {
    /// Wraps a service of a server that is not initialized yet.
    pub fn layer<S>(&self, inner: S) -> (lifecycle: Lifecycle<S>)
        ensures
            lifecycle.state() == State::Uninitialized,
            lifecycle.inner() == inner,
    {
        Lifecycle::new(inner)
    }
}

} // verus!
