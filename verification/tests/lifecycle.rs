use std::ops::ControlFlow;

use async_lsp::error::{Error, INVALID_REQUEST, SERVER_NOT_INITIALIZED};
use async_lsp::server::{Lifecycle, LifecycleLayer, NotificationVerdict, RequestVerdict, State};
use async_lsp::{AnyNotification, AnyRequest, JsonValue, LspService, RequestId, ResponseError};

/// A service that records what reaches it and answers each request with the
/// number of requests taken so far.
#[derive(Debug, Default)]
struct Recorder {
    requests: Vec<String>,
    notifications: Vec<String>,
    events: Vec<u32>,
}

impl LspService for Recorder {
    type Future = usize;
    type Event = u32;

    fn call(&mut self, req: AnyRequest) -> usize {
        self.requests.push(req.method);
        self.requests.len()
    }

    fn notify(&mut self, notif: AnyNotification) -> ControlFlow<Result<(), Error>> {
        self.notifications.push(notif.method);
        ControlFlow::Continue(())
    }

    fn emit(&mut self, event: u32) -> ControlFlow<Result<(), Error>> {
        self.events.push(event);
        if event == 0 {
            ControlFlow::Break(Ok(()))
        } else {
            ControlFlow::Continue(())
        }
    }
}

fn request(method: &str) -> AnyRequest {
    AnyRequest { id: RequestId::Number(1), method: method.to_string(), params: JsonValue::Null }
}

fn notification(method: &str) -> AnyNotification {
    AnyNotification { method: method.to_string(), params: JsonValue::Null }
}

fn uninitialized() -> Lifecycle<Recorder> {
    Lifecycle::new(Recorder::default())
}

fn initializing() -> Lifecycle<Recorder> {
    let mut server = uninitialized();
    assert!(server.call(request("initialize")).is_ok());
    server
}

fn ready() -> Lifecycle<Recorder> {
    let mut server = initializing();
    assert!(matches!(server.notify(notification("initialized")), ControlFlow::Continue(())));
    server
}

fn shutting_down() -> Lifecycle<Recorder> {
    let mut server = ready();
    assert!(server.call(request("shutdown")).is_ok());
    server
}

/// Checks that a request was refused with the given error and reached
/// nothing, in a server that had taken `seen` requests before.
fn assert_refused(
    server: &Lifecycle<Recorder>,
    reply: Result<usize, ResponseError>,
    code: i32,
    message: &str,
    state: State,
    seen: usize,
) {
    let error = reply.unwrap_err();
    assert_eq!(error.code, code);
    assert_eq!(error.message, message);
    assert!(error.data.is_none());
    assert_eq!(server.state(), state);
    assert_eq!(server.get_ref().requests.len(), seen);
}

fn assert_protocol_error(flow: ControlFlow<Result<(), Error>>, message: &str) {
    match flow {
        ControlFlow::Break(Err(Error::Protocol(text))) => assert_eq!(text, message),
        other => panic!("expected a protocol error, got {:?}", other),
    }
}

// The state of a new middleware.

#[test]
fn new_lifecycle_is_uninitialized() {
    let server = Lifecycle::new(Recorder::default());
    assert_eq!(server.state(), State::Uninitialized);
    assert!(server.get_ref().requests.is_empty());
}

#[test]
fn new_lifecycle_keeps_the_service() {
    let mut inner = Recorder::default();
    inner.events.push(7);
    let server = Lifecycle::new(inner);
    assert_eq!(server.get_ref().events, vec![7]);
}

#[test]
fn default_lifecycle_is_uninitialized() {
    let server: Lifecycle<Recorder> = Lifecycle::default();
    assert_eq!(server.state(), State::Uninitialized);
}

#[test]
fn default_state_is_uninitialized() {
    assert_eq!(State::default(), State::Uninitialized);
}

#[test]
fn layer_wraps_an_uninitialized_lifecycle() {
    let mut inner = Recorder::default();
    inner.events.push(3);
    let server = LifecycleLayer.layer(inner);
    assert_eq!(server.state(), State::Uninitialized);
    assert_eq!(server.get_ref().events, vec![3]);
}

#[test]
fn get_mut_reaches_the_wrapped_service() {
    let mut server = ready();
    server.get_mut().events.push(9);
    assert!(matches!(server.get_mut().emit(4), ControlFlow::Continue(())));
    assert_eq!(server.get_ref().events, vec![9, 4]);
    assert_eq!(server.state(), State::Ready);
    // What goes to the wrapped service directly is not held to the lifecycle.
    assert_eq!(server.get_mut().call(request("initialize")), 2);
    assert_eq!(server.state(), State::Ready);
}

// Requests, state by state.

#[test]
fn uninitialized_forwards_initialize() {
    let mut server = uninitialized();
    let reply = server.call(request("initialize"));
    assert_eq!(reply.unwrap(), 1);
    assert_eq!(server.state(), State::Initializing);
    assert_eq!(server.get_ref().requests, vec!["initialize"]);
}

#[test]
fn uninitialized_refuses_shutdown() {
    let mut server = uninitialized();
    let reply = server.call(request("shutdown"));
    assert_refused(
        &server,
        reply,
        SERVER_NOT_INITIALIZED,
        "Server is not initialized yet",
        State::Uninitialized,
        0,
    );
}

#[test]
fn uninitialized_refuses_other_request() {
    let mut server = uninitialized();
    let reply = server.call(request("textDocument/hover"));
    assert_refused(&server, reply, -32002, "Server is not initialized yet", State::Uninitialized, 0);
}

#[test]
fn initializing_refuses_initialize() {
    let mut server = initializing();
    let reply = server.call(request("initialize"));
    assert_refused(
        &server,
        reply,
        INVALID_REQUEST,
        "Server is already initialized",
        State::Initializing,
        1,
    );
}

#[test]
fn initializing_refuses_shutdown() {
    let mut server = initializing();
    let reply = server.call(request("shutdown"));
    assert_refused(
        &server,
        reply,
        SERVER_NOT_INITIALIZED,
        "Server is not initialized yet",
        State::Initializing,
        1,
    );
}

#[test]
fn initializing_refuses_other_request() {
    let mut server = initializing();
    let reply = server.call(request("textDocument/hover"));
    assert_refused(&server, reply, -32002, "Server is not initialized yet", State::Initializing, 1);
}

#[test]
fn ready_refuses_initialize() {
    let mut server = ready();
    let reply = server.call(request("initialize"));
    assert_refused(&server, reply, -32600, "Server is already initialized", State::Ready, 1);
}

#[test]
fn ready_forwards_shutdown() {
    let mut server = ready();
    let reply = server.call(request("shutdown"));
    assert_eq!(reply.unwrap(), 2);
    assert_eq!(server.state(), State::ShuttingDown);
    assert_eq!(server.get_ref().requests, vec!["initialize", "shutdown"]);
}

#[test]
fn ready_forwards_other_request() {
    let mut server = ready();
    let reply = server.call(request("textDocument/hover"));
    assert_eq!(reply.unwrap(), 2);
    assert_eq!(server.state(), State::Ready);
    assert_eq!(server.get_ref().requests, vec!["initialize", "textDocument/hover"]);
}

#[test]
fn shutting_down_refuses_initialize() {
    let mut server = shutting_down();
    let reply = server.call(request("initialize"));
    assert_refused(&server, reply, -32600, "Server is already initialized", State::ShuttingDown, 2);
}

#[test]
fn shutting_down_refuses_shutdown() {
    let mut server = shutting_down();
    let reply = server.call(request("shutdown"));
    assert_refused(&server, reply, INVALID_REQUEST, "Server is shutting down", State::ShuttingDown, 2);
}

#[test]
fn shutting_down_refuses_other_request() {
    let mut server = shutting_down();
    let reply = server.call(request("textDocument/hover"));
    assert_refused(&server, reply, -32600, "Server is shutting down", State::ShuttingDown, 2);
}

// Notifications, state by state.

#[test]
fn uninitialized_breaks_on_initialized() {
    let mut server = uninitialized();
    let flow = server.notify(notification("initialized"));
    assert_protocol_error(flow, "Unexpected initialized notification on state Uninitialized");
    assert_eq!(server.state(), State::Uninitialized);
    assert!(server.get_ref().notifications.is_empty());
}

#[test]
fn initializing_becomes_ready_on_initialized() {
    let mut server = initializing();
    let flow = server.notify(notification("initialized"));
    assert!(matches!(flow, ControlFlow::Continue(())));
    assert_eq!(server.state(), State::Ready);
    assert!(server.get_ref().notifications.is_empty());
}

#[test]
fn ready_breaks_on_initialized() {
    let mut server = ready();
    let flow = server.notify(notification("initialized"));
    assert_protocol_error(flow, "Unexpected initialized notification on state Ready");
    assert_eq!(server.state(), State::Ready);
    assert!(server.get_ref().notifications.is_empty());
}

#[test]
fn shutting_down_breaks_on_initialized() {
    let mut server = shutting_down();
    let flow = server.notify(notification("initialized"));
    assert_protocol_error(flow, "Unexpected initialized notification on state ShuttingDown");
    assert_eq!(server.state(), State::ShuttingDown);
    assert!(server.get_ref().notifications.is_empty());
}

#[test]
fn uninitialized_exits_with_success() {
    let mut server = uninitialized();
    let flow = server.notify(notification("exit"));
    assert!(matches!(flow, ControlFlow::Break(Ok(()))));
    assert_eq!(server.state(), State::Uninitialized);
    assert!(server.get_ref().notifications.is_empty());
}

#[test]
fn initializing_exits_with_success() {
    let mut server = initializing();
    let flow = server.notify(notification("exit"));
    assert!(matches!(flow, ControlFlow::Break(Ok(()))));
    assert_eq!(server.state(), State::Initializing);
    assert!(server.get_ref().notifications.is_empty());
}

#[test]
fn ready_exits_with_success() {
    let mut server = ready();
    let flow = server.notify(notification("exit"));
    assert!(matches!(flow, ControlFlow::Break(Ok(()))));
    assert_eq!(server.state(), State::Ready);
    assert!(server.get_ref().notifications.is_empty());
}

#[test]
fn shutting_down_exits_with_success() {
    let mut server = shutting_down();
    let flow = server.notify(notification("exit"));
    assert!(matches!(flow, ControlFlow::Break(Ok(()))));
    assert_eq!(server.state(), State::ShuttingDown);
    assert!(server.get_ref().notifications.is_empty());
}

#[test]
fn uninitialized_ignores_other_notification() {
    let mut server = uninitialized();
    let flow = server.notify(notification("textDocument/didOpen"));
    assert!(matches!(flow, ControlFlow::Continue(())));
    assert_eq!(server.state(), State::Uninitialized);
    assert!(server.get_ref().notifications.is_empty());
}

#[test]
fn initializing_ignores_other_notification() {
    let mut server = initializing();
    let flow = server.notify(notification("textDocument/didOpen"));
    assert!(matches!(flow, ControlFlow::Continue(())));
    assert_eq!(server.state(), State::Initializing);
    assert!(server.get_ref().notifications.is_empty());
}

#[test]
fn ready_forwards_other_notification() {
    let mut server = ready();
    let flow = server.notify(notification("textDocument/didOpen"));
    assert!(matches!(flow, ControlFlow::Continue(())));
    assert_eq!(server.state(), State::Ready);
    assert_eq!(server.get_ref().notifications, vec!["textDocument/didOpen"]);
}

#[test]
fn shutting_down_forwards_other_notification() {
    let mut server = shutting_down();
    let flow = server.notify(notification("textDocument/didClose"));
    assert!(matches!(flow, ControlFlow::Continue(())));
    assert_eq!(server.state(), State::ShuttingDown);
    assert_eq!(server.get_ref().notifications, vec!["textDocument/didClose"]);
}

// Events.

#[test]
fn events_pass_through_in_every_state() {
    for mut server in [uninitialized(), initializing(), ready(), shutting_down()] {
        let state = server.state();
        assert!(matches!(server.emit(5), ControlFlow::Continue(())));
        assert!(matches!(server.emit(0), ControlFlow::Break(Ok(()))));
        assert_eq!(server.get_ref().events, vec![5, 0]);
        assert_eq!(server.state(), state);
    }
}

// Whole sessions.

#[test]
fn session_by_the_book_walks_the_four_states() {
    let mut server = uninitialized();
    let mut seen = vec![server.state()];

    assert_eq!(server.call(request("initialize")).unwrap(), 1);
    seen.push(server.state());
    assert!(matches!(server.notify(notification("initialized")), ControlFlow::Continue(())));
    seen.push(server.state());
    assert_eq!(server.call(request("textDocument/hover")).unwrap(), 2);
    assert_eq!(server.state(), State::Ready);
    assert_eq!(server.call(request("shutdown")).unwrap(), 3);
    seen.push(server.state());
    assert!(matches!(server.notify(notification("exit")), ControlFlow::Break(Ok(()))));
    seen.push(server.state());

    assert_eq!(
        seen,
        vec![
            State::Uninitialized,
            State::Initializing,
            State::Ready,
            State::ShuttingDown,
            State::ShuttingDown,
        ]
    );
    assert_eq!(server.get_ref().requests, vec!["initialize", "textDocument/hover", "shutdown"]);
}

#[test]
fn hover_before_initialize_is_refused_and_changes_nothing() {
    let mut server = uninitialized();
    let reply = server.call(request("textDocument/hover"));
    let error = reply.unwrap_err();
    assert_eq!(error.code, -32002);
    assert_eq!(server.state(), State::Uninitialized);
    // The server can still be initialized afterwards.
    assert_eq!(server.call(request("initialize")).unwrap(), 1);
    assert_eq!(server.state(), State::Initializing);
}

#[test]
fn initialize_reaches_the_service_once() {
    let mut server = uninitialized();
    assert!(server.call(request("initialize")).is_ok());
    assert!(server.call(request("initialize")).is_err());
    assert!(matches!(server.notify(notification("initialized")), ControlFlow::Continue(())));
    assert!(server.call(request("initialize")).is_err());
    assert!(server.call(request("shutdown")).is_ok());
    assert!(server.call(request("initialize")).is_err());
    assert!(server.call(request("shutdown")).is_err());
    assert_eq!(server.get_ref().requests, vec!["initialize", "shutdown"]);
}

#[test]
fn method_names_are_case_sensitive() {
    let mut server = uninitialized();
    let reply = server.call(request("Initialize"));
    assert_refused(&server, reply, -32002, "Server is not initialized yet", State::Uninitialized, 0);
    let reply = server.call(request("initialize "));
    assert_refused(&server, reply, -32002, "Server is not initialized yet", State::Uninitialized, 0);
    let reply = server.call(request(""));
    assert_refused(&server, reply, -32002, "Server is not initialized yet", State::Uninitialized, 0);
}

#[test]
fn initialized_request_is_no_initialized_notification() {
    // `initialized` and `exit` name notifications; as requests they are like
    // any other.
    let mut server = ready();
    assert_eq!(server.call(request("initialized")).unwrap(), 2);
    assert_eq!(server.call(request("exit")).unwrap(), 3);
    assert_eq!(server.state(), State::Ready);
    // `initialize` and `shutdown` name requests; as notifications they are
    // like any other.
    assert!(matches!(server.notify(notification("shutdown")), ControlFlow::Continue(())));
    assert!(matches!(server.notify(notification("initialize")), ControlFlow::Continue(())));
    assert_eq!(server.state(), State::Ready);
    assert_eq!(server.get_ref().notifications, vec!["shutdown", "initialize"]);
}

// The judgements by themselves.

#[test]
fn on_request_gives_verdict_and_next_state() {
    assert_eq!(
        State::Uninitialized.on_request("initialize"),
        (RequestVerdict::Forward, State::Initializing)
    );
    assert_eq!(
        State::Uninitialized.on_request("shutdown"),
        (RequestVerdict::NotInitialized, State::Uninitialized)
    );
    assert_eq!(
        State::Initializing.on_request("initialize"),
        (RequestVerdict::AlreadyInitialized, State::Initializing)
    );
    assert_eq!(
        State::Initializing.on_request("x"),
        (RequestVerdict::NotInitialized, State::Initializing)
    );
    assert_eq!(
        State::Ready.on_request("initialize"),
        (RequestVerdict::AlreadyInitialized, State::Ready)
    );
    assert_eq!(State::Ready.on_request("shutdown"), (RequestVerdict::Forward, State::ShuttingDown));
    assert_eq!(State::Ready.on_request("x"), (RequestVerdict::Forward, State::Ready));
    assert_eq!(
        State::ShuttingDown.on_request("initialize"),
        (RequestVerdict::AlreadyInitialized, State::ShuttingDown)
    );
    assert_eq!(
        State::ShuttingDown.on_request("shutdown"),
        (RequestVerdict::ShuttingDown, State::ShuttingDown)
    );
    assert_eq!(
        State::ShuttingDown.on_request("x"),
        (RequestVerdict::ShuttingDown, State::ShuttingDown)
    );
}

#[test]
fn on_notification_gives_verdict_and_next_state() {
    for state in [State::Uninitialized, State::Initializing, State::Ready, State::ShuttingDown] {
        assert_eq!(state.on_notification("exit"), (NotificationVerdict::Exit, state));
    }
    assert_eq!(
        State::Uninitialized.on_notification("initialized"),
        (NotificationVerdict::Unexpected, State::Uninitialized)
    );
    assert_eq!(
        State::Initializing.on_notification("initialized"),
        (NotificationVerdict::BecomeReady, State::Ready)
    );
    assert_eq!(
        State::Ready.on_notification("initialized"),
        (NotificationVerdict::Unexpected, State::Ready)
    );
    assert_eq!(
        State::ShuttingDown.on_notification("initialized"),
        (NotificationVerdict::Unexpected, State::ShuttingDown)
    );
    assert_eq!(
        State::Uninitialized.on_notification("$/progress"),
        (NotificationVerdict::Ignore, State::Uninitialized)
    );
    assert_eq!(
        State::Initializing.on_notification("$/progress"),
        (NotificationVerdict::Ignore, State::Initializing)
    );
    assert_eq!(
        State::Ready.on_notification("$/progress"),
        (NotificationVerdict::Forward, State::Ready)
    );
    assert_eq!(
        State::ShuttingDown.on_notification("$/progress"),
        (NotificationVerdict::Forward, State::ShuttingDown)
    );
}

#[test]
fn rejection_of_each_verdict() {
    assert!(RequestVerdict::Forward.rejection().is_none());

    let error = RequestVerdict::NotInitialized.rejection().unwrap();
    assert_eq!((error.code, error.message.as_str()), (-32002, "Server is not initialized yet"));
    assert!(error.data.is_none());

    let error = RequestVerdict::AlreadyInitialized.rejection().unwrap();
    assert_eq!((error.code, error.message.as_str()), (-32600, "Server is already initialized"));
    assert!(error.data.is_none());

    let error = RequestVerdict::ShuttingDown.rejection().unwrap();
    assert_eq!((error.code, error.message.as_str()), (-32600, "Server is shutting down"));
    assert!(error.data.is_none());
}

#[test]
fn state_names() {
    assert_eq!(State::Uninitialized.as_str(), "Uninitialized");
    assert_eq!(State::Initializing.as_str(), "Initializing");
    assert_eq!(State::Ready.as_str(), "Ready");
    assert_eq!(State::ShuttingDown.as_str(), "ShuttingDown");
}

#[test]
fn unexpected_initialized_names_the_state() {
    for state in [State::Uninitialized, State::Initializing, State::Ready, State::ShuttingDown] {
        match state.unexpected_initialized() {
            Error::Protocol(message) => assert_eq!(
                message,
                format!("Unexpected initialized notification on state {:?}", state)
            ),
            other => panic!("expected a protocol error, got {:?}", other),
        }
    }
}

// A middleware over a middleware: the outer one sees the traffic first.

#[test]
fn outer_lifecycle_sees_traffic_first() {
    let mut server = Lifecycle::new(Lifecycle::new(Recorder::default()));
    // Refused by the outer one: the inner one does not move.
    assert!(server.call(request("shutdown")).is_err());
    assert_eq!(server.get_ref().state(), State::Uninitialized);
    // Forwarded by the outer one, then by the inner one.
    assert_eq!(server.call(request("initialize")).unwrap().unwrap(), 1);
    assert_eq!(server.state(), State::Initializing);
    assert_eq!(server.get_ref().state(), State::Initializing);
    // The outer one becomes ready and keeps the notification to itself.
    assert!(matches!(server.notify(notification("initialized")), ControlFlow::Continue(())));
    assert_eq!(server.state(), State::Ready);
    assert_eq!(server.get_ref().state(), State::Initializing);
    // The outer one forwards; the inner one, still initializing, refuses.
    let error = server.call(request("textDocument/hover")).unwrap().unwrap_err();
    assert_eq!(error.code, -32002);
    assert!(server.get_ref().get_ref().requests == vec!["initialize"]);
}
