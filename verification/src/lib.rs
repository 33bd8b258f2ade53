//! Building blocks of a Language Server Protocol endpoint, each with its
//! contract: the framing of messages on the wire, the messages and error
//! values, the table that matches responses to outgoing requests, the service
//! abstraction that middleware composes over, and the lifecycle middleware
//! that holds a server to the protocol's state machine.

pub mod can_handle;
pub mod codec;
pub mod codec_laws;
pub mod error;
pub mod message;
pub mod lifecycle_laws;
pub mod methods;
pub mod omni_trait;
pub mod outgoing;
pub mod server;
pub mod service;
pub mod text;

pub use crate::error::{Error, ResponseError};
pub use crate::message::{AnyNotification, AnyRequest, JsonValue, MessageKind, RequestId};
pub use crate::service::LspService;
