//! A streaming multi-provider inference client: it shapes one request per
//! provider family, decodes the three streaming wire formats into one
//! normalized event sequence, and drives a cancellable session state machine.
pub mod client;
pub mod config;
pub mod decode;
pub mod event;
pub mod provider;
pub mod region;
pub mod request;
pub mod session;
pub mod text;

pub use client::AiClient;
pub use event::ErrorKind;
pub use event::StreamEvent;
pub use provider::ModelProvider;
pub use session::InferenceSession;
