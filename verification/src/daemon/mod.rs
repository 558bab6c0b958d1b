//! The daemon of a workspace: its protocol, its runs and its lock.
pub mod client;
pub mod handlers;
pub mod lock;
pub mod messages;
pub mod protocol;
pub mod request;
pub mod runtime;
pub mod server;
pub mod transcript;
