//! Local-network control of a cleaning robot: discovery replies, the credential
//! exchange, the command wire format and the publish/subscribe session.
pub mod api;
pub mod cli;
pub mod credential;
pub mod discovery;
pub mod json;
pub mod rooms;
pub mod session;
pub mod text;
