//! A broadcast chat hub: a registry of live connections, fan-out of each
//! message to every peer but its sender, and the per-connection state machine
//! that decides what a connection does with each event from its socket or its
//! mailbox.
pub mod actor;
pub mod client;
pub mod fanout;
pub mod peer;
pub mod registry;
pub mod server;
pub mod text;
