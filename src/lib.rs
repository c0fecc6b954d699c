//! Routing of control-plane commands from the transports that produce them to
//! the handler that acts on them, through a bounded, ordered channel.

pub mod channel;
pub mod command;
pub mod config;
pub mod control_plane;
pub mod parse;
pub mod source;
