//! The node-facing side of a dataflow runtime: the decisions of the event
//! pump that pulls events from the local daemon, the user-facing event
//! stream, length-prefixed framing, and checks on dataflows and new projects.

pub mod environment;
pub mod framing;
pub mod messages;
pub mod pump;
pub mod stream;
pub mod template;
pub mod validate;
