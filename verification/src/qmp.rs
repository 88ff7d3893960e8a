//! The monitor protocol of the emulator: framing of what the monitor sends,
//! the messages, and the decisions of a client session.

pub mod client;
pub mod frame;
pub mod json;
pub mod messages;
