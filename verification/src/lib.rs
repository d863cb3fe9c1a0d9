//! Self-synchronizing framing for a guest/host test bridge over a serial side channel.

pub mod error;
pub mod guest;
pub mod host;
pub mod laws;
pub mod length_field;
pub mod marker;
pub mod reader;
pub mod scanner;
pub mod serial_bridge_protocol;
pub mod tunnel;
