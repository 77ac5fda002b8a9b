//! The Mumble side: control messages, the connection's state and voice.

pub mod client;
pub mod proto;
pub mod voice;
