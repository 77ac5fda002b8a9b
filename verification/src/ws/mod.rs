//! The WebSocket side: what browsers and the proxy say to each other.

pub mod handler;
pub mod messages;
