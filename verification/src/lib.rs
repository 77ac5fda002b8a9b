//! MumDota: the decision core of a Mumble-to-WebRTC voice proxy.

pub mod bridge;
pub mod clock;
pub mod config;
pub mod ids;
pub mod list;
pub mod mumble;
pub mod net;
pub mod overrides;
pub mod sdp;
pub mod server;
pub mod session;
pub mod slots;
pub mod text;
pub mod turn;
pub mod webrtc;
pub mod ws;
