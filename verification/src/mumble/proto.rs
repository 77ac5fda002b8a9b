//! The control messages that the proxy sends and receives.

use vstd::prelude::*;

use crate::clock::{is_clock_reading, unix_time};
use crate::ws::messages::opt_text;

verus! {

/// Who the client is.
#[derive(Debug)]
pub struct Version {
    pub version: u32,
    pub release: String,
    pub os: String,
    pub os_version: String,
}

/// The login.
#[derive(Debug)]
pub struct Authenticate {
    pub username: String,
    pub opus: bool,
}

/// A chat message, with the sender's session where the server states it.
#[derive(Debug)]
pub struct TextMessage {
    pub actor: Option<u32>,
    pub channel_id: Vec<u32>,
    pub message: String,
}

/// What is known, or asked for, about a user; absent fields are `None`.
#[derive(Debug)]
pub struct UserState {
    pub session: Option<u32>,
    pub name: Option<String>,
    pub channel_id: Option<u32>,
    pub mute: Option<bool>,
    pub deaf: Option<bool>,
    pub self_mute: Option<bool>,
    pub self_deaf: Option<bool>,
}

/// A keep-alive with the sender's time in seconds.
#[derive(Debug)]
pub struct Ping {
    pub timestamp: u64,
}

/// What a [`UserState`] says.
pub struct UserStateView {
    pub session: Option<u32>,
    pub name: Option<Seq<char>>,
    pub channel_id: Option<u32>,
    pub mute: Option<bool>,
    pub deaf: Option<bool>,
    pub self_mute: Option<bool>,
    pub self_deaf: Option<bool>,
}

impl View for UserState {
    type V = UserStateView;

    open spec fn view(&self) -> UserStateView {
        UserStateView {
            session: self.session,
            name: opt_text(self.name),
            channel_id: self.channel_id,
            mute: self.mute,
            deaf: self.deaf,
            self_mute: self.self_mute,
            self_deaf: self.self_deaf,
        }
    }
}

impl UserStateView {
    /// A message in which no field is set.
    pub open spec fn nothing() -> UserStateView {
        UserStateView {
            session: None,
            name: None,
            channel_id: None,
            mute: None,
            deaf: None,
            self_mute: None,
            self_deaf: None,
        }
    }
}

impl UserState {
    /// A message in which no field is set.
    pub fn new() -> (r: UserState)
        ensures
            r@ == UserStateView::nothing(),
    {
        UserState {
            session: None,
            name: None,
            channel_id: None,
            mute: None,
            deaf: None,
            self_mute: None,
            self_deaf: None,
        }
    }
}

/// The version that the proxy announces: 1.4.0 of the protocol.
pub fn build_version_message() -> (r: Version)
    ensures
        r.version == 0x0001_0400,
        r.release@ == "mumdota 0.1.0"@,
        r.os@ == "Linux"@,
        r.os_version@ == "Rust"@,
{
    Version {
        version: 0x0001_0400,
        release: "mumdota 0.1.0".to_owned(),
        os: "Linux".to_owned(),
        os_version: "Rust".to_owned(),
    }
}

/// The login of `username`, who speaks Opus.
pub fn build_authenticate_message(username: &str) -> (r: Authenticate)
    ensures
        r.username@ == username@,
        r.opus,
{
    Authenticate { username: username.to_owned(), opus: true }
}

/// A chat message to one channel.
pub fn build_text_message(channel_id: u32, message: &str) -> (r: TextMessage)
    ensures
        r.actor is None,
        r.channel_id@ == seq![channel_id],
        r.message@ == message@,
{
    TextMessage { actor: None, channel_id: vec![channel_id], message: message.to_owned() }
}

/// The wish to move to a channel.
pub fn build_user_state_channel(channel_id: u32) -> (r: UserState)
    ensures
        r@ == (UserStateView { channel_id: Some(channel_id), ..UserStateView::nothing() }),
{
    let mut msg = UserState::new();
    msg.channel_id = Some(channel_id);
    msg
}

/// The wish to be muted, or no longer muted.
pub fn build_user_state_mute(self_mute: bool) -> (r: UserState)
    ensures
        r@ == (UserStateView { self_mute: Some(self_mute), ..UserStateView::nothing() }),
{
    let mut msg = UserState::new();
    msg.self_mute = Some(self_mute);
    msg
}

/// The wish to be deafened, which mutes too, or no longer deafened, which
/// leaves the mute state alone.
pub fn build_user_state_deaf(self_deaf: bool) -> (r: UserState)
    ensures
        r@ == (UserStateView {
            self_deaf: Some(self_deaf),
            self_mute: if self_deaf {
                Some(true)
            } else {
                None
            },
            ..UserStateView::nothing()
        }),
{
    let mut msg = UserState::new();
    msg.self_deaf = Some(self_deaf);
    if self_deaf {
        msg.self_mute = Some(true);
    }
    msg
}

/// A keep-alive stamped with `timestamp`.
pub fn build_ping_at(timestamp: u64) -> (r: Ping)
    ensures
        r.timestamp == timestamp,
{
    Ping { timestamp }
}

/// A keep-alive stamped with the present time. The time is whatever the
/// system's clock says.
pub fn build_ping() -> (r: Ping)
    ensures
        is_clock_reading(r.timestamp),
{
    build_ping_at(unix_time())
}

// Laws

/// What a message says about a user is what its fields hold.
pub proof fn law_user_states_say_what_they_hold(u: UserState)
    ensures
        u@.session == u.session && u@.channel_id == u.channel_id,
        u.name matches Some(n) ==> u@.name == Some(n@),
        u.name is None ==> u@.name is None,
        u@.mute == u.mute && u@.deaf == u.deaf && u@.self_mute == u.self_mute && u@.self_deaf
            == u.self_deaf,
{
}

} // verus!
