//! The messages that travel over the WebSocket, in both directions.

use vstd::prelude::*;

use crate::list::{views, Numbered};
use crate::turn::credentials::{IceConfig, IceConfigView};

verus! {

// Client to server

/// A message from the browser.
#[derive(Debug)]
pub enum ClientMessage {
    Connect(ConnectData),
    Disconnect,
    Offer(OfferData),
    Answer(AnswerData),
    StartVoice,
    IceRestart,
    IceRefresh,
    IceCandidate(IceCandidateData),
    ChatSend(ChatSendData),
    ChannelJoin(ChannelJoinData),
    Mute(MuteData),
    Deafen(DeafenData),
}

#[derive(Debug)]
pub struct ConnectData {
    pub username: String,
}

#[derive(Debug, Clone)]
pub struct OfferData {
    pub sdp: String,
}

#[derive(Debug)]
pub struct IceCandidateData {
    pub candidate: String,
    pub sdp_mid: Option<String>,
    pub sdp_mline_index: Option<u16>,
}

#[derive(Debug)]
pub struct ChatSendData {
    pub channel_id: u32,
    pub message: String,
}

#[derive(Debug)]
pub struct ChannelJoinData {
    pub channel_id: u32,
}

#[derive(Debug)]
pub struct MuteData {
    pub muted: bool,
}

#[derive(Debug)]
pub struct DeafenData {
    pub deafened: bool,
}

// Server to client

/// A message to the browser.
#[derive(Debug, Clone)]
pub enum ServerMessage {
    Offer(OfferData),
    Answer(AnswerData),
    IceConfig(IceConfig),
    IceCandidate(IceCandidateResponse),
    Connected(ConnectedData),
    UserJoined(UserInfo),
    UserLeft(UserLeftData),
    UserState(UserStateData),
    ChatReceived(ChatReceivedData),
    ChannelUpdated(ChannelUpdatedData),
    Error(ErrorData),
}

#[derive(Debug, Clone)]
pub struct AnswerData {
    pub sdp: String,
}

#[derive(Debug, Clone)]
pub struct IceCandidateResponse {
    pub candidate: String,
    pub sdp_mid: Option<String>,
    pub sdp_mline_index: Option<u16>,
}

#[derive(Debug, Clone)]
pub struct ConnectedData {
    pub session_id: u32,
    pub channels: Vec<ChannelInfo>,
    pub users: Vec<UserInfo>,
}

/// A channel of the voice server.
#[derive(Debug)]
pub struct ChannelInfo {
    pub id: u32,
    pub name: String,
    pub parent_id: u32,
    pub description: String,
}

/// A user on the voice server.
#[derive(Debug)]
pub struct UserInfo {
    pub session_id: u32,
    pub name: String,
    pub channel_id: u32,
    pub mute: bool,
    pub deaf: bool,
    pub self_mute: bool,
    pub self_deaf: bool,
}

#[derive(Debug, Clone)]
pub struct UserLeftData {
    pub session_id: u32,
}

/// What changed about a user; a field that did not change is `None`.
#[derive(Debug)]
pub struct UserStateData {
    pub session_id: u32,
    pub channel_id: Option<u32>,
    pub name: Option<String>,
    pub mute: Option<bool>,
    pub deaf: Option<bool>,
    pub self_mute: Option<bool>,
    pub self_deaf: Option<bool>,
}

#[derive(Debug, Clone)]
pub struct ChatReceivedData {
    pub sender_session: u32,
    pub sender_name: String,
    pub channel_id: u32,
    pub message: String,
    pub timestamp: u64,
}

#[derive(Debug, Clone)]
pub struct ChannelUpdatedData {
    pub channels: Vec<ChannelInfo>,
}

#[derive(Debug, Clone)]
pub struct ErrorData {
    pub code: String,
    pub message: String,
}

// What the messages say, as mathematical values

/// The text in an optional string.
pub open spec fn opt_text(s: Option<String>) -> Option<Seq<char>> {
    match s {
        Some(t) => Some(t@),
        None => None,
    }
}

pub struct ChannelView {
    pub id: u32,
    pub name: Seq<char>,
    pub parent_id: u32,
    pub description: Seq<char>,
}

impl View for ChannelInfo {
    type V = ChannelView;

    open spec fn view(&self) -> ChannelView {
        ChannelView {
            id: self.id,
            name: self.name@,
            parent_id: self.parent_id,
            description: self.description@,
        }
    }
}

pub struct UserView {
    pub session_id: u32,
    pub name: Seq<char>,
    pub channel_id: u32,
    pub mute: bool,
    pub deaf: bool,
    pub self_mute: bool,
    pub self_deaf: bool,
}

impl View for UserInfo {
    type V = UserView;

    open spec fn view(&self) -> UserView {
        UserView {
            session_id: self.session_id,
            name: self.name@,
            channel_id: self.channel_id,
            mute: self.mute,
            deaf: self.deaf,
            self_mute: self.self_mute,
            self_deaf: self.self_deaf,
        }
    }
}

pub struct UserChange {
    pub session_id: u32,
    pub channel_id: Option<u32>,
    pub name: Option<Seq<char>>,
    pub mute: Option<bool>,
    pub deaf: Option<bool>,
    pub self_mute: Option<bool>,
    pub self_deaf: Option<bool>,
}

impl View for UserStateData {
    type V = UserChange;

    open spec fn view(&self) -> UserChange {
        UserChange {
            session_id: self.session_id,
            channel_id: self.channel_id,
            name: opt_text(self.name),
            mute: self.mute,
            deaf: self.deaf,
            self_mute: self.self_mute,
            self_deaf: self.self_deaf,
        }
    }
}

pub struct IceCandidateView {
    pub candidate: Seq<char>,
    pub sdp_mid: Option<Seq<char>>,
    pub sdp_mline_index: Option<u16>,
}

impl View for IceCandidateResponse {
    type V = IceCandidateView;

    open spec fn view(&self) -> IceCandidateView {
        IceCandidateView {
            candidate: self.candidate@,
            sdp_mid: opt_text(self.sdp_mid),
            sdp_mline_index: self.sdp_mline_index,
        }
    }
}

/// What a [`ServerMessage`] says.
pub enum ServerMessageView {
    Offer { sdp: Seq<char> },
    Answer { sdp: Seq<char> },
    IceConfig(IceConfigView),
    IceCandidate(IceCandidateView),
    Connected { session_id: u32, channels: Seq<ChannelView>, users: Seq<UserView> },
    UserJoined(UserView),
    UserLeft { session_id: u32 },
    UserState(UserChange),
    ChatReceived {
        sender_session: u32,
        sender_name: Seq<char>,
        channel_id: u32,
        message: Seq<char>,
        timestamp: u64,
    },
    ChannelUpdated { channels: Seq<ChannelView> },
    Error { code: Seq<char>, message: Seq<char> },
}

impl View for ServerMessage {
    type V = ServerMessageView;

    open spec fn view(&self) -> ServerMessageView {
        match *self {
            ServerMessage::Offer(d) => ServerMessageView::Offer { sdp: d.sdp@ },
            ServerMessage::Answer(d) => ServerMessageView::Answer { sdp: d.sdp@ },
            ServerMessage::IceConfig(c) => ServerMessageView::IceConfig(c@),
            ServerMessage::IceCandidate(c) => ServerMessageView::IceCandidate(c@),
            ServerMessage::Connected(d) => ServerMessageView::Connected {
                session_id: d.session_id,
                channels: views(d.channels@),
                users: views(d.users@),
            },
            ServerMessage::UserJoined(u) => ServerMessageView::UserJoined(u@),
            ServerMessage::UserLeft(d) => ServerMessageView::UserLeft { session_id: d.session_id },
            ServerMessage::UserState(d) => ServerMessageView::UserState(d@),
            ServerMessage::ChatReceived(d) => ServerMessageView::ChatReceived {
                sender_session: d.sender_session,
                sender_name: d.sender_name@,
                channel_id: d.channel_id,
                message: d.message@,
                timestamp: d.timestamp,
            },
            ServerMessage::ChannelUpdated(d) => ServerMessageView::ChannelUpdated {
                channels: views(d.channels@),
            },
            ServerMessage::Error(d) => ServerMessageView::Error {
                code: d.code@,
                message: d.message@,
            },
        }
    }
}

impl ServerMessage {
    /// An error message with a code for programs and a text for people.
    pub fn error(code: &str, message: &str) -> (r: ServerMessage)
        ensures
            r@ == (ServerMessageView::Error { code: code@, message: message@ }),
    {
        ServerMessage::Error(ErrorData { code: code.to_owned(), message: message.to_owned() })
    }
}

impl Clone for ChannelInfo {
    fn clone(&self) -> (r: Self)
        ensures
            r@ == self@,
    {
        ChannelInfo {
            id: self.id,
            name: self.name.clone(),
            parent_id: self.parent_id,
            description: self.description.clone(),
        }
    }
}

impl Clone for UserInfo {
    fn clone(&self) -> (r: Self)
        ensures
            r@ == self@,
    {
        UserInfo {
            session_id: self.session_id,
            name: self.name.clone(),
            channel_id: self.channel_id,
            mute: self.mute,
            deaf: self.deaf,
            self_mute: self.self_mute,
            self_deaf: self.self_deaf,
        }
    }
}

impl Clone for UserStateData {
    fn clone(&self) -> (r: Self)
        ensures
            r@ == self@,
    {
        UserStateData {
            session_id: self.session_id,
            channel_id: self.channel_id,
            name: match &self.name {
                Some(n) => Some(n.clone()),
                None => None,
            },
            mute: self.mute,
            deaf: self.deaf,
            self_mute: self.self_mute,
            self_deaf: self.self_deaf,
        }
    }
}

impl Numbered for ChannelInfo {
    open spec fn number_of(v: ChannelView) -> u32 {
        v.id
    }

    fn number(&self) -> (r: u32) {
        self.id
    }

    fn copy(&self) -> (r: Self) {
        self.clone()
    }
}

impl Numbered for UserInfo {
    open spec fn number_of(v: UserView) -> u32 {
        v.session_id
    }

    fn number(&self) -> (r: u32) {
        self.session_id
    }

    fn copy(&self) -> (r: Self) {
        self.clone()
    }
}

// Laws

/// What a message says is what its fields hold.
pub proof fn law_messages_say_what_they_hold(m: ServerMessage)
    ensures
        m matches ServerMessage::Offer(d) ==> m@ == (ServerMessageView::Offer { sdp: d.sdp@ }),
        m matches ServerMessage::Answer(d) ==> m@ == (ServerMessageView::Answer { sdp: d.sdp@ }),
        m matches ServerMessage::IceConfig(c) ==> m@ == ServerMessageView::IceConfig(c@),
        m matches ServerMessage::IceCandidate(c) ==> (m@ matches ServerMessageView::IceCandidate(v)
            && v.candidate == c.candidate@ && v.sdp_mline_index == c.sdp_mline_index && (
        v.sdp_mid is Some <==> c.sdp_mid is Some) && (c.sdp_mid matches Some(t) ==> v.sdp_mid
            == Some(t@))),
        m matches ServerMessage::UserLeft(d) ==> m@ == (ServerMessageView::UserLeft {
            session_id: d.session_id,
        }),
        m matches ServerMessage::ChatReceived(d) ==> m@ == (ServerMessageView::ChatReceived {
            sender_session: d.sender_session,
            sender_name: d.sender_name@,
            channel_id: d.channel_id,
            message: d.message@,
            timestamp: d.timestamp,
        }),
        m matches ServerMessage::Error(d) ==> m@ == (ServerMessageView::Error {
            code: d.code@,
            message: d.message@,
        }),
        m matches ServerMessage::UserJoined(u) ==> m@ == ServerMessageView::UserJoined(u@),
        m matches ServerMessage::UserState(d) ==> m@ == ServerMessageView::UserState(d@),
        m matches ServerMessage::Connected(d) ==> (m@ matches ServerMessageView::Connected {
            session_id,
            channels,
            users,
        } && session_id == d.session_id && channels.len() == d.channels@.len() && users.len()
            == d.users@.len() && (forall|i: int|
            0 <= i < users.len() ==> #[trigger] users[i] == d.users@[i]@) && (forall|i: int|
            0 <= i < channels.len() ==> #[trigger] channels[i] == d.channels@[i]@)),
        m matches ServerMessage::ChannelUpdated(d) ==> (m@ matches ServerMessageView::ChannelUpdated {
            channels,
        } && channels.len() == d.channels@.len() && (forall|i: int|
            0 <= i < channels.len() ==> #[trigger] channels[i] == d.channels@[i]@)),
{
}

/// What is said of a user, of a change to one and of a channel is what the fields
/// hold, and each is found by its own number.
pub proof fn law_users_and_channels_say_what_they_hold(
    u: UserInfo,
    d: UserStateData,
    c: ChannelInfo,
)
    ensures
        u@.session_id == u.session_id && u@.name == u.name@ && u@.channel_id == u.channel_id,
        u@.mute == u.mute && u@.deaf == u.deaf && u@.self_mute == u.self_mute && u@.self_deaf
            == u.self_deaf,
        d@.session_id == d.session_id && d@.channel_id == d.channel_id,
        d.name matches Some(n) ==> d@.name == Some(n@),
        d.name is None ==> d@.name is None,
        d@.mute == d.mute && d@.deaf == d.deaf && d@.self_mute == d.self_mute && d@.self_deaf
            == d.self_deaf,
        c@.id == c.id && c@.name == c.name@ && c@.parent_id == c.parent_id && c@.description
            == c.description@,
        UserInfo::number_of(u@) == u.session_id,
        ChannelInfo::number_of(c@) == c.id,
{
}

} // verus!
