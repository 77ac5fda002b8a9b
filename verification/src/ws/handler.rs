//! One WebSocket connection: which messages are taken, what each leads to, and
//! when the connection ends.

use vstd::prelude::*;

use crate::list::views;
use crate::mumble::client::{command_packet_view, ClientPacketView};
use crate::mumble::proto::UserStateView;
use crate::session::{
    detached, is_current, ConnectError, Directed, Request, RequestKind, RequestView, SessionError,
    SessionManager, SessionsView,
};
use crate::text::{
    concat2, is_space, law_trimming_takes_spaces_only, same_text, trim, trimmed,
};
use crate::turn::credentials::{of_others, CredentialsView, IceConfig};
use crate::turn::TurnService;
use crate::ws::messages::{
    opt_text, AnswerData, ClientMessage, IceCandidateView, OfferData, ServerMessage,
    ServerMessageView,
};

verus! {

/// The longest username, in bytes.
pub const MAX_USERNAME_BYTES: usize = 128;

/// The longest chat message, in bytes.
pub const MAX_CHAT_BYTES: usize = 4096;

/// How many messages may wait for a browser.
pub const MAX_BACKLOG: usize = 256;

/// How long a browser has for its first message, in seconds.
pub const FIRST_MESSAGE_SECS: u64 = 10;

/// How long a browser may be silent, in seconds.
pub const IDLE_SECS: u64 = 45;

/// How long a message may take to be handled, in seconds.
pub const HANDLE_SECS: u64 = 15;

/// How often a browser is pinged, in seconds.
pub const HEARTBEAT_SECS: u64 = 15;

/// How long a send may take, in seconds.
pub const SEND_SECS: u64 = 5;

/// How long closing may take, in seconds.
pub const CLOSE_SECS: u64 = 1;

/// How many bytes a text takes up.
pub open spec fn bytes_in(s: Seq<char>) -> nat {
    vstd::utf8::encode_utf8(s).len()
}

fn byte_len(s: &str) -> (r: usize)
    ensures
        r == bytes_in(s@),
{
    s.as_bytes().len()
}

// What comes in

/// What wakes the reading side of a connection.
#[derive(Debug)]
pub enum WsInput {
    /// The sending side has ended.
    SenderEnded,
    /// The proxy is stopping.
    Stopping,
    /// The browser was silent for too long.
    TimedOut,
    /// The browser is gone.
    Ended,
    /// The connection failed.
    Failed,
    /// A text that is a message.
    Message(ClientMessage),
    /// A text that is none, and why.
    Invalid(String),
    /// The browser closes the connection.
    Close,
    /// A ping, or another frame that is not text.
    Other,
    /// Handling a message took too long.
    HandlerTimedOut,
}

/// What the reading side does next.
#[derive(Debug)]
pub enum WsStep {
    /// The connection ends: what is left to do is to clean up.
    Stop,
    Continue,
    Reply(ServerMessage),
    Handle(ClientMessage),
    /// The connection has ended before; nothing is done.
    Done,
}

/// How far a connection has come.
#[derive(Debug, Clone, Copy, PartialEq, Eq, Structural)]
pub enum Stage {
    /// Messages are taken.
    Open,
    /// No more messages are taken, and what belongs to the connection is still
    /// there.
    Stopped,
    /// Everything that belonged to the connection has been given up.
    Ended,
}

/// The reading side of one connection.
#[derive(Debug)]
pub struct WsConnection {
    pub conn_id: String,
    /// Whether the browser has yet to say who it is.
    pub first_message: bool,
    pub stage: Stage,
}

/// What a [`WsConnection`] holds.
pub struct WsView {
    pub conn_id: Seq<char>,
    pub first_message: bool,
    pub stage: Stage,
}

impl View for WsConnection {
    type V = WsView;

    open spec fn view(&self) -> WsView {
        WsView { conn_id: self.conn_id@, first_message: self.first_message, stage: self.stage }
    }
}

/// A connection that has just been made.
pub open spec fn opened(conn_id: Seq<char>) -> WsView {
    WsView { conn_id, first_message: true, stage: Stage::Open }
}

/// How long a browser is waited for, in seconds.
pub open spec fn patience(w: WsView) -> u64 {
    if w.first_message {
        FIRST_MESSAGE_SECS
    } else {
        IDLE_SECS
    }
}

/// The connection after it has stopped.
pub open spec fn stopped(w: WsView) -> WsView {
    WsView { stage: Stage::Stopped, ..w }
}

pub open spec fn parse_error(reason: Seq<char>) -> ServerMessageView {
    ServerMessageView::Error {
        code: "invalid_message"@,
        message: "Failed to parse message: "@ + reason,
    }
}

/// Whether `step` and `after` are what `input` makes of `before`: the first
/// message must be a request to connect, and a request to disconnect is the
/// last one. Once a connection has stopped, nothing is done any more.
pub open spec fn is_ws_step(before: WsView, input: WsInput, after: WsView, step: WsStep) -> bool {
    if before.stage != Stage::Open {
        after == before && step == WsStep::Done
    } else {
        match input {
            WsInput::Message(msg) => if before.first_message && !(msg is Connect) {
                after == stopped(before) && step == WsStep::Stop
            } else if msg is Disconnect {
                after == stopped(WsView { first_message: false, ..before }) && step == WsStep::Stop
            } else {
                after == (WsView { first_message: false, ..before }) && step == WsStep::Handle(msg)
            },
            WsInput::Invalid(reason) => {
                &&& after == before
                &&& step matches WsStep::Reply(m) && m@ == parse_error(reason@)
            },
            WsInput::Other => after == before && step == WsStep::Continue,
            _ => after == stopped(before) && step == WsStep::Stop,
        }
    }
}

/// What is to be ended with a connection: the session of this generation, and
/// the relays of these TURN usernames.
#[derive(Debug)]
pub struct Ended {
    pub generation: Option<u64>,
    pub usernames: Vec<String>,
}

/// Whether the browser is no longer connected, and `generation` is what its
/// session was.
pub open spec fn is_disconnected(
    before: SessionsView,
    conn_id: Seq<char>,
    after: SessionsView,
    generation: Option<u64>,
) -> bool {
    &&& after == detached(before, conn_id)
    &&& match generation {
        Some(g) => is_current(before, conn_id, g),
        None => !before.sessions.dom().contains(conn_id),
    }
}

/// Whether the browser's credentials have been taken back, and `usernames` are
/// theirs, each once.
pub open spec fn is_revoked(
    before: CredentialsView,
    conn_id: Seq<char>,
    after: CredentialsView,
    usernames: Seq<Seq<char>>,
) -> bool {
    &&& after == (CredentialsView { entries: of_others(before.entries, conn_id), ..before })
    &&& usernames.no_duplicates()
    &&& forall|u: Seq<char>| #[trigger]
        usernames.contains(u) <==> before.entries.dom().contains(u) && before.entries[u].session
            == conn_id
}

/// Gives up what belongs to a connection, under its own id: its session, which
/// keeps its place until it is torn down and released, and its TURN
/// credentials.
pub fn end_connection(
    conn_id: &str,
    session_manager: &mut SessionManager,
    turn: Option<&mut TurnService>,
) -> (r: Ended)
    requires
        old(session_manager).wf(),
        turn matches Some(t) ==> t.credentials.wf(),
    ensures
        final(session_manager).wf(),
        is_disconnected(
            old(session_manager)@,
            conn_id@,
            final(session_manager)@,
            r.generation,
        ),
        turn matches Some(t) ==> {
            &&& final(t).credentials.wf()
            &&& *final(t) == (TurnService { credentials: final(t).credentials, ..*t })
            &&& is_revoked(
                t.credentials@,
                conn_id@,
                final(t).credentials@,
                views(r.usernames@),
            )
        },
        turn is None ==> r.usernames@.len() == 0,
{
    let generation = session_manager.disconnect_user(conn_id);
    let usernames = match turn {
        Some(t) => t.revoke(conn_id),
        None => Vec::new(),
    };
    Ended { generation, usernames }
}

impl WsConnection {
    /// A connection that has just been made.
    pub fn new(conn_id: String) -> (r: WsConnection)
        ensures
            r@ == opened(conn_id@),
    {
        WsConnection { conn_id, first_message: true, stage: Stage::Open }
    }

    /// How long to wait for the browser, in seconds: until the first message,
    /// from the beginning of the connection; then from the last frame on.
    pub fn patience_secs(&self) -> (r: u64)
        ensures
            r == patience(self@),
    {
        if self.first_message {
            FIRST_MESSAGE_SECS
        } else {
            IDLE_SECS
        }
    }

    /// What the reading side does when `input` wakes it.
    pub fn step(&mut self, input: WsInput) -> (r: WsStep)
        ensures
            is_ws_step(old(self)@, input, final(self)@, r),
    {
        if self.stage != Stage::Open {
            return WsStep::Done;
        }
        match input {
            WsInput::Message(msg) => {
                let connects = matches!(&msg, ClientMessage::Connect(_));
                if self.first_message && !connects {
                    self.stage = Stage::Stopped;
                    return WsStep::Stop;
                }
                self.first_message = false;
                if matches!(&msg, ClientMessage::Disconnect) {
                    self.stage = Stage::Stopped;
                    WsStep::Stop
                } else {
                    WsStep::Handle(msg)
                }
            },
            WsInput::Invalid(reason) => WsStep::Reply(
                ServerMessage::error(
                    "invalid_message",
                    concat2("Failed to parse message: ", reason.as_str()).as_str(),
                ),
            ),
            WsInput::Other => WsStep::Continue,
            _ => {
                self.stage = Stage::Stopped;
                WsStep::Stop
            },
        }
    }

    /// Cleans up after a connection that has stopped: gives up its session and
    /// its TURN credentials. `None`, and nothing changes, where the connection
    /// is open or has been cleaned up before.
    pub fn end(
        &mut self,
        session_manager: &mut SessionManager,
        turn: Option<&mut TurnService>,
    ) -> (r: Option<Ended>)
        requires
            old(session_manager).wf(),
            turn matches Some(t) ==> t.credentials.wf(),
        ensures
            final(self)@ == ended(old(self)@),
            final(session_manager).wf(),
            turn matches Some(t) ==> final(t).credentials.wf(),
            r is Some <==> old(self)@.stage == Stage::Stopped,
            is_ws_move(old(self)@, WsMove::End, final(self)@, WsOutcome::CleanedUp(r is Some)),
            match r {
                Some(e) => {
                    &&& is_disconnected(
                        old(session_manager)@,
                        old(self)@.conn_id,
                        final(session_manager)@,
                        e.generation,
                    )
                    &&& turn matches Some(t) ==> {
                        &&& *final(t) == (TurnService { credentials: final(t).credentials, ..*t })
                        &&& is_revoked(
                            t.credentials@,
                            old(self)@.conn_id,
                            final(t).credentials@,
                            views(e.usernames@),
                        )
                    }
                    &&& turn is None ==> e.usernames@.len() == 0
                },
                None => {
                    &&& final(session_manager)@ == old(session_manager)@
                    &&& turn matches Some(t) ==> *final(t) == *t
                },
            },
    {
        if self.stage != Stage::Stopped {
            return None;
        }
        self.stage = Stage::Ended;
        Some(end_connection(self.conn_id.as_str(), session_manager, turn))
    }
}

/// A connection after an attempt to clean up: what has stopped has ended.
pub open spec fn ended(w: WsView) -> WsView {
    if w.stage == Stage::Stopped {
        WsView { stage: Stage::Ended, ..w }
    } else {
        w
    }
}

// What goes out

/// Whether nothing is sent after this message: the session is over.
pub open spec fn is_terminal(m: ServerMessageView) -> bool {
    m matches ServerMessageView::Error { code, message } && (code == "mumble_disconnected"@ || code
        == "connect_failed"@ || code == "mumble_unreachable"@)
}

/// Whether nothing is sent after `m`.
pub fn terminal(m: &ServerMessage) -> (r: bool)
    ensures
        r == is_terminal(m@),
{
    match m {
        ServerMessage::Error(e) => same_text(e.code.as_str(), "mumble_disconnected") || same_text(
            e.code.as_str(),
            "connect_failed",
        ) || same_text(e.code.as_str(), "mumble_unreachable"),
        _ => false,
    }
}

/// What the sending side does after a send.
#[derive(Debug, Clone, Copy, PartialEq, Eq, Structural)]
pub enum AfterSend {
    /// The send failed: the connection is given up.
    Stop,
    /// The connection is closed in good order.
    Close,
    Continue,
}

/// How the sending side goes on after a send.
pub open spec fn goes_on(sent: bool, terminal: bool, backlog: nat) -> AfterSend {
    if !sent {
        AfterSend::Stop
    } else if terminal || backlog > MAX_BACKLOG {
        AfterSend::Close
    } else {
        AfterSend::Continue
    }
}

/// Decides how to go on after a send. `sent` tells whether it went through in
/// time, `terminal` whether the message was the last, and `backlog` how many
/// messages wait.
pub fn after_send(sent: bool, terminal: bool, backlog: usize) -> (r: AfterSend)
    ensures
        r == goes_on(sent, terminal, backlog as nat),
{
    if !sent {
        AfterSend::Stop
    } else if terminal || backlog > MAX_BACKLOG {
        AfterSend::Close
    } else {
        AfterSend::Continue
    }
}

// What a message leads to

/// Which of a browser's wishes failed.
#[derive(Debug, Clone, Copy, PartialEq, Eq, Structural)]
pub enum Wish {
    Connect,
    /// To connect, where the Mumble server cannot be reached.
    ReachMumble,
    Voice,
    Ice,
    Chat,
    ChannelJoin,
    Mute,
    Deafen,
}

impl Wish {
    pub open spec fn code(self) -> Seq<char> {
        match self {
            Wish::Connect => "connect_failed"@,
            Wish::ReachMumble => "mumble_unreachable"@,
            Wish::Voice => "voice_error"@,
            Wish::Ice => "ice_failed"@,
            Wish::Chat => "chat_failed"@,
            Wish::ChannelJoin => "channel_join_failed"@,
            Wish::Mute => "mute_failed"@,
            Wish::Deafen => "deafen_failed"@,
        }
    }

    pub open spec fn failure(self, reason: Seq<char>) -> ServerMessageView {
        ServerMessageView::Error { code: self.code(), message: reason }
    }

    /// What the browser is told where its wish fails.
    pub fn failed(&self, reason: &str) -> (r: ServerMessage)
        ensures
            r@ == self.failure(reason@),
    {
        match self {
            Wish::Connect => ServerMessage::error("connect_failed", reason),
            Wish::ReachMumble => ServerMessage::error("mumble_unreachable", reason),
            Wish::Voice => ServerMessage::error("voice_error", reason),
            Wish::Ice => ServerMessage::error("ice_failed", reason),
            Wish::Chat => ServerMessage::error("chat_failed", reason),
            Wish::ChannelJoin => ServerMessage::error("channel_join_failed", reason),
            Wish::Mute => ServerMessage::error("mute_failed", reason),
            Wish::Deafen => ServerMessage::error("deafen_failed", reason),
        }
    }
}

/// What is done about a message.
#[derive(Debug)]
pub enum ClientAction {
    Reply(ServerMessage),
    Connect { username: String },
    Disconnect,
    /// The session is asked; `wish` says what failed where it fails.
    Forward { directed: Directed, wish: Wish },
}

/// What a [`ClientAction`] says.
pub enum ActionView {
    Reply(ServerMessageView),
    Connect { username: Seq<char> },
    Disconnect,
    Forward { generation: u64, request: RequestView, wish: Wish },
}

impl View for ClientAction {
    type V = ActionView;

    open spec fn view(&self) -> ActionView {
        match *self {
            ClientAction::Reply(m) => ActionView::Reply(m@),
            ClientAction::Connect { username } => ActionView::Connect { username: username@ },
            ClientAction::Disconnect => ActionView::Disconnect,
            ClientAction::Forward { directed, wish } => ActionView::Forward {
                generation: directed.generation,
                request: directed.request@,
                wish,
            },
        }
    }
}

/// The request goes to the browser's session; without one the wish fails.
pub open spec fn forwarded(
    v: SessionsView,
    conn_id: Seq<char>,
    request: RequestView,
    wish: Wish,
) -> ActionView {
    if v.sessions.dom().contains(conn_id) {
        ActionView::Forward { generation: v.sessions[conn_id], request, wish }
    } else {
        ActionView::Reply(wish.failure(SessionError::NotFound.text()))
    }
}

/// Whether somebody may be called this: not only white space, and not too long.
pub open spec fn is_username(name: Seq<char>) -> bool {
    trimmed(name).len() > 0 && bytes_in(name) <= MAX_USERNAME_BYTES
}

/// What is done about a message from the browser `conn_id`.
pub open spec fn action_for(v: SessionsView, conn_id: Seq<char>, msg: ClientMessage) -> ActionView {
    match msg {
        ClientMessage::Connect(d) => if is_username(d.username@) {
            ActionView::Connect { username: d.username@ }
        } else {
            ActionView::Reply(Wish::Connect.failure("invalid username"@))
        },
        ClientMessage::Disconnect => ActionView::Disconnect,
        ClientMessage::Offer(d) => forwarded(
            v,
            conn_id,
            RequestView::Offer { sdp: d.sdp@ },
            Wish::Voice,
        ),
        ClientMessage::Answer(d) => forwarded(
            v,
            conn_id,
            RequestView::Answer { sdp: d.sdp@ },
            Wish::Voice,
        ),
        ClientMessage::StartVoice => forwarded(
            v,
            conn_id,
            RequestView::StartVoice { restart: false },
            Wish::Voice,
        ),
        ClientMessage::IceRestart => forwarded(
            v,
            conn_id,
            RequestView::StartVoice { restart: true },
            Wish::Voice,
        ),
        ClientMessage::IceRefresh => forwarded(v, conn_id, RequestView::RefreshIce, Wish::Voice),
        ClientMessage::IceCandidate(d) => forwarded(
            v,
            conn_id,
            RequestView::Candidate(
                IceCandidateView {
                    candidate: d.candidate@,
                    sdp_mid: opt_text(d.sdp_mid),
                    sdp_mline_index: d.sdp_mline_index,
                },
            ),
            Wish::Ice,
        ),
        ClientMessage::ChatSend(d) => if bytes_in(d.message@) > MAX_CHAT_BYTES {
            ActionView::Reply(Wish::Chat.failure("message exceeds 4096 bytes"@))
        } else {
            forwarded(
                v,
                conn_id,
                RequestView::SendChat { channel_id: d.channel_id, message: d.message@ },
                Wish::Chat,
            )
        },
        ClientMessage::ChannelJoin(d) => forwarded(
            v,
            conn_id,
            RequestView::JoinChannel { channel_id: d.channel_id },
            Wish::ChannelJoin,
        ),
        ClientMessage::Mute(d) => forwarded(v, conn_id, RequestView::SetMute(d.muted), Wish::Mute),
        ClientMessage::Deafen(d) => forwarded(
            v,
            conn_id,
            RequestView::SetDeaf(d.deafened),
            Wish::Deafen,
        ),
    }
}

/// What fails in an attempt to connect: that the Mumble server is not found or
/// does not take the connection has a code of its own.
pub open spec fn failed_wish(error: ConnectError) -> Wish {
    match error {
        ConnectError::Lookup(_) | ConnectError::NoAddress | ConnectError::Mumble(_) => {
            Wish::ReachMumble
        },
        ConnectError::AlreadyConnected
        | ConnectError::ServerFull
        | ConnectError::Webrtc(_) => Wish::Connect,
    }
}

/// What the browser is told where it cannot connect.
pub fn connect_failed(error: &ConnectError) -> (r: ServerMessage)
    ensures
        r@ == failed_wish(*error).failure(error.text()),
{
    let wish = match error {
        ConnectError::Lookup(_) | ConnectError::NoAddress | ConnectError::Mumble(_) => {
            Wish::ReachMumble
        },
        ConnectError::AlreadyConnected
        | ConnectError::ServerFull
        | ConnectError::Webrtc(_) => Wish::Connect,
    };
    wish.failed(error.message().as_str())
}

fn forward(found: Result<Directed, SessionError>, wish: Wish) -> (r: ClientAction)
    ensures
        match found {
            Ok(d) => r@ == (ActionView::Forward {
                generation: d.generation,
                request: d.request@,
                wish,
            }),
            Err(e) => r@ == ActionView::Reply(wish.failure(e.text())),
        },
{
    match found {
        Ok(directed) => ClientAction::Forward { directed, wish },
        Err(e) => ClientAction::Reply(wish.failed(e.message().as_str())),
    }
}

/// What is done about a message from the browser `conn_id`.
pub fn handle_client_message(
    conn_id: &str,
    msg: ClientMessage,
    session_manager: &SessionManager,
) -> (r: ClientAction)
    requires
        session_manager.wf(),
    ensures
        r@ == action_for(session_manager@, conn_id@, msg),
{
    match msg {
        ClientMessage::Connect(data) => {
            if trim(data.username.as_str()).as_str().is_empty() || byte_len(data.username.as_str())
                > MAX_USERNAME_BYTES {
                return ClientAction::Reply(Wish::Connect.failed("invalid username"));
            }
            ClientAction::Connect { username: data.username }
        },
        ClientMessage::Disconnect => ClientAction::Disconnect,
        ClientMessage::Offer(data) => forward(
            session_manager.handle_offer(conn_id, data.sdp.as_str()),
            Wish::Voice,
        ),
        ClientMessage::Answer(data) => forward(
            session_manager.handle_answer(conn_id, data.sdp.as_str()),
            Wish::Voice,
        ),
        ClientMessage::StartVoice => forward(
            session_manager.start_voice(conn_id, false),
            Wish::Voice,
        ),
        ClientMessage::IceRestart => forward(
            session_manager.start_voice(conn_id, true),
            Wish::Voice,
        ),
        ClientMessage::IceRefresh => forward(session_manager.refresh_ice(conn_id), Wish::Voice),
        ClientMessage::IceCandidate(data) => forward(
            session_manager.add_ice_candidate(
                conn_id,
                data.candidate.as_str(),
                data.sdp_mid,
                data.sdp_mline_index,
            ),
            Wish::Ice,
        ),
        ClientMessage::ChatSend(data) => {
            if byte_len(data.message.as_str()) > MAX_CHAT_BYTES {
                return ClientAction::Reply(Wish::Chat.failed("message exceeds 4096 bytes"));
            }
            forward(
                session_manager.send_chat(conn_id, data.channel_id, data.message.as_str()),
                Wish::Chat,
            )
        },
        ClientMessage::ChannelJoin(data) => forward(
            session_manager.join_channel(conn_id, data.channel_id),
            Wish::ChannelJoin,
        ),
        ClientMessage::Mute(data) => forward(
            session_manager.set_mute(conn_id, data.muted),
            Wish::Mute,
        ),
        ClientMessage::Deafen(data) => forward(
            session_manager.set_deaf(conn_id, data.deafened),
            Wish::Deafen,
        ),
    }
}

/// How a request went in its session.
#[derive(Debug)]
pub enum Outcome {
    /// It failed, and why.
    Failed(String),
    /// It was carried out. `ice` are the browser's ICE servers, where they were
    /// asked for, and `sdp` is the description that was made, if there is one.
    Done { ice: Option<IceConfig>, sdp: Option<String> },
}

pub open spec fn opt_ice(ice: Option<IceConfig>) -> Seq<ServerMessageView> {
    match ice {
        Some(c) => seq![ServerMessageView::IceConfig(c@)],
        None => Seq::empty(),
    }
}

pub open spec fn opt_offer(sdp: Option<String>) -> Seq<ServerMessageView> {
    match sdp {
        Some(s) => seq![ServerMessageView::Offer { sdp: s@ }],
        None => Seq::empty(),
    }
}

pub open spec fn opt_answer(sdp: Option<String>) -> Seq<ServerMessageView> {
    match sdp {
        Some(s) => seq![ServerMessageView::Answer { sdp: s@ }],
        None => Seq::empty(),
    }
}

/// What the browser is told, in order, when its request has been carried out or
/// has failed: the answer to its offer; the ICE servers before an offer; an
/// offer after its answer, where another is due.
pub open spec fn replies_to(kind: RequestKind, wish: Wish, outcome: Outcome) -> Seq<
    ServerMessageView,
> {
    match outcome {
        Outcome::Failed(reason) => seq![wish.failure(reason@)],
        Outcome::Done { ice, sdp } => match kind {
            RequestKind::Offer => opt_answer(sdp),
            RequestKind::Answer => opt_offer(sdp),
            RequestKind::StartVoice => opt_ice(ice) + opt_offer(sdp),
            RequestKind::RefreshIce => opt_ice(ice),
            RequestKind::Mumble | RequestKind::Candidate => Seq::empty(),
        },
    }
}

/// What the browser is told when its request has been carried out or has failed.
pub fn replies(kind: RequestKind, wish: Wish, outcome: Outcome) -> (r: Vec<ServerMessage>)
    ensures
        views(r@) == replies_to(kind, wish, outcome),
{
    let mut r: Vec<ServerMessage> = Vec::new();
    let ghost expected = replies_to(kind, wish, outcome);
    match outcome {
        Outcome::Failed(reason) => {
            r.push(wish.failed(reason.as_str()));
        },
        Outcome::Done { ice, sdp } => {
            let tells_ice = match kind {
                RequestKind::StartVoice | RequestKind::RefreshIce => true,
                _ => false,
            };
            if tells_ice {
                if let Some(config) = ice {
                    r.push(ServerMessage::IceConfig(config));
                }
            }
            if let Some(sdp) = sdp {
                match kind {
                    RequestKind::Offer => r.push(ServerMessage::Answer(AnswerData { sdp })),
                    RequestKind::Answer | RequestKind::StartVoice => r.push(
                        ServerMessage::Offer(OfferData { sdp }),
                    ),
                    _ => {},
                }
            }
        },
    }
    assert(views(r@) =~= expected);
    r
}

// Laws

/// A browser's own offer, on a session that takes it, is met with the answer
/// that was made, and with nothing else; where the session refuses it, with one
/// error.
pub proof fn law_offer_is_met_with_an_answer(
    v: SessionsView,
    conn_id: Seq<char>,
    offer: OfferData,
    ice: Option<IceConfig>,
    answer: String,
    reason: String,
)
    requires
        v.sessions.dom().contains(conn_id),
    ensures
        action_for(v, conn_id, ClientMessage::Offer(offer)) matches ActionView::Forward {
            generation,
            request,
            wish,
        } && {
            &&& is_current(v, conn_id, generation)
            &&& request == RequestView::Offer { sdp: offer.sdp@ }
            &&& replies_to(request.kind(), wish, Outcome::Done { ice, sdp: Some(answer) })
                == seq![ServerMessageView::Answer { sdp: answer@ }]
            &&& replies_to(request.kind(), wish, Outcome::Failed(reason)) == seq![
                ServerMessageView::Error { code: "voice_error"@, message: reason@ },
            ]
        },
{
}

/// Where voice is started, the browser knows its ICE servers before it sees the
/// offer.
pub proof fn law_ice_servers_come_before_the_offer(wish: Wish, ice: IceConfig, sdp: String)
    ensures
        replies_to(
            RequestKind::StartVoice,
            wish,
            Outcome::Done { ice: Some(ice), sdp: Some(sdp) },
        ) == seq![ServerMessageView::IceConfig(ice@), ServerMessageView::Offer { sdp: sdp@ }],
{
}

/// Nothing is done for a browser before it has asked to connect: until then a
/// connection hands no other message on, and another message ends it.
pub proof fn law_connect_comes_first(before: WsView, input: WsInput, after: WsView, step: WsStep)
    requires
        is_ws_step(before, input, after, step),
        before.first_message,
    ensures
        step matches WsStep::Handle(m) ==> m is Connect,
        !after.first_message ==> (step matches WsStep::Handle(m) && m is Connect),
        before.stage == Stage::Open && (input matches WsInput::Message(m) && !(m is Connect))
            ==> step == WsStep::Stop && after.stage == Stage::Stopped,
{
}

/// A message is handed on unchanged, and only a message is.
pub proof fn law_only_messages_are_handed_on(
    before: WsView,
    input: WsInput,
    after: WsView,
    step: WsStep,
)
    requires
        is_ws_step(before, input, after, step),
    ensures
        step matches WsStep::Handle(m) ==> input == WsInput::Message(m) && !(m is Disconnect),
        before.first_message || after.first_message == before.first_message,
{
}

/// Something that is done with a connection.
pub enum WsMove {
    Step(WsInput),
    End,
}

/// What came of it: a step, or whether there was something to clean up.
pub enum WsOutcome {
    Stepped(WsStep),
    CleanedUp(bool),
}

/// Whether `outcome` and `after` are what `m` makes of `before`.
pub open spec fn is_ws_move(before: WsView, m: WsMove, after: WsView, outcome: WsOutcome) -> bool {
    match m {
        WsMove::Step(input) => {
            &&& outcome is Stepped
            &&& is_ws_step(before, input, after, outcome->Stepped_0)
        },
        WsMove::End => {
            &&& after == ended(before)
            &&& outcome == WsOutcome::CleanedUp(before.stage == Stage::Stopped)
        },
    }
}

/// `moves` lead a connection through `states` and give `outcomes`.
pub open spec fn ws_run(
    states: Seq<WsView>,
    moves: Seq<WsMove>,
    outcomes: Seq<WsOutcome>,
) -> bool {
    &&& states.len() == moves.len() + 1
    &&& outcomes.len() == moves.len()
    &&& forall|i: int|
        0 <= i < moves.len() ==> is_ws_move(
            states[i],
            #[trigger] moves[i],
            states[i + 1],
            outcomes[i],
        )
}

proof fn lemma_stage_only_grows(
    states: Seq<WsView>,
    moves: Seq<WsMove>,
    outcomes: Seq<WsOutcome>,
    i: int,
    j: int,
)
    requires
        ws_run(states, moves, outcomes),
        0 <= i <= j <= moves.len(),
    ensures
        states[j].conn_id == states[i].conn_id,
        states[i].stage != Stage::Open ==> states[j].stage != Stage::Open,
        states[i].stage == Stage::Ended ==> states[j].stage == Stage::Ended,
    decreases j - i,
{
    if i < j {
        assert(is_ws_move(states[i], moves[i], states[i + 1], outcomes[i]));
        lemma_stage_only_grows(states, moves, outcomes, i + 1, j);
    }
}

/// A connection stops at most once, and after that no message is handed on and
/// nothing is answered.
pub proof fn law_nothing_is_done_after_the_stop(
    states: Seq<WsView>,
    moves: Seq<WsMove>,
    outcomes: Seq<WsOutcome>,
    i: int,
    j: int,
)
    requires
        ws_run(states, moves, outcomes),
        0 <= i < j < moves.len(),
        outcomes[i] == WsOutcome::Stepped(WsStep::Stop),
    ensures
        moves[j] is Step ==> outcomes[j] == WsOutcome::Stepped(WsStep::Done),
{
    assert(is_ws_move(states[i], moves[i], states[i + 1], outcomes[i]));
    lemma_stage_only_grows(states, moves, outcomes, i + 1, j);
    assert(is_ws_move(states[j], moves[j], states[j + 1], outcomes[j]));
}

/// A connection is cleaned up at most once, under the id that it was made with,
/// and as the last thing: no message is handed on and nothing is answered
/// after it.
pub proof fn law_cleanup_is_once_and_last(
    states: Seq<WsView>,
    moves: Seq<WsMove>,
    outcomes: Seq<WsOutcome>,
    i: int,
    j: int,
)
    requires
        ws_run(states, moves, outcomes),
        0 <= i < j < moves.len(),
        outcomes[i] == WsOutcome::CleanedUp(true),
    ensures
        states[i].conn_id == states[0].conn_id,
        outcomes[j] == WsOutcome::Stepped(WsStep::Done) || outcomes[j] == WsOutcome::CleanedUp(
            false,
        ),
{
    lemma_stage_only_grows(states, moves, outcomes, 0, i);
    assert(is_ws_move(states[i], moves[i], states[i + 1], outcomes[i]));
    lemma_stage_only_grows(states, moves, outcomes, i + 1, j);
    assert(is_ws_move(states[j], moves[j], states[j + 1], outcomes[j]));
}

/// However a connection ends, it is cleaned up: after a step that stops it, the
/// next attempt to clean up finds something to do, whatever steps come between.
pub proof fn law_every_stop_leads_to_cleanup(
    states: Seq<WsView>,
    moves: Seq<WsMove>,
    outcomes: Seq<WsOutcome>,
    i: int,
    j: int,
)
    requires
        ws_run(states, moves, outcomes),
        0 <= i < j < moves.len(),
        outcomes[i] == WsOutcome::Stepped(WsStep::Stop),
        moves[j] is End,
        forall|k: int| i < k < j ==> #[trigger] moves[k] is Step,
    ensures
        outcomes[j] == WsOutcome::CleanedUp(true),
        states[j + 1].stage == Stage::Ended,
{
    assert(is_ws_move(states[i], moves[i], states[i + 1], outcomes[i]));
    lemma_stays_stopped(states, moves, outcomes, i + 1, j);
    assert(is_ws_move(states[j], moves[j], states[j + 1], outcomes[j]));
}

proof fn lemma_stays_stopped(
    states: Seq<WsView>,
    moves: Seq<WsMove>,
    outcomes: Seq<WsOutcome>,
    i: int,
    j: int,
)
    requires
        ws_run(states, moves, outcomes),
        0 <= i <= j <= moves.len(),
        states[i].stage == Stage::Stopped,
        forall|k: int| i <= k < j ==> #[trigger] moves[k] is Step,
    ensures
        states[j].stage == Stage::Stopped,
    decreases j - i,
{
    if i < j {
        assert(is_ws_move(states[i], moves[i], states[i + 1], outcomes[i]));
        lemma_stays_stopped(states, moves, outcomes, i + 1, j);
    }
}

/// A connection is cleaned up only after it has stopped, and a connection that
/// is open can be stopped by each of the ways in which connections end.
pub proof fn law_ways_to_stop(before: WsView, input: WsInput, after: WsView, step: WsStep)
    requires
        is_ws_step(before, input, after, step),
        before.stage == Stage::Open,
    ensures
        after.stage == Stage::Stopped <==> step == WsStep::Stop,
        after.stage != Stage::Ended,
        input is SenderEnded || input is Stopping || input is TimedOut || input is Ended || input
            is Failed || input is Close || input is HandlerTimedOut ==> step == WsStep::Stop,
        input == WsInput::Message(ClientMessage::Disconnect) ==> step == WsStep::Stop,
{
}

/// Without a session, the only thing that a browser can do is connect: every
/// other message is answered with an error or ends the connection.
pub proof fn law_no_session_no_effect(
    v: SessionsView,
    conn_id: Seq<char>,
    msg: ClientMessage,
)
    requires
        !v.sessions.dom().contains(conn_id),
        !(msg is Connect),
        !(msg is Disconnect),
    ensures
        action_for(v, conn_id, msg) matches ActionView::Reply(m) && m is Error,
{
}

/// A browser's requests go to its own session.
pub proof fn law_requests_go_to_the_own_session(
    v: SessionsView,
    conn_id: Seq<char>,
    msg: ClientMessage,
)
    ensures
        action_for(v, conn_id, msg) matches ActionView::Forward { generation, request, wish }
            ==> is_current(v, conn_id, generation),
{
}

/// A browser that cannot connect, for whatever reason, and one whose Mumble
/// connection ended, is told so with the last message of its connection.
pub proof fn law_refusal_is_terminal(reason: Seq<char>)
    ensures
        is_terminal(Wish::Connect.failure(reason)),
        is_terminal(Wish::ReachMumble.failure(reason)),
        is_terminal(
            ServerMessageView::Error { code: "mumble_disconnected"@, message: reason },
        ),
{
}

/// What a connected browser asks of Mumble reaches the server field by field, in
/// one message of its own session that sets nothing else.
pub proof fn law_mumble_hears_what_the_browser_says(
    v: SessionsView,
    conn_id: Seq<char>,
    msg: ClientMessage,
    action: ClientAction,
)
    requires
        action@ == action_for(v, conn_id, msg),
        v.sessions.dom().contains(conn_id),
    ensures
        msg matches ClientMessage::Mute(d) ==> (action matches ClientAction::Forward {
            directed,
            wish,
        } && directed.generation == v.sessions[conn_id] && wish is Mute
            && (directed.request matches Request::Mumble(command) && command_packet_view(command)
            == Some(
            ClientPacketView::UserState(
                UserStateView {
                    session: None,
                    name: None,
                    channel_id: None,
                    mute: None,
                    deaf: None,
                    self_mute: Some(d.muted),
                    self_deaf: None,
                },
            ),
        ))),
        msg matches ClientMessage::Deafen(d) ==> (action matches ClientAction::Forward {
            directed,
            wish,
        } && directed.generation == v.sessions[conn_id] && wish is Deafen
            && (directed.request matches Request::Mumble(command) && command_packet_view(command)
            == Some(
            ClientPacketView::UserState(
                UserStateView {
                    session: None,
                    name: None,
                    channel_id: None,
                    mute: None,
                    deaf: None,
                    self_mute: if d.deafened {
                        Some(true)
                    } else {
                        None
                    },
                    self_deaf: Some(d.deafened),
                },
            ),
        ))),
        msg matches ClientMessage::ChannelJoin(d) ==> (action matches ClientAction::Forward {
            directed,
            wish,
        } && directed.generation == v.sessions[conn_id] && wish is ChannelJoin
            && (directed.request matches Request::Mumble(command) && command_packet_view(command)
            == Some(
            ClientPacketView::UserState(
                UserStateView {
                    session: None,
                    name: None,
                    channel_id: Some(d.channel_id),
                    mute: None,
                    deaf: None,
                    self_mute: None,
                    self_deaf: None,
                },
            ),
        ))),
        msg matches ClientMessage::ChatSend(d) ==> (vstd::utf8::encode_utf8(d.message@).len()
            <= 4096 ==> (action matches ClientAction::Forward { directed, wish }
            && directed.generation == v.sessions[conn_id] && wish is Chat
            && (directed.request matches Request::Mumble(command) && command_packet_view(command)
            == Some(
            ClientPacketView::TextMessage {
                actor: None,
                channel_id: seq![d.channel_id],
                message: d.message@,
            },
        )))),
{
}

/// What a connected browser says about its voice reaches its own session field by
/// field: its offer, its answer, each candidate, and the wish for voice, for a
/// restart or for fresh ICE servers.
pub proof fn law_session_hears_what_the_browser_says(
    v: SessionsView,
    conn_id: Seq<char>,
    msg: ClientMessage,
    action: ClientAction,
)
    requires
        action@ == action_for(v, conn_id, msg),
        v.sessions.dom().contains(conn_id),
    ensures
        msg matches ClientMessage::Offer(d) ==> (action matches ClientAction::Forward {
            directed,
            wish,
        } && directed.generation == v.sessions[conn_id] && wish is Voice
            && (directed.request matches Request::Offer { sdp } && sdp@ == d.sdp@)),
        msg matches ClientMessage::Answer(d) ==> (action matches ClientAction::Forward {
            directed,
            wish,
        } && directed.generation == v.sessions[conn_id] && wish is Voice
            && (directed.request matches Request::Answer { sdp } && sdp@ == d.sdp@)),
        msg matches ClientMessage::IceCandidate(d) ==> (action matches ClientAction::Forward {
            directed,
            wish,
        } && directed.generation == v.sessions[conn_id] && wish is Ice
            && (directed.request matches Request::Candidate(c) && c.candidate@ == d.candidate@ && (
        c.sdp_mid is Some <==> d.sdp_mid is Some) && (c.sdp_mid is Some ==> c.sdp_mid->0@
            == d.sdp_mid->0@) && c.sdp_mline_index == d.sdp_mline_index)),
        msg is StartVoice || msg is IceRestart ==> (action matches ClientAction::Forward {
            directed,
            wish,
        } && directed.generation == v.sessions[conn_id] && wish is Voice
            && (directed.request matches Request::StartVoice { restart } && (restart <==> msg
            is IceRestart))),
        msg is IceRefresh ==> (action matches ClientAction::Forward { directed, wish }
            && directed.generation == v.sessions[conn_id] && wish is Voice
            && directed.request is RefreshIce),
{
}

/// To connect takes a name that is not only white space and has at most 128
/// bytes, connected or not; any such name does, and it is taken as it is. To
/// disconnect is always granted. A chat message of more than 4096 bytes is
/// refused.
pub proof fn law_names_and_messages_have_limits(
    v: SessionsView,
    conn_id: Seq<char>,
    msg: ClientMessage,
)
    ensures
        msg matches ClientMessage::Connect(d) ==> ((exists|i: int|
            0 <= i < d.username@.len() && !is_space(#[trigger] d.username@[i]))
            && vstd::utf8::encode_utf8(d.username@).len() <= 128 ==> action_for(v, conn_id, msg)
            == (ActionView::Connect { username: d.username@ })),
        msg matches ClientMessage::Connect(d) ==> ((forall|i: int|
            0 <= i < d.username@.len() ==> is_space(#[trigger] d.username@[i]))
            || vstd::utf8::encode_utf8(d.username@).len() > 128 ==> action_for(v, conn_id, msg)
            == ActionView::Reply(
            ServerMessageView::Error {
                code: "connect_failed"@,
                message: "invalid username"@,
            },
        )),
        msg is Disconnect ==> action_for(v, conn_id, msg) == ActionView::Disconnect,
        msg matches ClientMessage::ChatSend(d) ==> (vstd::utf8::encode_utf8(d.message@).len() > 4096
            ==> action_for(v, conn_id, msg) == ActionView::Reply(
            ServerMessageView::Error {
                code: "chat_failed"@,
                message: "message exceeds 4096 bytes"@,
            },
        )),
{
    if let ClientMessage::Connect(d) = msg {
        law_trimming_takes_spaces_only(d.username@);
    }
}

/// On an open connection every message is handed on as it came, the first
/// provided that it asks to connect, until one asks to disconnect; a text that is
/// no message is answered with an error that says why, and other frames are
/// passed over. The connection stays open then, under its id.
pub proof fn law_messages_are_taken(before: WsView, input: WsInput, after: WsView, step: WsStep)
    requires
        is_ws_step(before, input, after, step),
        before.stage is Open,
    ensures
        after.conn_id == before.conn_id,
        input matches WsInput::Message(m) ==> ((before.first_message ==> m is Connect) && !(m
            is Disconnect) ==> step == WsStep::Handle(m) && after.stage is Open
            && !after.first_message),
        input matches WsInput::Message(m) ==> (!before.first_message && m is Disconnect
            ==> after.stage is Stopped && step is Stop),
        input matches WsInput::Invalid(reason) ==> (step matches WsStep::Reply(ServerMessage::Error(e))
            && e.code@ == "invalid_message"@ && e.message@ == "Failed to parse message: "@ + reason@
            && after.stage is Open && after.first_message == before.first_message),
        input is Other ==> step is Continue && after.stage is Open && after.first_message
            == before.first_message,
        !(input is Message) ==> after.first_message == before.first_message,
        after.stage is Open || after.stage is Stopped,
{
}

/// A connection that has stopped or ended takes nothing any more; cleaning up
/// ends what has stopped and nothing else.
pub proof fn law_stopped_connections_rest(
    before: WsView,
    input: WsInput,
    after: WsView,
    step: WsStep,
)
    requires
        is_ws_step(before, input, after, step),
    ensures
        !(before.stage is Open) ==> step is Done && after == before,
        before.stage is Stopped ==> ended(before).stage is Ended,
        !(before.stage is Stopped) ==> ended(before) == before,
        ended(before).conn_id == before.conn_id && ended(before).first_message
            == before.first_message,
{
}

/// A browser has 10 seconds for its first message, and then 45 for each frame.
pub proof fn law_patience_grows_with_the_first_message(w: WsView)
    ensures
        w.first_message ==> patience(w) == 10,
        !w.first_message ==> patience(w) == 45,
{
}

/// The sending side goes on after every send that went through, unless the
/// message was the last or more than 256 wait; a send that did not go through
/// ends it without a farewell.
pub proof fn law_sending_goes_on(sent: bool, terminal: bool, backlog: nat)
    ensures
        goes_on(sent, terminal, backlog) is Stop <==> !sent,
        goes_on(sent, terminal, backlog) is Close <==> sent && (terminal || backlog >= 257),
        goes_on(sent, terminal, backlog) is Continue <==> sent && !terminal && backlog <= 256,
{
}

/// Nothing but three kinds of error is the last message of a connection.
pub proof fn law_few_messages_are_the_last(m: ServerMessageView)
    ensures
        !(m is Error) ==> !is_terminal(m),
        m matches ServerMessageView::Error { code, message } ==> (is_terminal(m) <==> code
            == "mumble_disconnected"@ || code == "connect_failed"@ || code
            == "mumble_unreachable"@),
{
}

/// Each wish that fails has a code of its own, and the reason is told as it is.
pub proof fn law_failures_are_told(wish: Wish, reason: Seq<char>)
    ensures
        wish.failure(reason) matches ServerMessageView::Error { code, message } && message == reason
            && (wish is Connect ==> code == "connect_failed"@) && (wish is ReachMumble ==> code
            == "mumble_unreachable"@) && (wish is Voice ==> code == "voice_error"@) && (wish is Ice
            ==> code == "ice_failed"@) && (wish is Chat ==> code == "chat_failed"@) && (wish
            is ChannelJoin ==> code == "channel_join_failed"@) && (wish is Mute ==> code
            == "mute_failed"@) && (wish is Deafen ==> code == "deafen_failed"@),
{
}

/// Without a session a browser's wish fails under its own code, because there is
/// no session, and for no other reason.
pub proof fn law_wishes_need_a_session(v: SessionsView, conn_id: Seq<char>, msg: ClientMessage)
    requires
        !v.sessions.dom().contains(conn_id),
    ensures
        ({
            let code = if msg is IceCandidate {
                "ice_failed"@
            } else if msg is ChatSend {
                "chat_failed"@
            } else if msg is ChannelJoin {
                "channel_join_failed"@
            } else if msg is Mute {
                "mute_failed"@
            } else if msg is Deafen {
                "deafen_failed"@
            } else {
                "voice_error"@
            };
            !(msg is Connect) && !(msg is Disconnect) && (msg matches ClientMessage::ChatSend(d)
                ==> vstd::utf8::encode_utf8(d.message@).len() <= 4096) ==> action_for(v, conn_id, msg)
                == ActionView::Reply(
                ServerMessageView::Error { code, message: "Session not found"@ },
            )
        }),
{
}

/// Why a browser cannot connect decides what it is told: that Mumble cannot be
/// reached, where its address is not found or the connection to it fails, and
/// else that connecting failed.
pub proof fn law_unreachable_mumble_is_told_apart(error: ConnectError)
    ensures
        failed_wish(error) is ReachMumble <==> error is Lookup || error is NoAddress || error
            is Mumble,
        failed_wish(error) is Connect <==> error is AlreadyConnected || error is ServerFull || error
            is Webrtc,
        error matches ConnectError::Lookup(e) ==> error.text()
            == "Failed to resolve Mumble server: "@ + e@,
        error matches ConnectError::Mumble(e) ==> error.text() == "Mumble connection failed: "@
            + e@,
        error matches ConnectError::Webrtc(e) ==> error.text() == "WebRTC setup failed: "@ + e@,
        error is AlreadyConnected ==> error.text() == "Already connected"@,
        error is ServerFull ==> error.text() == "Server full"@,
        error is NoAddress ==> error.text() == "Failed to resolve Mumble server address"@,
{
}

/// What a browser is told of a request that was carried out: the answer to its
/// offer; an offer that became due with its answer; its ICE servers and an offer
/// where it starts voice; its ICE servers where it asks for them; and of nothing
/// else anything. What was not made is not told. A request that failed is
/// answered with one error.
pub proof fn law_replies_say_what_was_made(kind: RequestKind, wish: Wish, outcome: Outcome)
    ensures
        ({
            let told = replies_to(kind, wish, outcome);
            &&& outcome matches Outcome::Failed(reason) ==> told.len() == 1 && told[0]
                == wish.failure(reason@)
            &&& outcome matches Outcome::Done { ice, sdp } ==> {
                let tells_ice = (kind is StartVoice || kind is RefreshIce) && ice is Some;
                let tells_offer = (kind is StartVoice || kind is Answer) && sdp is Some;
                let tells_answer = kind is Offer && sdp is Some;
                &&& told.len() == (if tells_ice {
                    1int
                } else {
                    0
                }) + (if tells_offer || tells_answer {
                    1int
                } else {
                    0
                })
                &&& tells_ice ==> told[0] == ServerMessageView::IceConfig(ice->0@)
                &&& tells_offer ==> told.last() == (ServerMessageView::Offer { sdp: sdp->0@ })
                &&& tells_answer ==> told.last() == (ServerMessageView::Answer { sdp: sdp->0@ })
            }
        }),
{
}

/// A connection that is given up takes its own session and its own credentials
/// with it, and leaves every other session, every place, and every other
/// session's credentials.
pub proof fn law_cleanup_takes_only_its_own(
    before: SessionsView,
    conn_id: Seq<char>,
    after: SessionsView,
    generation: Option<u64>,
    credentials_before: CredentialsView,
    credentials_after: CredentialsView,
    usernames: Seq<Seq<char>>,
    u: Seq<char>,
)
    requires
        is_disconnected(before, conn_id, after, generation),
        is_revoked(credentials_before, conn_id, credentials_after, usernames),
    ensures
        !after.sessions.dom().contains(conn_id),
        u != conn_id ==> after.sessions.dom().contains(u) == before.sessions.dom().contains(u)
            && after.sessions[u] == before.sessions[u],
        after.holders == before.holders && after.max == before.max && after.next_generation
            == before.next_generation,
        before.sessions.dom().contains(conn_id) ==> generation == Some(before.sessions[conn_id]),
        !before.sessions.dom().contains(conn_id) ==> generation is None,
        credentials_after.entries.dom().contains(u) <==> credentials_before.entries.dom().contains(u)
            && credentials_before.entries[u].session != conn_id,
        credentials_after.entries.dom().contains(u) ==> credentials_after.entries[u]
            == credentials_before.entries[u],
        credentials_before.entries.dom().contains(u) ==> (usernames.contains(u) <==> !
        credentials_after.entries.dom().contains(u)),
        usernames.contains(u) ==> credentials_before.entries.dom().contains(u),
        credentials_after.realm == credentials_before.realm && credentials_after.ttl
            == credentials_before.ttl,
{
}

/// A new connection hands on a request to connect, whoever makes it, and nothing
/// before that; after it, everything but a request to disconnect.
pub proof fn law_new_connections_listen(
    conn_id: Seq<char>,
    first: ClientMessage,
    after: WsView,
    step: WsStep,
    second: ClientMessage,
    last: WsView,
    next: WsStep,
)
    requires
        is_ws_step(opened(conn_id), WsInput::Message(first), after, step),
        is_ws_step(after, WsInput::Message(second), last, next),
    ensures
        first is Connect ==> step == WsStep::Handle(first),
        !(first is Connect) ==> step is Stop && next is Done,
        first is Connect && !(second is Disconnect) ==> next == WsStep::Handle(second),
        first is Connect && second is Disconnect ==> next is Stop,
        last.conn_id == conn_id,
{
}

} // verus!
