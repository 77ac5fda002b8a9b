//! One connection to a Mumble server: what each control packet does to what is
//! known of the server, and what the connection's loop does next.

use vstd::prelude::*;

use crate::list::{
    copy_all, find, first_at, law_find_gives_the_first, remove_all, unlike, views, without,
};
use crate::mumble::proto::{
    build_authenticate_message, build_ping_at, build_text_message, build_user_state_channel,
    build_user_state_deaf, build_user_state_mute, build_version_message, Authenticate, Ping,
    TextMessage, UserState, UserStateView, Version,
};
use crate::text::{concat3, decimal, decimal_string};
use crate::ws::messages::{
    opt_text, ChannelInfo, ChannelView, UserChange, UserInfo, UserStateData, UserView,
};

verus! {

/// What happened on the Mumble server.
#[derive(Debug)]
pub enum MumbleEvent {
    Connected { session_id: u32, channels: Vec<ChannelInfo>, users: Vec<UserInfo> },
    UserJoined(UserInfo),
    UserLeft { session_id: u32 },
    UserStateChanged(UserStateData),
    ChannelAdded(ChannelInfo),
    ChannelUpdated(ChannelInfo),
    ChannelRemoved { channel_id: u32 },
    ChatMessage { sender_session: u32, channel_id: u32, message: String },
    Disconnected(String),
}

/// What the connection is asked to do.
#[derive(Debug)]
pub enum MumbleCommand {
    SendChat { channel_id: u32, message: String },
    JoinChannel { channel_id: u32 },
    SetMute(bool),
    SetDeaf(bool),
    Disconnect,
}

/// A channel as the server describes it.
#[derive(Debug)]
pub struct ChannelState {
    pub channel_id: u32,
    pub name: String,
    pub parent: u32,
    pub description: String,
}

/// The server's offer of voice encryption.
#[derive(Debug)]
pub struct CryptSetup {
    pub key: Vec<u8>,
    pub client_nonce: Vec<u8>,
    pub server_nonce: Vec<u8>,
}

/// Why a login was refused.
#[derive(Debug, Clone, Copy, PartialEq, Eq, Structural)]
pub enum RejectType {
    /// The server names no reason of its list; in words it is `None`.
    Unspecified,
    WrongVersion,
    InvalidUsername,
    WrongUserPW,
    WrongServerPW,
    UsernameInUse,
    ServerFull,
    NoCertificate,
    AuthenticatorFail,
}

/// A packet from the server. `Other` stands for every kind that the proxy has
/// no use for.
#[derive(Debug)]
pub enum ControlPacket {
    ChannelState(ChannelState),
    ChannelRemove { channel_id: u32 },
    UserState(UserState),
    UserRemove { session: u32 },
    CryptSetup(CryptSetup),
    ServerSync { session: u32 },
    TextMessage(TextMessage),
    Reject { kind: RejectType, reason: String },
    Other,
}

/// The length of the voice key.
pub const KEY_SIZE: usize = 16;

/// The length of a nonce.
pub const BLOCK_SIZE: usize = 16;

/// The key and the nonces that the voice channel is encrypted with.
#[derive(Debug, Clone, Copy)]
pub struct CryptKeys {
    pub key: [u8; 16],
    pub client_nonce: [u8; 16],
    pub server_nonce: [u8; 16],
}

/// What is known of the server.
#[derive(Debug)]
pub struct ConnectionState {
    /// The keys, until they are handed over at login.
    pub crypt_state: Option<CryptKeys>,
    /// Whether the keys are still to be handed over.
    pub crypt_wanted: bool,
    pub channels: Vec<ChannelInfo>,
    pub users: Vec<UserInfo>,
    pub our_session_id: Option<u32>,
    pub connected: bool,
}

/// What comes of a packet.
#[derive(Debug)]
pub struct PacketOutcome {
    /// Whether the connection goes on.
    pub keep_running: bool,
    /// What is reported.
    pub event: Option<MumbleEvent>,
    /// The keys that are handed over.
    pub crypt: Option<CryptKeys>,
}

// The same as mathematical values

/// What a [`MumbleEvent`] says.
pub enum MumbleEventView {
    Connected { session_id: u32, channels: Seq<ChannelView>, users: Seq<UserView> },
    UserJoined(UserView),
    UserLeft { session_id: u32 },
    UserStateChanged(UserChange),
    ChannelAdded(ChannelView),
    ChannelUpdated(ChannelView),
    ChannelRemoved { channel_id: u32 },
    ChatMessage { sender_session: u32, channel_id: u32, message: Seq<char> },
    Disconnected(Seq<char>),
}

impl View for MumbleEvent {
    type V = MumbleEventView;

    open spec fn view(&self) -> MumbleEventView {
        match *self {
            MumbleEvent::Connected { session_id, channels, users } => MumbleEventView::Connected {
                session_id,
                channels: views(channels@),
                users: views(users@),
            },
            MumbleEvent::UserJoined(u) => MumbleEventView::UserJoined(u@),
            MumbleEvent::UserLeft { session_id } => MumbleEventView::UserLeft { session_id },
            MumbleEvent::UserStateChanged(c) => MumbleEventView::UserStateChanged(c@),
            MumbleEvent::ChannelAdded(c) => MumbleEventView::ChannelAdded(c@),
            MumbleEvent::ChannelUpdated(c) => MumbleEventView::ChannelUpdated(c@),
            MumbleEvent::ChannelRemoved { channel_id } => MumbleEventView::ChannelRemoved {
                channel_id,
            },
            MumbleEvent::ChatMessage { sender_session, channel_id, message } => {
                MumbleEventView::ChatMessage { sender_session, channel_id, message: message@ }
            },
            MumbleEvent::Disconnected(reason) => MumbleEventView::Disconnected(reason@),
        }
    }
}

/// What a [`ControlPacket`] says.
pub enum ControlPacketView {
    ChannelState(ChannelView),
    ChannelRemove { channel_id: u32 },
    UserState(UserStateView),
    UserRemove { session: u32 },
    CryptSetup { key: Seq<u8>, client_nonce: Seq<u8>, server_nonce: Seq<u8> },
    ServerSync { session: u32 },
    TextMessage { actor: Option<u32>, channel_id: Seq<u32>, message: Seq<char> },
    Reject { kind: RejectType, reason: Seq<char> },
    Other,
}

impl View for ChannelState {
    type V = ChannelView;

    open spec fn view(&self) -> ChannelView {
        ChannelView {
            id: self.channel_id,
            name: self.name@,
            parent_id: self.parent,
            description: self.description@,
        }
    }
}

impl View for ControlPacket {
    type V = ControlPacketView;

    open spec fn view(&self) -> ControlPacketView {
        match *self {
            ControlPacket::ChannelState(c) => ControlPacketView::ChannelState(c@),
            ControlPacket::ChannelRemove { channel_id } => ControlPacketView::ChannelRemove {
                channel_id,
            },
            ControlPacket::UserState(u) => ControlPacketView::UserState(u@),
            ControlPacket::UserRemove { session } => ControlPacketView::UserRemove { session },
            ControlPacket::CryptSetup(c) => ControlPacketView::CryptSetup {
                key: c.key@,
                client_nonce: c.client_nonce@,
                server_nonce: c.server_nonce@,
            },
            ControlPacket::ServerSync { session } => ControlPacketView::ServerSync { session },
            ControlPacket::TextMessage(t) => ControlPacketView::TextMessage {
                actor: t.actor,
                channel_id: t.channel_id@,
                message: t.message@,
            },
            ControlPacket::Reject { kind, reason } => ControlPacketView::Reject {
                kind,
                reason: reason@,
            },
            ControlPacket::Other => ControlPacketView::Other,
        }
    }
}

/// What a [`ConnectionState`] knows.
pub struct ConnectionView {
    pub crypt_state: Option<CryptKeys>,
    pub crypt_wanted: bool,
    pub channels: Seq<ChannelView>,
    pub users: Seq<UserView>,
    pub our_session_id: Option<u32>,
    pub connected: bool,
}

impl View for ConnectionState {
    type V = ConnectionView;

    open spec fn view(&self) -> ConnectionView {
        ConnectionView {
            crypt_state: self.crypt_state,
            crypt_wanted: self.crypt_wanted,
            channels: views(self.channels@),
            users: views(self.users@),
            our_session_id: self.our_session_id,
            connected: self.connected,
        }
    }
}

/// What a [`PacketOutcome`] says.
pub struct OutcomeView {
    pub keep_running: bool,
    pub event: Option<MumbleEventView>,
    pub crypt: Option<CryptKeys>,
}

pub open spec fn event_view(event: Option<MumbleEvent>) -> Option<MumbleEventView> {
    match event {
        Some(e) => Some(e@),
        None => None,
    }
}

impl View for PacketOutcome {
    type V = OutcomeView;

    open spec fn view(&self) -> OutcomeView {
        OutcomeView {
            keep_running: self.keep_running,
            event: event_view(self.event),
            crypt: self.crypt,
        }
    }
}

// What a packet does

/// A user whose packet is the first news of them; what it leaves out is empty.
pub open spec fn new_user(m: UserStateView) -> UserView {
    UserView {
        session_id: or_default(m.session, 0),
        name: or_default(m.name, Seq::empty()),
        channel_id: or_default(m.channel_id, 0),
        mute: or_default(m.mute, false),
        deaf: or_default(m.deaf, false),
        self_mute: or_default(m.self_mute, false),
        self_deaf: or_default(m.self_deaf, false),
    }
}

pub open spec fn or_default<T>(v: Option<T>, d: T) -> T {
    match v {
        Some(x) => x,
        None => d,
    }
}

/// The change that a packet announces: exactly the fields that it sets.
pub open spec fn user_change(m: UserStateView) -> UserChange {
    UserChange {
        session_id: or_default(m.session, 0),
        channel_id: m.channel_id,
        name: m.name,
        mute: m.mute,
        deaf: m.deaf,
        self_mute: m.self_mute,
        self_deaf: m.self_deaf,
    }
}

/// A user after a change: the fields that it names are new, the others stay.
pub open spec fn changed_user(u: UserView, c: UserChange) -> UserView {
    UserView {
        session_id: u.session_id,
        name: or_default(c.name, u.name),
        channel_id: or_default(c.channel_id, u.channel_id),
        mute: or_default(c.mute, u.mute),
        deaf: or_default(c.deaf, u.deaf),
        self_mute: or_default(c.self_mute, u.self_mute),
        self_deaf: or_default(c.self_deaf, u.self_deaf),
    }
}

/// What is said of a field that has the wrong length.
pub open spec fn size_error(field: Seq<char>, expected: nat, got: nat) -> Seq<char> {
    "Invalid "@ + field + " size from server: expected "@ + decimal(expected) + " bytes, got "@
        + decimal(got)
}

/// The complaint about a crypt setup, if there is one: the first field of the
/// wrong length.
pub open spec fn crypt_complaint(
    key: Seq<u8>,
    client_nonce: Seq<u8>,
    server_nonce: Seq<u8>,
) -> Option<Seq<char>> {
    if key.len() != KEY_SIZE {
        Some(size_error("key"@, KEY_SIZE as nat, key.len()))
    } else if client_nonce.len() != BLOCK_SIZE {
        Some(size_error("client nonce"@, BLOCK_SIZE as nat, client_nonce.len()))
    } else if server_nonce.len() != BLOCK_SIZE {
        Some(size_error("server nonce"@, BLOCK_SIZE as nat, server_nonce.len()))
    } else {
        None
    }
}

/// Whether `k` holds these bytes.
pub open spec fn keys_hold(
    k: CryptKeys,
    key: Seq<u8>,
    client_nonce: Seq<u8>,
    server_nonce: Seq<u8>,
) -> bool {
    k.key@ == key && k.client_nonce@ == client_nonce && k.server_nonce@ == server_nonce
}

pub open spec fn reject_name(kind: RejectType) -> Seq<char> {
    match kind {
        RejectType::Unspecified => "None"@,
        RejectType::WrongVersion => "WrongVersion"@,
        RejectType::InvalidUsername => "InvalidUsername"@,
        RejectType::WrongUserPW => "WrongUserPW"@,
        RejectType::WrongServerPW => "WrongServerPW"@,
        RejectType::UsernameInUse => "UsernameInUse"@,
        RejectType::ServerFull => "ServerFull"@,
        RejectType::NoCertificate => "NoCertificate"@,
        RejectType::AuthenticatorFail => "AuthenticatorFail"@,
    }
}

/// Nothing is reported and the connection goes on.
pub open spec fn quiet() -> OutcomeView {
    OutcomeView { keep_running: true, event: None, crypt: None }
}

pub open spec fn reports(event: MumbleEventView) -> OutcomeView {
    OutcomeView { keep_running: true, event: Some(event), crypt: None }
}

/// `after` and `outcome` are what `packet` makes of `before`.
///
/// Until the login is complete, channels and users are only collected; from
/// then on every change to them is reported.
pub open spec fn packet_step(
    before: ConnectionView,
    packet: ControlPacketView,
    after: ConnectionView,
    outcome: OutcomeView,
) -> bool {
    match packet {
        ControlPacketView::ChannelState(c) => {
            let at = first_at::<ChannelInfo>(before.channels, c.id);
            if before.connected && at < before.channels.len() {
                &&& after == (ConnectionView {
                    channels: before.channels.update(at as int, c),
                    ..before
                })
                &&& outcome == reports(MumbleEventView::ChannelUpdated(c))
            } else {
                &&& after == (ConnectionView { channels: before.channels.push(c), ..before })
                &&& outcome == if before.connected {
                    reports(MumbleEventView::ChannelAdded(c))
                } else {
                    quiet()
                }
            }
        },
        ControlPacketView::ChannelRemove { channel_id } => {
            &&& after == (ConnectionView {
                channels: without::<ChannelInfo>(before.channels, channel_id),
                ..before
            })
            &&& outcome == if before.connected {
                reports(MumbleEventView::ChannelRemoved { channel_id })
            } else {
                quiet()
            }
        },
        ControlPacketView::UserState(m) => {
            let at = first_at::<UserInfo>(before.users, new_user(m).session_id);
            if before.connected && at < before.users.len() {
                &&& after == (ConnectionView {
                    users: before.users.update(
                        at as int,
                        changed_user(before.users[at as int], user_change(m)),
                    ),
                    ..before
                })
                &&& outcome == reports(MumbleEventView::UserStateChanged(user_change(m)))
            } else {
                &&& after == (ConnectionView { users: before.users.push(new_user(m)), ..before })
                &&& outcome == if before.connected {
                    reports(MumbleEventView::UserJoined(new_user(m)))
                } else {
                    quiet()
                }
            }
        },
        ControlPacketView::UserRemove { session } => {
            &&& after == (ConnectionView {
                users: without::<UserInfo>(before.users, session),
                ..before
            })
            &&& outcome == if before.connected {
                reports(MumbleEventView::UserLeft { session_id: session })
            } else {
                quiet()
            }
        },
        ControlPacketView::CryptSetup { key, client_nonce, server_nonce } => {
            match crypt_complaint(key, client_nonce, server_nonce) {
                Some(reason) => {
                    &&& after == before
                    &&& outcome == (OutcomeView {
                        keep_running: false,
                        event: Some(MumbleEventView::Disconnected(reason)),
                        crypt: None,
                    })
                },
                None => {
                    &&& after.crypt_state is Some
                    &&& keys_hold(after.crypt_state->0, key, client_nonce, server_nonce)
                    &&& after == (ConnectionView { crypt_state: after.crypt_state, ..before })
                    &&& outcome == quiet()
                },
            }
        },
        ControlPacketView::ServerSync { session } => {
            &&& after == (ConnectionView {
                crypt_state: None,
                crypt_wanted: before.crypt_wanted && before.crypt_state is None,
                our_session_id: Some(session),
                connected: true,
                ..before
            })
            &&& outcome == (OutcomeView {
                keep_running: true,
                event: Some(
                    MumbleEventView::Connected {
                        session_id: session,
                        channels: before.channels,
                        users: before.users,
                    },
                ),
                crypt: if before.crypt_wanted {
                    before.crypt_state
                } else {
                    None
                },
            })
        },
        ControlPacketView::TextMessage { actor, channel_id, message } => {
            &&& after == before
            &&& outcome == reports(
                MumbleEventView::ChatMessage {
                    sender_session: or_default(actor, 0),
                    channel_id: if channel_id.len() > 0 {
                        channel_id[0]
                    } else {
                        0
                    },
                    message,
                },
            )
        },
        ControlPacketView::Reject { kind, reason } => {
            &&& after == before
            &&& outcome == reports(
                MumbleEventView::Disconnected("Rejected: "@ + reject_name(kind) + ": "@ + reason),
            )
        },
        ControlPacketView::Other => after == before && outcome == quiet(),
    }
}

/// `<[u8; N]>::try_from` on a slice copies the bytes where there are exactly
/// `N` of them, and fails where there are not.
#[verifier::external_body]
fn array_from<const N: usize>(bytes: &[u8]) -> (r: Option<[u8; N]>)
    ensures
        r is Some <==> bytes@.len() == N,
        r matches Some(a) ==> a@ == bytes@,
{
    bytes.try_into().ok()
}

/// The bytes as an array of length `N`, or what is said of their length.
pub fn fixed_size_bytes<const N: usize>(bytes: &[u8], field_name: &str) -> (r: Result<
    [u8; N],
    String,
>)
    ensures
        match r {
            Ok(a) => bytes@.len() == N && a@ == bytes@,
            Err(e) => bytes@.len() != N && e@ == size_error(
                field_name@,
                N as nat,
                bytes@.len(),
            ),
        },
{
    match array_from::<N>(bytes) {
        Some(a) => Ok(a),
        None => {
            let mut e = concat3("Invalid ", field_name, " size from server: expected ");
            e.append(decimal_string(N as u64).as_str());
            e.append(" bytes, got ");
            e.append(decimal_string(bytes.len() as u64).as_str());
            Err(e)
        },
    }
}

/// The keys that the server offers, or what is said of the first field that
/// has the wrong length.
pub fn crypt_state_from_message(msg: &CryptSetup) -> (r: Result<CryptKeys, String>)
    ensures
        match r {
            Ok(k) => crypt_complaint(msg.key@, msg.client_nonce@, msg.server_nonce@) is None
                && keys_hold(k, msg.key@, msg.client_nonce@, msg.server_nonce@),
            Err(e) => crypt_complaint(msg.key@, msg.client_nonce@, msg.server_nonce@) == Some(e@),
        },
{
    let key = match fixed_size_bytes::<16>(msg.key.as_slice(), "key") {
        Ok(a) => a,
        Err(e) => return Err(e),
    };
    let client_nonce = match fixed_size_bytes::<16>(msg.client_nonce.as_slice(), "client nonce") {
        Ok(a) => a,
        Err(e) => return Err(e),
    };
    let server_nonce = match fixed_size_bytes::<16>(msg.server_nonce.as_slice(), "server nonce") {
        Ok(a) => a,
        Err(e) => return Err(e),
    };
    Ok(CryptKeys { key, client_nonce, server_nonce })
}

fn opt_copy(v: &Option<String>) -> (r: Option<String>)
    ensures
        opt_text(r) == opt_text(*v),
{
    match v {
        Some(t) => Some(t.clone()),
        None => None,
    }
}

fn opt_or<T: Copy>(v: Option<T>, d: T) -> (r: T)
    ensures
        r == or_default(v, d),
{
    match v {
        Some(x) => x,
        None => d,
    }
}

/// The user with the fields that `msg` sets replaced.
pub fn merge_user_state(existing: &UserInfo, msg: &UserState) -> (r: UserInfo)
    ensures
        r@ == changed_user(existing@, user_change(msg@)),
{
    UserInfo {
        session_id: existing.session_id,
        name: match &msg.name {
            Some(n) => n.clone(),
            None => existing.name.clone(),
        },
        channel_id: opt_or(msg.channel_id, existing.channel_id),
        mute: opt_or(msg.mute, existing.mute),
        deaf: opt_or(msg.deaf, existing.deaf),
        self_mute: opt_or(msg.self_mute, existing.self_mute),
        self_deaf: opt_or(msg.self_deaf, existing.self_deaf),
    }
}

fn user_from_state(msg: &UserState) -> (r: UserInfo)
    ensures
        r@ == new_user(msg@),
{
    UserInfo {
        session_id: opt_or(msg.session, 0),
        name: match &msg.name {
            Some(n) => n.clone(),
            None => String::new(),
        },
        channel_id: opt_or(msg.channel_id, 0),
        mute: opt_or(msg.mute, false),
        deaf: opt_or(msg.deaf, false),
        self_mute: opt_or(msg.self_mute, false),
        self_deaf: opt_or(msg.self_deaf, false),
    }
}

fn change_from_state(msg: &UserState) -> (r: UserStateData)
    ensures
        r@ == user_change(msg@),
{
    UserStateData {
        session_id: opt_or(msg.session, 0),
        channel_id: msg.channel_id,
        name: opt_copy(&msg.name),
        mute: msg.mute,
        deaf: msg.deaf,
        self_mute: msg.self_mute,
        self_deaf: msg.self_deaf,
    }
}

fn reject_text(kind: RejectType) -> (r: String)
    ensures
        r@ == reject_name(kind),
{
    match kind {
        RejectType::Unspecified => "None".to_owned(),
        RejectType::WrongVersion => "WrongVersion".to_owned(),
        RejectType::InvalidUsername => "InvalidUsername".to_owned(),
        RejectType::WrongUserPW => "WrongUserPW".to_owned(),
        RejectType::WrongServerPW => "WrongServerPW".to_owned(),
        RejectType::UsernameInUse => "UsernameInUse".to_owned(),
        RejectType::ServerFull => "ServerFull".to_owned(),
        RejectType::NoCertificate => "NoCertificate".to_owned(),
        RejectType::AuthenticatorFail => "AuthenticatorFail".to_owned(),
    }
}

fn outcome_quiet() -> (r: PacketOutcome)
    ensures
        r@ == quiet(),
{
    PacketOutcome { keep_running: true, event: None, crypt: None }
}

fn outcome_reports(event: MumbleEvent) -> (r: PacketOutcome)
    ensures
        r@ == reports(event@),
{
    PacketOutcome { keep_running: true, event: Some(event), crypt: None }
}

fn handle_channel_state(msg: ChannelState, state: &mut ConnectionState) -> (r: PacketOutcome)
    ensures
        packet_step(old(state)@, ControlPacketView::ChannelState(msg@), final(state)@, r@),
{
    let ghost before = state.channels@;
    let info = ChannelInfo {
        id: msg.channel_id,
        name: msg.name,
        parent_id: msg.parent,
        description: msg.description,
    };
    if !state.connected {
        state.channels.push(info);
        assert(views(state.channels@) =~= views(before).push(msg@));
        return outcome_quiet();
    }
    match find(&state.channels, info.id) {
        Some(i) => {
            let copy = info.clone();
            state.channels.set(i, copy);
            assert(views(state.channels@) =~= views(before).update(i as int, msg@));
            outcome_reports(MumbleEvent::ChannelUpdated(info))
        },
        None => {
            state.channels.push(info.clone());
            assert(views(state.channels@) =~= views(before).push(msg@));
            outcome_reports(MumbleEvent::ChannelAdded(info))
        },
    }
}

fn handle_user_state(msg: UserState, state: &mut ConnectionState) -> (r: PacketOutcome)
    ensures
        packet_step(old(state)@, ControlPacketView::UserState(msg@), final(state)@, r@),
{
    let ghost before = state.users@;
    let info = user_from_state(&msg);
    if !state.connected {
        state.users.push(info);
        assert(views(state.users@) =~= views(before).push(new_user(msg@)));
        return outcome_quiet();
    }
    match find(&state.users, info.session_id) {
        Some(i) => {
            let change = change_from_state(&msg);
            let merged = merge_user_state(&state.users[i], &msg);
            state.users.set(i, merged);
            assert(views(state.users@) =~= views(before).update(
                i as int,
                changed_user(views(before)[i as int], user_change(msg@)),
            ));
            outcome_reports(MumbleEvent::UserStateChanged(change))
        },
        None => {
            state.users.push(info.clone());
            assert(views(state.users@) =~= views(before).push(new_user(msg@)));
            outcome_reports(MumbleEvent::UserJoined(info))
        },
    }
}

/// Takes in one packet from the server.
pub fn handle_control_packet(packet: ControlPacket, state: &mut ConnectionState) -> (r:
    PacketOutcome)
    ensures
        packet_step(old(state)@, packet@, final(state)@, r@),
{
    match packet {
        ControlPacket::ChannelState(msg) => handle_channel_state(msg, state),
        ControlPacket::ChannelRemove { channel_id } => {
            remove_all(&mut state.channels, channel_id);
            if state.connected {
                outcome_reports(MumbleEvent::ChannelRemoved { channel_id })
            } else {
                outcome_quiet()
            }
        },
        ControlPacket::UserState(msg) => handle_user_state(msg, state),
        ControlPacket::UserRemove { session } => {
            remove_all(&mut state.users, session);
            if state.connected {
                outcome_reports(MumbleEvent::UserLeft { session_id: session })
            } else {
                outcome_quiet()
            }
        },
        ControlPacket::CryptSetup(msg) => match crypt_state_from_message(&msg) {
            Ok(keys) => {
                state.crypt_state = Some(keys);
                outcome_quiet()
            },
            Err(reason) => PacketOutcome {
                keep_running: false,
                event: Some(MumbleEvent::Disconnected(reason)),
                crypt: None,
            },
        },
        ControlPacket::ServerSync { session } => {
            state.our_session_id = Some(session);
            state.connected = true;
            let mut crypt: Option<CryptKeys> = None;
            if let Some(keys) = state.crypt_state.take() {
                if state.crypt_wanted {
                    state.crypt_wanted = false;
                    crypt = Some(keys);
                }
            }
            PacketOutcome {
                keep_running: true,
                event: Some(
                    MumbleEvent::Connected {
                        session_id: session,
                        channels: copy_all(&state.channels),
                        users: copy_all(&state.users),
                    },
                ),
                crypt,
            }
        },
        ControlPacket::TextMessage(msg) => {
            let channel_id: u32 = if msg.channel_id.len() > 0 {
                msg.channel_id[0]
            } else {
                0
            };
            outcome_reports(
                MumbleEvent::ChatMessage {
                    sender_session: opt_or(msg.actor, 0),
                    channel_id,
                    message: msg.message,
                },
            )
        },
        ControlPacket::Reject { kind, reason } => {
            let mut text = concat3("Rejected: ", reject_text(kind).as_str(), ": ");
            text.append(reason.as_str());
            outcome_reports(MumbleEvent::Disconnected(text))
        },
        ControlPacket::Other => outcome_quiet(),
    }
}

// The connection's loop

/// What the connection's loop is woken by.
#[derive(Debug)]
pub enum ClientInput {
    Packet(ControlPacket),
    StreamError(String),
    StreamEnd,
    /// A command, or `None` where no more can come.
    Command(Option<MumbleCommand>),
    PingDue { now: u64 },
}

/// A packet to the server.
#[derive(Debug)]
pub enum ClientPacket {
    TextMessage(TextMessage),
    UserState(UserState),
    Ping(Ping),
}

/// What the loop does next.
#[derive(Debug)]
pub struct ClientStep {
    pub send: Option<ClientPacket>,
    pub event: Option<MumbleEvent>,
    pub crypt: Option<CryptKeys>,
    pub keep_running: bool,
}

/// What a [`ClientPacket`] says.
pub enum ClientPacketView {
    TextMessage { actor: Option<u32>, channel_id: Seq<u32>, message: Seq<char> },
    UserState(UserStateView),
    Ping { timestamp: u64 },
}

impl View for ClientPacket {
    type V = ClientPacketView;

    open spec fn view(&self) -> ClientPacketView {
        match *self {
            ClientPacket::TextMessage(t) => ClientPacketView::TextMessage {
                actor: t.actor,
                channel_id: t.channel_id@,
                message: t.message@,
            },
            ClientPacket::UserState(u) => ClientPacketView::UserState(u@),
            ClientPacket::Ping(p) => ClientPacketView::Ping { timestamp: p.timestamp },
        }
    }
}

pub open spec fn packet_view(packet: Option<ClientPacket>) -> Option<ClientPacketView> {
    match packet {
        Some(p) => Some(p@),
        None => None,
    }
}

/// The packet that carries a command out; `None` for the one that ends the
/// connection.
pub open spec fn command_packet_view(command: MumbleCommand) -> Option<ClientPacketView> {
    match command {
        MumbleCommand::SendChat { channel_id, message } => Some(
            ClientPacketView::TextMessage {
                actor: None,
                channel_id: seq![channel_id],
                message: message@,
            },
        ),
        MumbleCommand::JoinChannel { channel_id } => Some(
            ClientPacketView::UserState(
                UserStateView { channel_id: Some(channel_id), ..UserStateView::nothing() },
            ),
        ),
        MumbleCommand::SetMute(muted) => Some(
            ClientPacketView::UserState(
                UserStateView { self_mute: Some(muted), ..UserStateView::nothing() },
            ),
        ),
        MumbleCommand::SetDeaf(deafened) => Some(
            ClientPacketView::UserState(
                UserStateView {
                    self_deaf: Some(deafened),
                    self_mute: if deafened {
                        Some(true)
                    } else {
                        None
                    },
                    ..UserStateView::nothing()
                },
            ),
        ),
        MumbleCommand::Disconnect => None,
    }
}

/// The packet that carries `command` out.
pub fn command_packet(command: MumbleCommand) -> (r: Option<ClientPacket>)
    ensures
        packet_view(r) == command_packet_view(command),
{
    match command {
        MumbleCommand::SendChat { channel_id, message } => Some(
            ClientPacket::TextMessage(build_text_message(channel_id, message.as_str())),
        ),
        MumbleCommand::JoinChannel { channel_id } => Some(
            ClientPacket::UserState(build_user_state_channel(channel_id)),
        ),
        MumbleCommand::SetMute(muted) => Some(
            ClientPacket::UserState(build_user_state_mute(muted)),
        ),
        MumbleCommand::SetDeaf(deafened) => Some(
            ClientPacket::UserState(build_user_state_deaf(deafened)),
        ),
        MumbleCommand::Disconnect => None,
    }
}

/// Whether `step` and `after` are what `input` makes of `before`.
pub open spec fn client_step(
    before: ConnectionView,
    input: ClientInput,
    after: ConnectionView,
    step: ClientStep,
) -> bool {
    match input {
        ClientInput::Packet(packet) => {
            &&& packet_step(
                before,
                packet@,
                after,
                OutcomeView {
                    keep_running: step.keep_running,
                    event: event_view(step.event),
                    crypt: step.crypt,
                },
            )
            &&& step.send is None
        },
        ClientInput::StreamError(reason) => {
            &&& after == before
            &&& step.send is None && step.crypt is None && !step.keep_running
            &&& event_view(step.event) == Some(MumbleEventView::Disconnected(reason@))
        },
        ClientInput::StreamEnd => {
            &&& after == before
            &&& step.send is None && step.crypt is None && !step.keep_running
            &&& event_view(step.event) == Some(
                MumbleEventView::Disconnected("Connection closed"@),
            )
        },
        ClientInput::Command(command) => {
            let packet = match command {
                Some(c) => command_packet_view(c),
                None => None,
            };
            &&& after == before
            &&& packet_view(step.send) == packet
            &&& step.event is None && step.crypt is None
            &&& step.keep_running == (packet is Some)
        },
        ClientInput::PingDue { now } => {
            &&& after == before
            &&& packet_view(step.send) == Some(ClientPacketView::Ping { timestamp: now })
            &&& step.event is None && step.crypt is None && step.keep_running
        },
    }
}

/// What is known before the server has said anything.
pub open spec fn nothing_known() -> ConnectionView {
    ConnectionView {
        crypt_state: None,
        crypt_wanted: true,
        channels: Seq::empty(),
        users: Seq::empty(),
        our_session_id: None,
        connected: false,
    }
}

/// The state of one connection to a Mumble server.
#[derive(Debug)]
pub struct MumbleClient {
    pub state: ConnectionState,
}

impl MumbleClient {
    /// A connection that has just been made, and the two messages that log
    /// `username` in, in the order in which they are sent.
    pub fn connect(username: &str) -> (r: (MumbleClient, Version, Authenticate))
        ensures
            r.0.state@ == nothing_known(),
            r.1.version == 0x0001_0400,
            r.1.release@ == "mumdota 0.1.0"@,
            r.1.os@ == "Linux"@,
            r.1.os_version@ == "Rust"@,
            r.2.username@ == username@,
            r.2.opus,
    {
        let state = ConnectionState {
            crypt_state: None,
            crypt_wanted: true,
            channels: Vec::new(),
            users: Vec::new(),
            our_session_id: None,
            connected: false,
        };
        assert(views(state.channels@) =~= Seq::<ChannelView>::empty());
        assert(views(state.users@) =~= Seq::<UserView>::empty());
        (MumbleClient { state }, build_version_message(), build_authenticate_message(username))
    }

    /// What the loop does when `input` wakes it.
    pub fn step(&mut self, input: ClientInput) -> (r: ClientStep)
        ensures
            client_step(old(self).state@, input, final(self).state@, r),
    {
        match input {
            ClientInput::Packet(packet) => {
                let outcome = handle_control_packet(packet, &mut self.state);
                ClientStep {
                    send: None,
                    event: outcome.event,
                    crypt: outcome.crypt,
                    keep_running: outcome.keep_running,
                }
            },
            ClientInput::StreamError(reason) => ClientStep {
                send: None,
                event: Some(MumbleEvent::Disconnected(reason)),
                crypt: None,
                keep_running: false,
            },
            ClientInput::StreamEnd => ClientStep {
                send: None,
                event: Some(MumbleEvent::Disconnected("Connection closed".to_owned())),
                crypt: None,
                keep_running: false,
            },
            ClientInput::Command(command) => {
                let send = match command {
                    Some(c) => command_packet(c),
                    None => None,
                };
                let keep_running = send.is_some();
                ClientStep { send, event: None, crypt: None, keep_running }
            },
            ClientInput::PingDue { now } => ClientStep {
                send: Some(ClientPacket::Ping(build_ping_at(now))),
                event: None,
                crypt: None,
                keep_running: true,
            },
        }
    }
}

// Laws

/// The channels and users that somebody knows who sees only the events.
pub struct Mirror {
    pub channels: Seq<ChannelView>,
    pub users: Seq<UserView>,
}

/// What an event tells the one who sees only the events.
pub open spec fn mirrored(m: Mirror, event: Option<MumbleEventView>) -> Mirror {
    match event {
        Some(MumbleEventView::Connected { session_id, channels, users }) => Mirror {
            channels,
            users,
        },
        Some(MumbleEventView::UserJoined(u)) => Mirror { users: m.users.push(u), ..m },
        Some(MumbleEventView::UserLeft { session_id }) => Mirror {
            users: without::<UserInfo>(m.users, session_id),
            ..m
        },
        Some(MumbleEventView::UserStateChanged(c)) => {
            let at = first_at::<UserInfo>(m.users, c.session_id) as int;
            Mirror { users: m.users.update(at, changed_user(m.users[at], c)), ..m }
        },
        Some(MumbleEventView::ChannelAdded(c)) => Mirror { channels: m.channels.push(c), ..m },
        Some(MumbleEventView::ChannelUpdated(c)) => Mirror {
            channels: m.channels.update(first_at::<ChannelInfo>(m.channels, c.id) as int, c),
            ..m
        },
        Some(MumbleEventView::ChannelRemoved { channel_id }) => Mirror {
            channels: without::<ChannelInfo>(m.channels, channel_id),
            ..m
        },
        _ => m,
    }
}

pub open spec fn mirror_of(s: ConnectionView) -> Mirror {
    Mirror { channels: s.channels, users: s.users }
}

/// What the events of `outcomes`, in order, tell the one who began with `m`.
pub open spec fn mirrored_all(m: Mirror, outcomes: Seq<OutcomeView>) -> Mirror
    decreases outcomes.len(),
{
    if outcomes.len() == 0 {
        m
    } else {
        mirrored(mirrored_all(m, outcomes.drop_last()), outcomes.last().event)
    }
}

/// `packets` lead through `states` and give `outcomes`.
pub open spec fn packet_run(
    states: Seq<ConnectionView>,
    packets: Seq<ControlPacketView>,
    outcomes: Seq<OutcomeView>,
) -> bool {
    &&& states.len() == packets.len() + 1
    &&& outcomes.len() == packets.len()
    &&& forall|i: int|
        0 <= i < packets.len() ==> packet_step(
            states[i],
            #[trigger] packets[i],
            states[i + 1],
            outcomes[i],
        )
}

/// After the login, the events are enough to know the channels and users: who
/// applies each event to the lists has the connection's own lists.
pub proof fn law_events_tell_everything(
    states: Seq<ConnectionView>,
    packets: Seq<ControlPacketView>,
    outcomes: Seq<OutcomeView>,
)
    requires
        packet_run(states, packets, outcomes),
        states[0].connected,
    ensures
        states.last().connected,
        mirror_of(states.last()) == mirrored_all(mirror_of(states[0]), outcomes),
    decreases packets.len(),
{
    if packets.len() > 0 {
        let n = packets.len() - 1;
        assert forall|i: int| 0 <= i < n implies packet_step(
            states.drop_last()[i],
            #[trigger] packets.drop_last()[i],
            states.drop_last()[i + 1],
            outcomes.drop_last()[i],
        ) by {
            assert(packets[i] == packets.drop_last()[i]);
        }
        law_events_tell_everything(states.drop_last(), packets.drop_last(), outcomes.drop_last());
        assert(packet_step(states[n], packets[n], states[n + 1], outcomes[n]));
        assert(states.drop_last().last() == states[n]);
    }
}

/// The login event tells the channels and users collected until then, and
/// before it nothing about channels and users is reported.
pub proof fn law_quiet_until_login(
    before: ConnectionView,
    packet: ControlPacketView,
    after: ConnectionView,
    outcome: OutcomeView,
)
    requires
        packet_step(before, packet, after, outcome),
        !before.connected,
    ensures
        after.connected <==> packet is ServerSync,
        outcome.event is Some ==> {
            ||| outcome.event->0 is Connected && mirrored(
                mirror_of(before),
                outcome.event,
            ) == mirror_of(after)
            ||| outcome.event->0 is ChatMessage
            ||| outcome.event->0 is Disconnected
        },
        outcome.event is Some && outcome.event->0 is Connected ==> packet is ServerSync,
{
}

/// Keys that are no longer wanted are never handed over.
proof fn lemma_unwanted_stays(
    states: Seq<ConnectionView>,
    packets: Seq<ControlPacketView>,
    outcomes: Seq<OutcomeView>,
    i: int,
    j: int,
)
    requires
        packet_run(states, packets, outcomes),
        0 <= i <= j <= packets.len(),
        !states[i].crypt_wanted,
    ensures
        !states[j].crypt_wanted,
    decreases j - i,
{
    if i < j {
        assert(packet_step(states[i], packets[i], states[i + 1], outcomes[i]));
        lemma_unwanted_stays(states, packets, outcomes, i + 1, j);
    }
}

/// The voice keys are handed over at most once in the life of a connection.
pub proof fn law_keys_handed_over_once(
    states: Seq<ConnectionView>,
    packets: Seq<ControlPacketView>,
    outcomes: Seq<OutcomeView>,
    i: int,
    j: int,
)
    requires
        packet_run(states, packets, outcomes),
        0 <= i < j < packets.len(),
        outcomes[i].crypt is Some,
    ensures
        outcomes[j].crypt is None,
{
    assert(packet_step(states[i], packets[i], states[i + 1], outcomes[i]));
    lemma_unwanted_stays(states, packets, outcomes, i + 1, j);
    assert(packet_step(states[j], packets[j], states[j + 1], outcomes[j]));
}

/// Keys that were offered stay until they are replaced or handed over.
proof fn lemma_keys_stay(
    states: Seq<ConnectionView>,
    packets: Seq<ControlPacketView>,
    outcomes: Seq<OutcomeView>,
    i: int,
    j: int,
)
    requires
        packet_run(states, packets, outcomes),
        0 <= i <= j <= packets.len(),
        forall|k: int|
            i <= k < j ==> !(#[trigger] packets[k] is CryptSetup) && !(packets[k] is ServerSync),
    ensures
        states[j].crypt_state == states[i].crypt_state,
        states[j].crypt_wanted == states[i].crypt_wanted,
    decreases j - i,
{
    if i < j {
        assert(packet_step(states[i], packets[i], states[i + 1], outcomes[i]));
        lemma_keys_stay(states, packets, outcomes, i + 1, j);
    }
}

/// The login hands over the keys that were offered last, where none have been
/// handed over before.
pub proof fn law_login_hands_over_the_last_keys(
    states: Seq<ConnectionView>,
    packets: Seq<ControlPacketView>,
    outcomes: Seq<OutcomeView>,
    i: int,
    j: int,
)
    requires
        packet_run(states, packets, outcomes),
        0 <= i < j < packets.len(),
        packets[i] matches ControlPacketView::CryptSetup { key, client_nonce, server_nonce }
            && crypt_complaint(key, client_nonce, server_nonce) is None,
        states[i].crypt_wanted,
        packets[j] is ServerSync,
        forall|k: int|
            i < k < j ==> !(#[trigger] packets[k] is CryptSetup) && !(packets[k] is ServerSync),
    ensures
        outcomes[j].crypt matches Some(keys) && keys_hold(
            keys,
            packets[i]->CryptSetup_key,
            packets[i]->CryptSetup_client_nonce,
            packets[i]->CryptSetup_server_nonce,
        ),
{
    assert(packet_step(states[i], packets[i], states[i + 1], outcomes[i]));
    lemma_keys_stay(states, packets, outcomes, i + 1, j);
    assert(packet_step(states[j], packets[j], states[j + 1], outcomes[j]));
}

/// A crypt setup ends the connection exactly where one of its fields has the
/// wrong length; no other packet ends it.
pub proof fn law_only_bad_crypt_setup_stops(
    before: ConnectionView,
    packet: ControlPacketView,
    after: ConnectionView,
    outcome: OutcomeView,
)
    requires
        packet_step(before, packet, after, outcome),
    ensures
        outcome.keep_running <==> !(packet matches ControlPacketView::CryptSetup {
            key,
            client_nonce,
            server_nonce,
        } && (key.len() != 16 || client_nonce.len() != 16 || server_nonce.len() != 16)),
        !outcome.keep_running ==> after == before && outcome.event is Some
            && outcome.event->0 is Disconnected,
{
}

/// The user that a first message makes known has exactly the fields that the
/// message sets, and is put behind the others; after the login they are reported
/// as they are kept.
pub proof fn law_first_news_of_a_user(
    before: ConnectionView,
    m: UserStateView,
    after: ConnectionView,
    outcome: OutcomeView,
)
    requires
        packet_step(before, ControlPacketView::UserState(m), after, outcome),
        before.connected ==> forall|i: int|
            0 <= i < before.users.len() ==> (#[trigger] before.users[i]).session_id
                != match m.session {
                Some(x) => x,
                None => 0,
            },
    ensures
        after.users.len() == before.users.len() + 1,
        forall|i: int| 0 <= i < before.users.len() ==> after.users[i] == before.users[i],
        ({
            let u = after.users[before.users.len() as int];
            &&& m.session matches Some(x) ==> u.session_id == x
            &&& m.name matches Some(x) ==> u.name == x
            &&& m.channel_id matches Some(x) ==> u.channel_id == x
            &&& m.mute matches Some(x) ==> u.mute == x
            &&& m.deaf matches Some(x) ==> u.deaf == x
            &&& m.self_mute matches Some(x) ==> u.self_mute == x
            &&& m.self_deaf matches Some(x) ==> u.self_deaf == x
            &&& m.session is None ==> u.session_id == 0
            &&& m.name is None ==> u.name.len() == 0
            &&& m.channel_id is None ==> u.channel_id == 0
            &&& m.mute is None ==> !u.mute
            &&& m.deaf is None ==> !u.deaf
            &&& m.self_mute is None ==> !u.self_mute
            &&& m.self_deaf is None ==> !u.self_deaf
            &&& before.connected ==> outcome.event == Some(MumbleEventView::UserJoined(u))
        }),
        !before.connected ==> outcome.event is None,
        outcome.crypt is None,
        outcome.keep_running,
        after.channels == before.channels && after.connected == before.connected,
        after.our_session_id == before.our_session_id,
        after.crypt_state == before.crypt_state && after.crypt_wanted == before.crypt_wanted,
{
    law_find_gives_the_first::<UserInfo>(
        before.users,
        match m.session {
            Some(x) => x,
            None => 0,
        },
    );
}

/// News of a known user changes, of the first user with that session, exactly the
/// fields that the message sets, and leaves everybody else alone; the report
/// names the same fields.
pub proof fn law_news_of_a_known_user(
    before: ConnectionView,
    m: UserStateView,
    after: ConnectionView,
    outcome: OutcomeView,
    at: int,
)
    requires
        packet_step(before, ControlPacketView::UserState(m), after, outcome),
        before.connected,
        0 <= at < before.users.len(),
        before.users[at].session_id == match m.session {
            Some(x) => x,
            None => 0,
        },
        forall|i: int|
            0 <= i < at ==> (#[trigger] before.users[i]).session_id != before.users[at].session_id,
    ensures
        after.users.len() == before.users.len(),
        forall|i: int|
            0 <= i < before.users.len() && i != at ==> after.users[i] == before.users[i],
        ({
            let u = before.users[at];
            let v = after.users[at];
            &&& v.session_id == u.session_id
            &&& v.name == match m.name {
                Some(x) => x,
                None => u.name,
            }
            &&& v.channel_id == match m.channel_id {
                Some(x) => x,
                None => u.channel_id,
            }
            &&& v.mute == match m.mute {
                Some(x) => x,
                None => u.mute,
            }
            &&& v.deaf == match m.deaf {
                Some(x) => x,
                None => u.deaf,
            }
            &&& v.self_mute == match m.self_mute {
                Some(x) => x,
                None => u.self_mute,
            }
            &&& v.self_deaf == match m.self_deaf {
                Some(x) => x,
                None => u.self_deaf,
            }
            &&& outcome.event == Some(
                MumbleEventView::UserStateChanged(
                    UserChange {
                        session_id: u.session_id,
                        channel_id: m.channel_id,
                        name: m.name,
                        mute: m.mute,
                        deaf: m.deaf,
                        self_mute: m.self_mute,
                        self_deaf: m.self_deaf,
                    },
                ),
            )
        }),
        outcome.crypt is None,
        outcome.keep_running,
        after.channels == before.channels && after.connected == before.connected,
        after.our_session_id == before.our_session_id,
        after.crypt_state == before.crypt_state && after.crypt_wanted == before.crypt_wanted,
{
    law_find_gives_the_first::<UserInfo>(before.users, before.users[at].session_id);
}

/// A channel that is described for the first time is put behind the others as it
/// is described, and reported so after the login.
pub proof fn law_first_news_of_a_channel(
    before: ConnectionView,
    c: ChannelView,
    after: ConnectionView,
    outcome: OutcomeView,
)
    requires
        packet_step(before, ControlPacketView::ChannelState(c), after, outcome),
        before.connected ==> forall|i: int|
            0 <= i < before.channels.len() ==> (#[trigger] before.channels[i]).id != c.id,
    ensures
        after.channels == before.channels + seq![c],
        before.connected ==> outcome.event == Some(MumbleEventView::ChannelAdded(c)),
        !before.connected ==> outcome.event is None,
        outcome.crypt is None,
        outcome.keep_running,
        after.users == before.users && after.connected == before.connected,
        after.our_session_id == before.our_session_id,
        after.crypt_state == before.crypt_state && after.crypt_wanted == before.crypt_wanted,
{
    law_find_gives_the_first::<ChannelInfo>(before.channels, c.id);
    assert(before.channels.push(c) =~= before.channels + seq![c]);
}

/// A known channel that is described again stays in its place, is from then on as
/// it is described, and is reported so; the other channels stay.
pub proof fn law_news_of_a_known_channel(
    before: ConnectionView,
    c: ChannelView,
    after: ConnectionView,
    outcome: OutcomeView,
    at: int,
)
    requires
        packet_step(before, ControlPacketView::ChannelState(c), after, outcome),
        before.connected,
        0 <= at < before.channels.len(),
        before.channels[at].id == c.id,
        forall|i: int| 0 <= i < at ==> (#[trigger] before.channels[i]).id != c.id,
    ensures
        after.channels.len() == before.channels.len(),
        after.channels[at] == c,
        forall|i: int|
            0 <= i < before.channels.len() && i != at ==> after.channels[i] == before.channels[i],
        outcome.event == Some(MumbleEventView::ChannelUpdated(c)),
        outcome.crypt is None,
        outcome.keep_running,
        after.users == before.users && after.connected == before.connected,
        after.our_session_id == before.our_session_id,
        after.crypt_state == before.crypt_state && after.crypt_wanted == before.crypt_wanted,
{
    law_find_gives_the_first::<ChannelInfo>(before.channels, c.id);
}

/// Who leaves is gone, and so is a channel that is removed; everybody else and
/// every other channel stays, in order. After the login it is reported, whether
/// or not anything was there.
pub proof fn law_what_is_removed_is_gone(
    before: ConnectionView,
    number: u32,
    after_user: ConnectionView,
    user_outcome: OutcomeView,
    after_channel: ConnectionView,
    channel_outcome: OutcomeView,
)
    requires
        packet_step(
            before,
            ControlPacketView::UserRemove { session: number },
            after_user,
            user_outcome,
        ),
        packet_step(
            before,
            ControlPacketView::ChannelRemove { channel_id: number },
            after_channel,
            channel_outcome,
        ),
    ensures
        after_user.users == before.users.filter(|u: UserView| u.session_id != number),
        after_user.channels == before.channels,
        after_channel.channels == before.channels.filter(|c: ChannelView| c.id != number),
        after_channel.users == before.users,
        after_user.connected == before.connected && after_channel.connected == before.connected,
        after_user.our_session_id == before.our_session_id,
        after_channel.our_session_id == before.our_session_id,
        after_user.crypt_state == before.crypt_state,
        after_channel.crypt_state == before.crypt_state,
        after_user.crypt_wanted == before.crypt_wanted,
        after_channel.crypt_wanted == before.crypt_wanted,
        before.connected ==> user_outcome.event == Some(
            MumbleEventView::UserLeft { session_id: number },
        ) && channel_outcome.event == Some(MumbleEventView::ChannelRemoved { channel_id: number }),
        !before.connected ==> user_outcome.event is None && channel_outcome.event is None,
        user_outcome.keep_running && channel_outcome.keep_running,
        user_outcome.crypt is None && channel_outcome.crypt is None,
{
    assert(unlike::<UserInfo>(number) =~= |u: UserView| u.session_id != number);
    assert(unlike::<ChannelInfo>(number) =~= |c: ChannelView| c.id != number);
}

/// A crypt setup with 16 bytes of each kind is kept byte for byte and nothing is
/// reported. Any other ends the connection with a complaint about the first field
/// of the wrong length.
pub proof fn law_crypt_setup_is_kept_or_refused(
    before: ConnectionView,
    key: Seq<u8>,
    client_nonce: Seq<u8>,
    server_nonce: Seq<u8>,
    after: ConnectionView,
    outcome: OutcomeView,
)
    requires
        packet_step(
            before,
            ControlPacketView::CryptSetup { key, client_nonce, server_nonce },
            after,
            outcome,
        ),
    ensures
        after.channels == before.channels && after.users == before.users,
        after.our_session_id == before.our_session_id && after.connected == before.connected,
        after.crypt_wanted == before.crypt_wanted,
        outcome.crypt is None,
        key.len() == 16 && client_nonce.len() == 16 && server_nonce.len() == 16 ==> {
            &&& after.crypt_state matches Some(k) && k.key@ == key && k.client_nonce@
                == client_nonce && k.server_nonce@ == server_nonce
            &&& outcome.event is None && outcome.keep_running
        },
        key.len() != 16 || client_nonce.len() != 16 || server_nonce.len() != 16 ==> {
            &&& after.crypt_state == before.crypt_state
            &&& !outcome.keep_running
        },
        key.len() != 16 ==> outcome.event == Some(
            MumbleEventView::Disconnected(
                "Invalid "@ + "key"@ + " size from server: expected "@ + decimal(16)
                    + " bytes, got "@ + decimal(key.len()),
            ),
        ),
        key.len() == 16 && client_nonce.len() != 16 ==> outcome.event == Some(
            MumbleEventView::Disconnected(
                "Invalid "@ + "client nonce"@ + " size from server: expected "@ + decimal(16)
                    + " bytes, got "@ + decimal(client_nonce.len()),
            ),
        ),
        key.len() == 16 && client_nonce.len() == 16 && server_nonce.len() != 16 ==> outcome.event
            == Some(
            MumbleEventView::Disconnected(
                "Invalid "@ + "server nonce"@ + " size from server: expected "@ + decimal(16)
                    + " bytes, got "@ + decimal(server_nonce.len()),
            ),
        ),
{
}

/// The login keeps what was collected and reports all of it, under the session
/// that the server names. Keys that wait are handed over, where they are wanted;
/// where none wait, they stay wanted.
pub proof fn law_login_reports_what_is_known(
    before: ConnectionView,
    session: u32,
    after: ConnectionView,
    outcome: OutcomeView,
)
    requires
        packet_step(before, ControlPacketView::ServerSync { session }, after, outcome),
    ensures
        outcome.event == Some(
            MumbleEventView::Connected {
                session_id: session,
                channels: after.channels,
                users: after.users,
            },
        ),
        after.channels == before.channels && after.users == before.users,
        after.our_session_id == Some(session) && after.connected,
        outcome.keep_running,
        before.crypt_wanted ==> outcome.crypt == before.crypt_state,
        !before.crypt_wanted ==> outcome.crypt is None,
        after.crypt_state is None,
        after.crypt_wanted <==> before.crypt_wanted && outcome.crypt is None,
{
}

/// A chat message is reported as it came, from its sender and for its first
/// channel, before the login as after it. A refusal is reported with its kind and
/// reason. Neither changes what is known, and nor does any other packet.
pub proof fn law_messages_are_reported(
    before: ConnectionView,
    packet: ControlPacketView,
    after: ConnectionView,
    outcome: OutcomeView,
)
    requires
        packet_step(before, packet, after, outcome),
        packet is TextMessage || packet is Reject || packet is Other,
    ensures
        after == before,
        outcome.keep_running,
        outcome.crypt is None,
        packet is Other ==> outcome.event is None,
        packet matches ControlPacketView::TextMessage { actor, channel_id, message } ==> (
        outcome.event matches Some(MumbleEventView::ChatMessage {
            sender_session,
            channel_id: channel,
            message: text,
        }) && text == message && (actor matches Some(a) ==> sender_session == a) && (actor is None
            ==> sender_session == 0) && (channel_id.len() > 0 ==> channel == channel_id[0]) && (
        channel_id.len() == 0 ==> channel == 0)),
        packet matches ControlPacketView::Reject { kind, reason } ==> outcome.event == Some(
            MumbleEventView::Disconnected("Rejected: "@ + reject_name(kind) + ": "@ + reason),
        ),
{
}

/// Each kind of refusal has the name that the protocol gives it.
pub proof fn law_refusals_have_their_names()
    ensures
        reject_name(RejectType::Unspecified) == seq!['N', 'o', 'n', 'e'],
        reject_name(RejectType::WrongVersion) == "WrongVersion"@,
        reject_name(RejectType::InvalidUsername) == "InvalidUsername"@,
        reject_name(RejectType::WrongUserPW) == "WrongUserPW"@,
        reject_name(RejectType::WrongServerPW) == "WrongServerPW"@,
        reject_name(RejectType::UsernameInUse) == "UsernameInUse"@,
        reject_name(RejectType::ServerFull) == "ServerFull"@,
        reject_name(RejectType::NoCertificate) == "NoCertificate"@,
        reject_name(RejectType::AuthenticatorFail) == "AuthenticatorFail"@,
        forall|a: RejectType, b: RejectType| reject_name(a) == reject_name(b) ==> a == b,
{
    reveal_strlit("None");
    reveal_strlit("WrongVersion");
    reveal_strlit("InvalidUsername");
    reveal_strlit("WrongUserPW");
    reveal_strlit("WrongServerPW");
    reveal_strlit("UsernameInUse");
    reveal_strlit("ServerFull");
    reveal_strlit("NoCertificate");
    reveal_strlit("AuthenticatorFail");
    assert("None"@ =~= seq!['N', 'o', 'n', 'e']);
    assert forall|a: RejectType, b: RejectType| reject_name(a) == reject_name(b) implies a == b by {
        assert(reject_name(a).len() == reject_name(b).len());
        assert(reject_name(a)[0] == reject_name(b)[0]);
        assert(reject_name(a)[5] == reject_name(b)[5]);
    }
}

/// A command goes to the server as it was given, in one message that sets nothing
/// else: a chat message to its one channel, a move to the channel, the mute or
/// the deaf state. Deafening mutes as well; to hear again leaves the mute state
/// alone.
pub proof fn law_commands_say_what_was_asked(command: MumbleCommand)
    ensures
        command matches MumbleCommand::SendChat { channel_id, message } ==> (command_packet_view(
            command,
        ) matches Some(ClientPacketView::TextMessage { actor, channel_id: to, message: text })
            && actor is None && to.len() == 1 && to[0] == channel_id && text == message@),
        command matches MumbleCommand::JoinChannel { channel_id } ==> (command_packet_view(
            command,
        ) matches Some(ClientPacketView::UserState(u)) && u.channel_id == Some(channel_id)
            && u.self_mute is None && u.self_deaf is None),
        command matches MumbleCommand::SetMute(muted) ==> (command_packet_view(
            command,
        ) matches Some(ClientPacketView::UserState(u)) && u.self_mute == Some(muted)
            && u.self_deaf is None && u.channel_id is None),
        command matches MumbleCommand::SetDeaf(deafened) ==> (command_packet_view(
            command,
        ) matches Some(ClientPacketView::UserState(u)) && u.self_deaf == Some(deafened) && (deafened
            ==> u.self_mute == Some(true)) && (!deafened ==> u.self_mute is None)
            && u.channel_id is None),
        command_packet_view(command) matches Some(ClientPacketView::UserState(u)) ==> u.session
            is None && u.name is None && u.mute is None && u.deaf is None,
        command is Disconnect <==> command_packet_view(command) is None,
{
}

/// The loop of a connection: a command is sent and reports nothing, and the one
/// to disconnect, or that no more can come, ends it; a ping carries the time; an
/// error or the end of the stream is reported and ends it. None of these changes
/// what is known, and a packet is answered with nothing.
pub proof fn law_loop_sends_and_reports(
    before: ConnectionView,
    input: ClientInput,
    after: ConnectionView,
    step: ClientStep,
)
    requires
        client_step(before, input, after, step),
    ensures
        input is Packet ==> step.send is None,
        !(input is Packet) ==> after == before && step.crypt is None,
        input matches ClientInput::Command(Some(command)) ==> packet_view(step.send)
            == command_packet_view(command) && step.event is None && (step.keep_running <==> !(
        command is Disconnect)),
        input matches ClientInput::Command(None) ==> step.send is None && step.event is None
            && !step.keep_running,
        input matches ClientInput::PingDue { now } ==> (step.send matches Some(ClientPacket::Ping(p))
            && p.timestamp == now && step.event is None && step.keep_running),
        input matches ClientInput::StreamError(reason) ==> (step.event matches Some(
            MumbleEvent::Disconnected(told),
        ) && told@ == reason@ && step.send is None && !step.keep_running),
        input is StreamEnd ==> (step.event matches Some(MumbleEvent::Disconnected(told)) && told@
            == "Connection closed"@ && step.send is None && !step.keep_running),
        input matches ClientInput::Packet(packet) ==> packet_step(
            before,
            packet@,
            after,
            (PacketOutcome {
                keep_running: step.keep_running,
                event: step.event,
                crypt: step.crypt,
            })@,
        ),
{
}

/// What a packet from the server says is what its fields hold.
pub proof fn law_packets_say_what_they_hold(p: ControlPacket)
    ensures
        p matches ControlPacket::ChannelState(c) ==> (p@ matches ControlPacketView::ChannelState(v)
            && v.id == c.channel_id && v.name == c.name@ && v.parent_id == c.parent && v.description
            == c.description@),
        p matches ControlPacket::ChannelRemove { channel_id } ==> p@ == (
        ControlPacketView::ChannelRemove { channel_id }),
        p matches ControlPacket::UserState(u) ==> p@ == ControlPacketView::UserState(u@),
        p matches ControlPacket::UserRemove { session } ==> p@ == (ControlPacketView::UserRemove {
            session,
        }),
        p matches ControlPacket::CryptSetup(c) ==> p@ == (ControlPacketView::CryptSetup {
            key: c.key@,
            client_nonce: c.client_nonce@,
            server_nonce: c.server_nonce@,
        }),
        p matches ControlPacket::ServerSync { session } ==> p@ == (ControlPacketView::ServerSync {
            session,
        }),
        p matches ControlPacket::TextMessage(t) ==> p@ == (ControlPacketView::TextMessage {
            actor: t.actor,
            channel_id: t.channel_id@,
            message: t.message@,
        }),
        p matches ControlPacket::Reject { kind, reason } ==> p@ == (ControlPacketView::Reject {
            kind,
            reason: reason@,
        }),
        p is Other ==> p@ is Other,
{
}

/// What an event and a packet to the server say is what their fields hold.
pub proof fn law_events_say_what_they_hold(e: MumbleEvent, p: ClientPacket)
    ensures
        e matches MumbleEvent::Connected { session_id, channels, users } ==> (
        e@ matches MumbleEventView::Connected { session_id: s, channels: c, users: u } && s
            == session_id && c.len() == channels@.len() && u.len() == users@.len() && (forall|i: int|
            0 <= i < u.len() ==> #[trigger] u[i] == users@[i]@) && (forall|i: int|
            0 <= i < c.len() ==> #[trigger] c[i] == channels@[i]@)),
        e matches MumbleEvent::UserJoined(u) ==> e@ == MumbleEventView::UserJoined(u@),
        e matches MumbleEvent::UserLeft { session_id } ==> e@ == (MumbleEventView::UserLeft {
            session_id,
        }),
        e matches MumbleEvent::UserStateChanged(c) ==> e@ == MumbleEventView::UserStateChanged(c@),
        e matches MumbleEvent::ChannelAdded(c) ==> e@ == MumbleEventView::ChannelAdded(c@),
        e matches MumbleEvent::ChannelUpdated(c) ==> e@ == MumbleEventView::ChannelUpdated(c@),
        e matches MumbleEvent::ChannelRemoved { channel_id } ==> e@ == (
        MumbleEventView::ChannelRemoved { channel_id }),
        e matches MumbleEvent::ChatMessage { sender_session, channel_id, message } ==> e@ == (
        MumbleEventView::ChatMessage { sender_session, channel_id, message: message@ }),
        e matches MumbleEvent::Disconnected(reason) ==> e@ == MumbleEventView::Disconnected(
            reason@,
        ),
        p matches ClientPacket::TextMessage(t) ==> p@ == (ClientPacketView::TextMessage {
            actor: t.actor,
            channel_id: t.channel_id@,
            message: t.message@,
        }),
        p matches ClientPacket::UserState(u) ==> p@ == ClientPacketView::UserState(u@),
        p matches ClientPacket::Ping(ping) ==> p@ == (ClientPacketView::Ping {
            timestamp: ping.timestamp,
        }),
{
}

/// A connection begins with nothing known and keys wanted, so that the login hands
/// over the keys that came before it, and reports what was described before it.
pub proof fn law_connection_begins_with_nothing(
    packet: ControlPacketView,
    after: ConnectionView,
    outcome: OutcomeView,
    last: ConnectionView,
    session: u32,
    login: OutcomeView,
)
    requires
        packet_step(nothing_known(), packet, after, outcome),
        !(packet is ServerSync),
        packet_step(after, ControlPacketView::ServerSync { session }, last, login),
    ensures
        outcome.crypt is None,
        !after.connected && after.our_session_id is None,
        packet matches ControlPacketView::ChannelState(c) ==> login.event == Some(
            MumbleEventView::Connected {
                session_id: session,
                channels: seq![c],
                users: Seq::empty(),
            },
        ),
        packet matches ControlPacketView::CryptSetup { key, client_nonce, server_nonce } ==> (
        key.len() == 16 && client_nonce.len() == 16 && server_nonce.len() == 16 ==> (
        login.crypt matches Some(k) && k.key@ == key && k.client_nonce@ == client_nonce
            && k.server_nonce@ == server_nonce)),
        packet is Other ==> login.event == Some(
            MumbleEventView::Connected {
                session_id: session,
                channels: Seq::empty(),
                users: Seq::empty(),
            },
        ) && login.crypt is None && last.crypt_wanted,
{
    if let ControlPacketView::ChannelState(c) = packet {
        assert(after.channels =~= seq![c]);
    }
}

} // verus!
