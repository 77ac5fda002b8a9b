use mumdota::mumble::client::{
    command_packet, crypt_state_from_message, fixed_size_bytes, handle_control_packet,
    merge_user_state, ChannelState, ClientInput, ClientPacket, ConnectionState, ControlPacket,
    CryptSetup, MumbleClient, MumbleCommand, MumbleEvent, RejectType,
};
use mumdota::mumble::proto::{
    build_authenticate_message, build_ping, build_ping_at, build_text_message,
    build_user_state_channel, build_user_state_deaf, build_user_state_mute, build_version_message,
    TextMessage, UserState,
};
use mumdota::mumble::voice::{
    initial_voice, voice_bind_addr, voice_step, IncomingVoice, MumbleVoice, VoiceError, VoiceInput,
    VoicePayload, WebrtcVoiceData,
};
use mumdota::net::{Ipv4Addr, SocketAddr};
use mumdota::ws::messages::UserInfo;

const BLOCK_SIZE: usize = 16;

fn state(connected: bool) -> ConnectionState {
    let (client, _, _) = MumbleClient::connect("client");
    let mut state = client.state;
    state.connected = connected;
    state
}

fn alice() -> UserInfo {
    UserInfo {
        session_id: 42,
        name: "alice".to_string(),
        channel_id: 1,
        mute: true,
        deaf: false,
        self_mute: true,
        self_deaf: false,
    }
}

#[test]
fn invalid_cryptsetup_disconnects_instead_of_panicking() {
    let mut state = state(false);
    let msg = CryptSetup {
        key: vec![0; 8],
        client_nonce: vec![0; BLOCK_SIZE],
        server_nonce: vec![0; BLOCK_SIZE],
    };

    let outcome = handle_control_packet(ControlPacket::CryptSetup(msg), &mut state);

    assert!(state.crypt_state.is_none());
    assert!(!outcome.keep_running);
    match outcome.event {
        Some(MumbleEvent::Disconnected(reason)) => {
            assert!(reason.contains("Invalid key size"));
        }
        other => panic!("expected disconnect event, got {other:?}"),
    }
}

#[test]
fn connected_user_channel_move_preserves_cached_user_details() {
    let mut state = state(true);
    state.users = vec![alice()];
    state.our_session_id = Some(42);

    let mut msg = UserState::new();
    msg.session = Some(42);
    msg.channel_id = Some(9);

    let outcome = handle_control_packet(ControlPacket::UserState(msg), &mut state);

    assert!(outcome.keep_running);
    let change = match outcome.event {
        Some(MumbleEvent::UserStateChanged(change)) => change,
        other => panic!("expected a change, got {other:?}"),
    };
    assert_eq!(change.session_id, 42);
    assert_eq!(change.channel_id, Some(9));
    assert_eq!(change.name, None);
    assert_eq!(change.mute, None);
    assert_eq!(change.self_mute, None);

    assert_eq!(state.users[0].session_id, 42);
    assert_eq!(state.users[0].name, "alice");
    assert_eq!(state.users[0].channel_id, 9);
    assert!(state.users[0].mute);
    assert!(state.users[0].self_mute);
}

#[test]
fn text_message_emits_chat_event_for_target_channel() {
    let mut state = state(true);
    state.our_session_id = Some(7);

    let msg = TextMessage {
        actor: Some(7),
        channel_id: vec![12],
        message: "hello from test".to_string(),
    };

    let outcome = handle_control_packet(ControlPacket::TextMessage(msg), &mut state);

    assert!(outcome.keep_running);
    let chat = match outcome.event {
        Some(MumbleEvent::ChatMessage { sender_session, channel_id, message }) => {
            (sender_session, channel_id, message)
        }
        other => panic!("expected chat, got {other:?}"),
    };
    assert_eq!(chat.0, 7);
    assert_eq!(chat.1, 12);
    assert_eq!(chat.2, "hello from test");
}

#[test]
fn build_text_message_targets_requested_channel() {
    let msg = build_text_message(7, "hello team");

    assert_eq!(msg.channel_id, &[7]);
    assert_eq!(msg.message, "hello team");
}

#[test]
fn build_user_state_channel_sets_destination_channel() {
    let msg = build_user_state_channel(9);

    assert!(msg.channel_id.is_some());
    assert_eq!(msg.channel_id, Some(9));
}

#[test]
fn build_user_state_deaf_also_self_mutes_when_enabled() {
    let msg = build_user_state_deaf(true);

    assert!(msg.self_deaf.is_some());
    assert!(msg.self_deaf.unwrap());
    assert!(msg.self_mute.is_some());
    assert!(msg.self_mute.unwrap());
}

#[test]
fn undeafening_and_muting_leave_the_rest_alone() {
    let msg = build_user_state_deaf(false);
    assert_eq!((msg.self_deaf, msg.self_mute, msg.channel_id), (Some(false), None, None));
    let msg = build_user_state_mute(false);
    assert_eq!((msg.self_deaf, msg.self_mute, msg.channel_id), (None, Some(false), None));
}

#[test]
fn login_messages() {
    let version = build_version_message();
    assert_eq!(version.version, 0x00010400);
    assert_eq!(version.release, "mumdota 0.1.0");
    assert_eq!((version.os.as_str(), version.os_version.as_str()), ("Linux", "Rust"));
    let auth = build_authenticate_message("alice");
    assert!(auth.opus && auth.username == "alice");
    assert_eq!(build_ping_at(17).timestamp, 17);
    assert!(build_ping().timestamp > 1_600_000_000);
    let (client, _, auth) = MumbleClient::connect("bob");
    assert_eq!(auth.username, "bob");
    assert!(!client.state.connected && client.state.crypt_wanted);
}

fn channel(id: u32, name: &str) -> ControlPacket {
    ControlPacket::ChannelState(ChannelState {
        channel_id: id,
        name: name.to_string(),
        parent: 0,
        description: String::new(),
    })
}

fn setup() -> ControlPacket {
    ControlPacket::CryptSetup(CryptSetup {
        key: vec![1; 16],
        client_nonce: vec![2; 16],
        server_nonce: vec![3; 16],
    })
}

#[test]
fn login_collects_quietly_and_hands_the_keys_over_once() {
    let mut state = state(false);
    for packet in [channel(0, "root"), channel(1, "lobby"), setup()] {
        let outcome = handle_control_packet(packet, &mut state);
        assert!(outcome.keep_running && outcome.event.is_none() && outcome.crypt.is_none());
    }
    let outcome = handle_control_packet(ControlPacket::ServerSync { session: 5 }, &mut state);
    let keys = outcome.crypt.unwrap();
    assert_eq!((keys.key, keys.client_nonce, keys.server_nonce), ([1; 16], [2; 16], [3; 16]));
    match outcome.event {
        Some(MumbleEvent::Connected { session_id, channels, users }) => {
            assert_eq!((session_id, channels.len(), users.len()), (5, 2, 0));
            assert_eq!(channels[1].name, "lobby");
        }
        other => panic!("expected login, got {other:?}"),
    }
    assert_eq!(state.our_session_id, Some(5));
    let _ = handle_control_packet(setup(), &mut state);
    let outcome = handle_control_packet(ControlPacket::ServerSync { session: 5 }, &mut state);
    assert!(outcome.crypt.is_none());
}

#[test]
fn after_login_the_events_tell_every_change() {
    let mut state = state(true);
    let event = |packet: ControlPacket, state: &mut ConnectionState| {
        handle_control_packet(packet, state).event.unwrap()
    };
    assert!(matches!(event(channel(3, "a"), &mut state), MumbleEvent::ChannelAdded(c) if c.id == 3));
    assert!(matches!(event(channel(3, "b"), &mut state), MumbleEvent::ChannelUpdated(c) if c.name == "b"));
    assert_eq!(state.channels.len(), 1);
    let mut joined = UserState::new();
    joined.session = Some(8);
    joined.name = Some("eve".to_string());
    assert!(matches!(
        event(ControlPacket::UserState(joined), &mut state),
        MumbleEvent::UserJoined(u) if u.session_id == 8 && u.name == "eve" && u.channel_id == 0
    ));
    assert!(matches!(
        event(ControlPacket::UserRemove { session: 8 }, &mut state),
        MumbleEvent::UserLeft { session_id: 8 }
    ));
    assert!(matches!(
        event(ControlPacket::ChannelRemove { channel_id: 3 }, &mut state),
        MumbleEvent::ChannelRemoved { channel_id: 3 }
    ));
    assert!(state.users.is_empty() && state.channels.is_empty());
    let reject = ControlPacket::Reject {
        kind: RejectType::UsernameInUse,
        reason: "taken".to_string(),
    };
    assert!(matches!(
        event(reject, &mut state),
        MumbleEvent::Disconnected(r) if r == "Rejected: UsernameInUse: taken"
    ));
    let other = handle_control_packet(ControlPacket::Other, &mut state);
    assert!(other.keep_running && other.event.is_none());
    let empty = TextMessage { actor: None, channel_id: vec![], message: "x".to_string() };
    assert!(matches!(
        event(ControlPacket::TextMessage(empty), &mut state),
        MumbleEvent::ChatMessage { sender_session: 0, channel_id: 0, .. }
    ));
}

#[test]
fn key_sizes_are_checked_in_order() {
    assert_eq!(fixed_size_bytes::<2>(&[7, 8], "x"), Ok([7, 8]));
    assert_eq!(
        fixed_size_bytes::<4>(&[7, 8], "x"),
        Err("Invalid x size from server: expected 4 bytes, got 2".to_string())
    );
    let message = |key: usize, client: usize, server: usize| {
        crypt_state_from_message(&CryptSetup {
            key: vec![0; key],
            client_nonce: vec![0; client],
            server_nonce: vec![0; server],
        })
        .unwrap_err()
    };
    assert_eq!(message(0, 0, 0), "Invalid key size from server: expected 16 bytes, got 0");
    assert_eq!(message(16, 17, 0), "Invalid client nonce size from server: expected 16 bytes, got 17");
    assert_eq!(message(16, 16, 1), "Invalid server nonce size from server: expected 16 bytes, got 1");
}

#[test]
fn merging_replaces_what_is_set() {
    let mut msg = UserState::new();
    msg.name = Some("bob".to_string());
    msg.deaf = Some(true);
    msg.self_deaf = Some(true);
    let merged = merge_user_state(&alice(), &msg);
    assert_eq!((merged.session_id, merged.name.as_str(), merged.channel_id), (42, "bob", 1));
    assert!(merged.mute && merged.deaf && merged.self_mute && merged.self_deaf);
}

#[test]
fn client_loop_steps() {
    let (mut client, _, _) = MumbleClient::connect("client");
    let step = client.step(ClientInput::PingDue { now: 9 });
    assert!(matches!(step.send, Some(ClientPacket::Ping(p)) if p.timestamp == 9));
    assert!(step.keep_running);
    let chat = MumbleCommand::SendChat { channel_id: 4, message: "hi".to_string() };
    let step = client.step(ClientInput::Command(Some(chat)));
    assert!(matches!(
        step.send,
        Some(ClientPacket::TextMessage(t)) if t.message == "hi" && t.actor.is_none()
    ));
    assert!(!client.step(ClientInput::Command(Some(MumbleCommand::Disconnect))).keep_running);
    assert!(!client.step(ClientInput::Command(None)).keep_running);
    let step = client.step(ClientInput::StreamEnd);
    assert!(matches!(step.event, Some(MumbleEvent::Disconnected(r)) if r == "Connection closed"));
    let step = client.step(ClientInput::StreamError("broken".to_string()));
    assert!(matches!(step.event, Some(MumbleEvent::Disconnected(r)) if r == "broken"));
    assert!(!step.keep_running);
    let step = client.step(ClientInput::Packet(channel(1, "a")));
    assert!(step.keep_running && step.send.is_none() && client.state.channels.len() == 1);
}

#[test]
fn commands_become_packets() {
    let user_state = |command: MumbleCommand| match command_packet(command) {
        Some(ClientPacket::UserState(u)) => u,
        other => panic!("expected a user state, got {other:?}"),
    };
    assert_eq!(user_state(MumbleCommand::JoinChannel { channel_id: 3 }).channel_id, Some(3));
    assert_eq!(user_state(MumbleCommand::SetMute(true)).self_mute, Some(true));
    assert_eq!(user_state(MumbleCommand::SetDeaf(true)).self_deaf, Some(true));
    assert!(command_packet(MumbleCommand::Disconnect).is_none());
}

#[test]
fn voice_loop_steps() {
    let first = initial_voice();
    assert_eq!((first.target, first.seq_num, first.last_frame), (0, 0, true));
    assert_eq!(first.opus_data, vec![0; 16]);
    let audio = |payload: VoicePayload| {
        VoiceInput::Packet(IncomingVoice::Audio { session_id: 4, seq_num: 9, payload })
    };
    let step = voice_step(audio(VoicePayload::Opus { data: vec![1, 2], last_frame: true }), 77);
    let voice = step.deliver.unwrap();
    assert_eq!((voice.session_id, voice.seq_num, voice.received_at), (4, 9, 77));
    assert!(voice.last_frame && voice.opus_data == vec![1, 2]);
    for input in [audio(VoicePayload::Other), VoiceInput::Packet(IncomingVoice::Ping), VoiceInput::BadPacket] {
        let step = voice_step(input, 0);
        assert!(step.keep_running && step.deliver.is_none() && step.send.is_none());
    }
    let data = WebrtcVoiceData { seq_num: 3, opus_data: vec![5], last_frame: false };
    let sent = voice_step(VoiceInput::Outgoing(Some(data)), 0).send.unwrap();
    assert_eq!((sent.target, sent.seq_num, sent.opus_data), (0, 3, vec![5]));
    assert!(!voice_step(VoiceInput::Outgoing(None), 0).keep_running);
    assert!(!voice_step(VoiceInput::SocketEnd, 0).keep_running);
}

#[test]
fn voice_binds_to_any_address_of_the_same_family() {
    let v4 = SocketAddr::V4 { ip: Ipv4Addr::new(10, 0, 0, 1), port: 64738 };
    assert_eq!(voice_bind_addr(v4), SocketAddr::V4 { ip: Ipv4Addr::unspecified(), port: 0 });
    let v6 = SocketAddr::V6 { ip: 1, port: 64738, flowinfo: 2, scope_id: 3 };
    assert_eq!(voice_bind_addr(v6), SocketAddr::V6 { ip: 0, port: 0, flowinfo: 0, scope_id: 0 });
}

#[test]
fn voice_channels_are_taken_once_and_shutdown_gives_the_task() {
    let mut voice = MumbleVoice::start("task", "rx", "tx");
    assert_eq!(voice.take_channels(), Ok(("rx", "tx")));
    assert_eq!(voice.take_channels(), Err(VoiceError::ReceiverTaken));
    assert_eq!(VoiceError::ReceiverTaken.message(), "Voice receiver already taken");
    assert_eq!(VoiceError::SenderTaken.message(), "Voice sender already taken");
    assert_eq!(voice.shutdown(), Some("task"));
    assert_eq!(voice.shutdown(), None);
}

#[test]
fn shutdown_aborts_background_voice_task() {
    let mut voice = MumbleVoice::start("task", (), ());
    // the task comes out to be aborted, and the channels are gone
    assert_eq!(voice.shutdown(), Some("task"));
    assert_eq!(voice.take_channels(), Err(VoiceError::ReceiverTaken));
}
