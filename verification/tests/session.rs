use mumdota::config::{Config, MumbleConfig, ServerConfig, WebrtcConfig};
use mumdota::mumble::client::{MumbleCommand, MumbleEvent};
use mumdota::session::{
    abort_background_task, speaker_changes, voice_setup_message, ConnectError, EventLoop, Request, SessionError,
    SessionInput, SessionManager, SessionStep, UserSession, VoiceSetup,
};
use mumdota::webrtc::{IceCandidateInit, PeerState, WebrtcEvent};
use mumdota::ws::messages::{
    ChannelInfo, ConnectedData, ServerMessage, UserInfo, UserLeftData, UserStateData,
};

fn config(max_connections: usize) -> Config {
    Config {
        server: ServerConfig {
            listen_addr: "127.0.0.1".into(),
            listen_port: 0,
            max_connections,
            allowed_origins: vec![],
        },
        mumble: MumbleConfig { host: "127.0.0.1".into(), port: 64738, accept_invalid_certs: true },
        webrtc: WebrtcConfig { stun_servers: vec![], udp_port: 0, public_ip: None },
        turn: Default::default(),
    }
}

type Session = UserSession<&'static str, &'static str, &'static str>;

#[test]
fn pending_handshake_reserves_capacity_and_cancellation_releases_it() {
    let mut manager = SessionManager::new(&config(1));
    let pending = manager.connect_user("pending").unwrap();
    assert_eq!(manager.connect_user("second").unwrap_err().message(), "Server full");
    manager.release(pending);
    assert_eq!(manager.available_permits(), 1);
    assert_eq!(manager.connection_count(), 0);
}

#[test]
fn failed_connection_releases_capacity() {
    let mut manager = SessionManager::new(&config(1));
    for _ in 0..2 {
        let generation = manager.connect_user("client").unwrap();
        let error = ConnectError::Mumble("refused".to_string());
        assert!(error.message().starts_with("Mumble connection failed:"));
        manager.release(generation);
    }
    assert_eq!(manager.available_permits(), 1);
}

#[test]
fn simultaneous_connections_cannot_exceed_limit() {
    let mut manager = SessionManager::new(&config(1));
    let a = manager.connect_user("a");
    let b = manager.connect_user("b");
    assert_ne!(a.is_ok(), b.is_ok(), "exactly one connection should be accepted");
    assert_eq!(b.unwrap_err().message(), "Server full");
    let a = a.unwrap();
    manager.attach("a", a).unwrap();
    assert_eq!(manager.disconnect_user("a"), Some(a));
    assert_eq!(manager.connection_count(), 0);
    manager.release(a);
    assert_eq!(manager.available_permits(), 1);
}

#[test]
fn upstream_disconnect_releases_capacity_before_reconnect_notification() {
    let mut manager = SessionManager::new(&config(1));
    let old = manager.connect_user("client").unwrap();
    manager.attach("client", old).unwrap();
    let mut session: Session = UserSession::new("client", old);
    assert!(session.set_voice_setup_task("voice").is_none());

    let mut events = EventLoop::new();
    let gone = SessionInput::Mumble(Some(MumbleEvent::Disconnected("closed".to_string())));
    let step = events.process_event(gone, session.closed);
    assert!(!step.keep_running && step.send.is_none());
    let teardown = session.shutdown().unwrap();
    assert_eq!((teardown.generation, teardown.voice_setup_task), (old, Some("voice")));
    let (removed, told) = manager.finish_session("client", old, step.terminal_error);
    assert!(removed);
    assert!(matches!(told, Some(ServerMessage::Error(e)) if e.code == "mumble_disconnected"));
    assert_eq!(manager.connection_count(), 0);
    assert_eq!(manager.available_permits(), 1);
    assert!(session.closed);
    assert!(session.voice_setup_task.is_none());

    let new = manager.connect_user("client").unwrap();
    manager.attach("client", new).unwrap();
    // A delayed cleanup from the old generation cannot remove the replacement.
    assert!(!manager.is_attached_elsewhere("client", old));
    assert!(manager.is_attached_elsewhere("other", new));
    let (removed, told) = manager.finish_session(
        "client",
        old,
        Some(ServerMessage::error("stale", "old session")),
    );
    assert!(!removed);
    assert!(told.is_none(), "old cleanup must not send an error to the replacement");
    assert_eq!(manager.connection_count(), 1);
    assert_eq!(manager.available_permits(), 0);
    assert_eq!(manager.disconnect_user("client"), Some(new));
    manager.release(new);
    assert_eq!(manager.available_permits(), 1);
}

#[test]
fn teardown_does_not_hold_the_global_session_map_lock() {
    let mut manager = SessionManager::new(&config(2));
    let generation = manager.connect_user("client").unwrap();
    manager.attach("client", generation).unwrap();
    assert_eq!(manager.disconnect_user("client"), Some(generation));
    // the browser is gone from the list while its session is still torn down
    assert_eq!(manager.connection_count(), 0);
    assert_eq!(manager.available_permits(), 1);
    manager.release(generation);
    assert_eq!(manager.available_permits(), 2);
}

#[test]
fn abort_background_task_cancels_pending_work() {
    let mut task = Some("task");
    assert_eq!(abort_background_task(&mut task), Some("task"));
    assert!(task.is_none());
    assert_eq!(abort_background_task(&mut task), None);
}

#[test]
fn immediate_disconnect_does_not_start_voice_after_teardown() {
    let mut manager = SessionManager::new(&config(1));
    let generation = manager.connect_user("client").unwrap();
    manager.attach("client", generation).unwrap();
    let mut old: Session = UserSession::new("client", generation);
    let torn_down = manager.disconnect_user("client").unwrap();
    assert_eq!(old.shutdown().unwrap().generation, torn_down);
    manager.release(torn_down);
    assert_eq!(old.set_voice_setup_task("voice"), Some("voice"));
    assert!(old.closed);
    assert!(old.voice_setup_task.is_none());
    assert_eq!(manager.connection_count(), 0);
    assert_eq!(manager.available_permits(), 1);
}

#[test]
fn a_session_is_torn_down_once() {
    let mut session: Session = UserSession::new("alice", 4);
    assert_eq!(session.username, "alice");
    session.attach_voice("voice", "bridge");
    let teardown = session.shutdown().unwrap();
    assert_eq!((teardown.bridge, teardown.mumble_voice), (Some("bridge"), Some("voice")));
    assert!(session.shutdown().is_none());
}

#[test]
fn a_second_session_under_the_same_name_is_refused() {
    let mut manager = SessionManager::new(&config(2));
    let first = manager.connect_user("a").unwrap();
    let second = manager.connect_user("a").unwrap();
    assert!(manager.is_pending(first) && manager.is_pending(second));
    manager.attach("a", first).unwrap();
    assert!(!manager.is_pending(first));
    assert!(matches!(manager.attach("a", second), Err(ConnectError::AlreadyConnected)));
    assert_eq!(manager.available_permits(), 0);
    // a connected session keeps its place
    manager.release(first);
    manager.release(second);
    assert_eq!(manager.available_permits(), 1);
    assert!(matches!(manager.connect_user("a"), Err(ConnectError::AlreadyConnected)));
    assert_eq!(manager.get_session("a"), Ok(first));
    assert!(manager.has_generations());
    assert_eq!(manager.disconnect_user("b"), None);
}

#[test]
fn capacity_holds_over_many_connections() {
    let mut manager = SessionManager::new(&config(3));
    let names = ["a", "b", "c", "d", "e"];
    for round in 0..50usize {
        let name = names[(round * 7) % 5];
        match manager.connect_user(name) {
            Ok(generation) => {
                if round % 3 == 0 {
                    manager.release(generation);
                } else {
                    manager.attach(name, generation).unwrap();
                }
            }
            Err(_) => {
                if let Ok(generation) = manager.get_session(names[round % 5]) {
                    let _ = manager.finish_session(names[round % 5], generation, None);
                }
            }
        }
        assert!(manager.connection_count() + manager.available_permits() <= 3);
    }
}

#[test]
fn connect_errors_in_words() {
    let words = [
        (ConnectError::AlreadyConnected, "Already connected"),
        (ConnectError::ServerFull, "Server full"),
        (ConnectError::Lookup("x".into()), "Failed to resolve Mumble server: x"),
        (ConnectError::NoAddress, "Failed to resolve Mumble server address"),
        (ConnectError::Mumble("x".into()), "Mumble connection failed: x"),
        (ConnectError::Webrtc("x".into()), "WebRTC setup failed: x"),
    ];
    for (error, text) in words {
        assert_eq!(error.message(), text);
    }
}

#[test]
fn requests_reach_the_session() {
    let mut manager = SessionManager::new(&config(1));
    assert!(matches!(manager.set_mute("a", true), Err(SessionError::NotFound)));
    assert_eq!(SessionError::NotFound.message(), "Session not found");
    let generation = manager.connect_user("a").unwrap();
    manager.attach("a", generation).unwrap();
    let d = manager.send_chat("a", 3, "hi").unwrap();
    assert_eq!(d.generation, generation);
    assert!(matches!(
        d.request,
        Request::Mumble(MumbleCommand::SendChat { channel_id: 3, message }) if message == "hi"
    ));
    assert!(matches!(
        manager.join_channel("a", 5).unwrap().request,
        Request::Mumble(MumbleCommand::JoinChannel { channel_id: 5 })
    ));
    assert!(matches!(
        manager.set_mute("a", true).unwrap().request,
        Request::Mumble(MumbleCommand::SetMute(true))
    ));
    assert!(matches!(
        manager.set_deaf("a", false).unwrap().request,
        Request::Mumble(MumbleCommand::SetDeaf(false))
    ));
    assert!(matches!(
        manager.handle_offer("a", "sdp").unwrap().request,
        Request::Offer { sdp } if sdp == "sdp"
    ));
    assert!(matches!(
        manager.handle_answer("a", "sdp").unwrap().request,
        Request::Answer { sdp } if sdp == "sdp"
    ));
    assert!(matches!(
        manager.start_voice("a", true).unwrap().request,
        Request::StartVoice { restart: true }
    ));
    assert!(matches!(manager.refresh_ice("a").unwrap().request, Request::RefreshIce));
    assert!(matches!(
        manager.add_ice_candidate("a", "c", Some("0".into()), Some(1)).unwrap().request,
        Request::Candidate(c) if c.candidate == "c" && c.sdp_mline_index == Some(1)
    ));
}

fn user(session_id: u32, name: &str) -> UserInfo {
    UserInfo {
        session_id,
        name: name.to_string(),
        channel_id: 0,
        mute: false,
        deaf: false,
        self_mute: false,
        self_deaf: false,
    }
}

fn tell(events: &mut EventLoop, event: MumbleEvent) -> SessionStep {
    events.process_event_at(SessionInput::Mumble(Some(event)), false, 1234)
}

fn chat_name(events: &mut EventLoop, sender_session: u32) -> String {
    let chat = MumbleEvent::ChatMessage { sender_session, channel_id: 2, message: "x".to_string() };
    match tell(events, chat).send {
        Some(ServerMessage::ChatReceived(c)) => {
            assert_eq!((c.channel_id, c.message.as_str(), c.timestamp), (2, "x", 1234));
            c.sender_name
        }
        other => panic!("expected chat, got {other:?}"),
    }
}

#[test]
fn chat_shows_the_name_that_was_told_last() {
    let mut events = EventLoop::new();
    assert_eq!(chat_name(&mut events, 1), "User#1");
    let login = MumbleEvent::Connected {
        session_id: 9,
        channels: vec![],
        users: vec![user(1, "alice"), user(2, "bob"), user(1, "alicia")],
    };
    let step = tell(&mut events, login);
    assert_eq!(step.session_id, Some(9));
    assert!(matches!(step.send, Some(ServerMessage::Connected(c)) if c.users.len() == 3));
    assert_eq!(chat_name(&mut events, 1), "alicia");
    assert_eq!(chat_name(&mut events, 2), "bob");
    let renamed = UserStateData {
        session_id: 2,
        channel_id: None,
        name: Some("robert".to_string()),
        mute: None,
        deaf: None,
        self_mute: None,
        self_deaf: None,
    };
    let _ = tell(&mut events, MumbleEvent::UserStateChanged(renamed));
    assert_eq!(chat_name(&mut events, 2), "robert");
    let _ = tell(&mut events, MumbleEvent::UserLeft { session_id: 2 });
    assert_eq!(chat_name(&mut events, 2), "User#2");
    let _ = tell(&mut events, MumbleEvent::UserJoined(user(2, "bobby")));
    assert_eq!(chat_name(&mut events, 2), "bobby");
}

#[test]
fn channel_news_reaches_the_browser() {
    let mut events = EventLoop::new();
    let channel = || ChannelInfo {
        id: 4,
        name: "a".to_string(),
        parent_id: 0,
        description: String::new(),
    };
    for event in [MumbleEvent::ChannelAdded(channel()), MumbleEvent::ChannelUpdated(channel())] {
        let step = tell(&mut events, event);
        assert!(matches!(step.send, Some(ServerMessage::ChannelUpdated(c)) if c.channels.len() == 1));
    }
    let step = tell(&mut events, MumbleEvent::ChannelRemoved { channel_id: 4 });
    assert!(step.keep_running && step.send.is_none());
}

#[test]
fn everybody_else_gets_a_track() {
    let login = ServerMessage::Connected(ConnectedData {
        session_id: 2,
        channels: vec![],
        users: vec![user(1, "a"), user(2, "me"), user(3, "b")],
    });
    let changes = speaker_changes(&login, Some(2));
    assert_eq!((changes.add, changes.remove), (vec![1, 3], vec![]));
    assert_eq!(speaker_changes(&login, None).add, vec![1, 2, 3]);
    let joined = ServerMessage::UserJoined(user(4, "c"));
    assert_eq!(speaker_changes(&joined, Some(2)).add, vec![4]);
    assert!(speaker_changes(&joined, Some(4)).add.is_empty());
    let left = ServerMessage::UserLeft(UserLeftData { session_id: 4 });
    let changes = speaker_changes(&left, Some(2));
    assert_eq!((changes.add, changes.remove), (vec![], vec![4]));
    let other = speaker_changes(&ServerMessage::error("x", "y"), None);
    assert!(other.add.is_empty() && other.remove.is_empty());
}

#[test]
fn a_closed_session_is_not_logged_in() {
    let mut events = EventLoop::new();
    let login = MumbleEvent::Connected { session_id: 9, channels: vec![], users: vec![] };
    let step = events.process_event_at(SessionInput::Mumble(Some(login)), true, 0);
    assert!(!step.keep_running && step.send.is_none() && step.session_id.is_none());
}

#[test]
fn the_loop_ends_with_its_sources() {
    for input in [
        SessionInput::Close,
        SessionInput::ClientGone,
        SessionInput::Mumble(None),
        SessionInput::Webrtc(None),
    ] {
        let step = EventLoop::new().process_event(input, false);
        assert!(!step.keep_running && step.send.is_none() && step.terminal_error.is_none());
    }
}

#[test]
fn webrtc_news_reaches_the_browser() {
    let mut events = EventLoop::new();
    let mut tell = |event: WebrtcEvent| {
        events.process_event_at(SessionInput::Webrtc(Some(event)), false, 0)
    };
    for (state, text) in [(PeerState::Failed, "failed"), (PeerState::Disconnected, "disconnected")] {
        let step = tell(WebrtcEvent::ConnectionStateChanged(state));
        assert!(step.keep_running);
        assert!(matches!(
            step.send,
            Some(ServerMessage::Error(e))
                if e.code == "webrtc_disconnected" && e.message == format!("WebRTC state: {text}")
        ));
    }
    assert!(tell(WebrtcEvent::ConnectionStateChanged(PeerState::Connected)).send.is_none());
    let candidate = IceCandidateInit {
        candidate: "c".to_string(),
        sdp_mid: Some("0".to_string()),
        sdp_mline_index: None,
    };
    let step = tell(WebrtcEvent::IceCandidate(candidate));
    assert!(matches!(step.send, Some(ServerMessage::IceCandidate(c)) if c.candidate == "c"));
    let step = tell(WebrtcEvent::NegotiationNeeded);
    assert!(step.negotiate && step.send.is_none());
}

#[test]
fn voice_setup_is_reported_where_it_fails() {
    let text = |setup: &VoiceSetup| match voice_setup_message(setup) {
        Some(ServerMessage::Error(e)) => {
            assert_eq!(e.code, "voice_error");
            Some(e.message)
        }
        None => None,
        other => panic!("expected an error, got {other:?}"),
    };
    assert_eq!(text(&VoiceSetup::NoKeys), None);
    assert_eq!(text(&VoiceSetup::Ready), None);
    assert_eq!(
        text(&VoiceSetup::NoAddress).unwrap(),
        "Voice setup failed: could not resolve Mumble server address"
    );
    assert_eq!(text(&VoiceSetup::Failed("x".into())).unwrap(), "Voice setup failed: x");
}
