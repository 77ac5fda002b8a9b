use mumdota::config::{Config, MumbleConfig, ServerConfig, WebrtcConfig};
use mumdota::net::Ipv4Addr;
use mumdota::server::{allows_origin, health_check, readiness, ws_upgrade, Upgrade};
use mumdota::session::{ConnectError, Request, RequestKind, SessionManager};
use mumdota::slots::Slots;
use mumdota::turn::credentials::IceConfig;
use mumdota::turn::TurnService;
use mumdota::ws::handler::{
    after_send, connect_failed, end_connection, handle_client_message, replies, terminal,
    AfterSend, ClientAction, Outcome, Stage, Wish, WsConnection, WsInput, WsStep,
};
use mumdota::ws::messages::{
    AnswerData, ChannelJoinData, ChatSendData, ClientMessage, ConnectData, DeafenData,
    IceCandidateData, MuteData, OfferData, ServerMessage,
};

fn config(origins: &[&str]) -> Config {
    Config {
        server: ServerConfig {
            listen_addr: "127.0.0.1".into(),
            listen_port: 0,
            max_connections: 1,
            allowed_origins: origins.iter().map(|o| o.to_string()).collect(),
        },
        mumble: MumbleConfig { host: "127.0.0.1".into(), port: 64738, accept_invalid_certs: true },
        webrtc: WebrtcConfig { stun_servers: vec![], udp_port: 50000, public_ip: None },
        turn: Default::default(),
    }
}

fn connected() -> SessionManager {
    let mut manager = SessionManager::new(&config(&[]));
    let generation = manager.connect_user("a").unwrap();
    manager.attach("a", generation).unwrap();
    manager
}

fn turn_service() -> TurnService {
    let mut c = config(&[]);
    let ip = Some(Ipv4Addr::new(203, 0, 113, 7));
    c.webrtc.public_ip = ip;
    c.turn.enabled = true;
    c.turn.public_ip = ip;
    c.turn.public_host = "voice.example.com".to_string();
    TurnService::start(&c).ok().unwrap()
}

fn connect(name: &str) -> ClientMessage {
    ClientMessage::Connect(ConnectData { username: name.to_string() })
}

fn error_of(action: ClientAction) -> (String, String) {
    match action {
        ClientAction::Reply(ServerMessage::Error(e)) => (e.code, e.message),
        other => panic!("expected an error, got {other:?}"),
    }
}

#[test]
fn the_first_message_must_connect() {
    let mut ws = WsConnection::new("a".to_string());
    assert_eq!(ws.patience_secs(), 10);
    assert!(matches!(ws.step(WsInput::Other), WsStep::Continue));
    match ws.step(WsInput::Invalid("no".to_string())) {
        WsStep::Reply(ServerMessage::Error(e)) => {
            assert_eq!(e.code, "invalid_message");
            assert_eq!(e.message, "Failed to parse message: no");
        }
        other => panic!("expected a reply, got {other:?}"),
    }
    assert!(matches!(ws.step(WsInput::Message(ClientMessage::StartVoice)), WsStep::Stop));
    assert!(ws.first_message && ws.stage == Stage::Stopped);
    assert!(matches!(ws.step(WsInput::Message(connect("x"))), WsStep::Done));
    let mut ws = WsConnection::new("a".to_string());
    assert!(matches!(ws.step(WsInput::Message(connect("x"))), WsStep::Handle(_)));
    assert_eq!(ws.patience_secs(), 45);
    assert!(matches!(ws.step(WsInput::Message(ClientMessage::StartVoice)), WsStep::Handle(_)));
    assert!(matches!(ws.step(WsInput::Message(ClientMessage::Disconnect)), WsStep::Stop));
}

#[test]
fn the_connection_ends_with_its_sources() {
    for input in [
        WsInput::SenderEnded,
        WsInput::Stopping,
        WsInput::TimedOut,
        WsInput::Ended,
        WsInput::Failed,
        WsInput::Close,
        WsInput::HandlerTimedOut,
    ] {
        assert!(matches!(WsConnection::new("a".to_string()).step(input), WsStep::Stop));
    }
}

#[test]
fn a_connection_is_cleaned_up_once_and_last() {
    let mut manager = connected();
    let mut turn = turn_service();
    let mine = turn.ice_config("a").unwrap().ice_servers[1].username.clone().unwrap();
    let other = turn.ice_config("b").unwrap().ice_servers[1].username.clone().unwrap();
    let mut ws = WsConnection::new("a".to_string());
    assert!(ws.end(&mut manager, Some(&mut turn)).is_none());
    assert_eq!(manager.connection_count(), 1);
    assert!(matches!(ws.step(WsInput::Close), WsStep::Stop));
    let ended = ws.end(&mut manager, Some(&mut turn)).unwrap();
    assert_eq!(ended.generation, Some(0));
    assert_eq!(ended.usernames, vec![mine.clone()]);
    assert_eq!(manager.connection_count(), 0);
    assert!(turn.credentials.auth_handle(&mine, "mumdota").is_err());
    assert!(turn.credentials.auth_handle(&other, "mumdota").is_ok());
    assert!(ws.end(&mut manager, Some(&mut turn)).is_none());
    assert!(matches!(ws.step(WsInput::Message(connect("x"))), WsStep::Done));
    assert!(matches!(ws.step(WsInput::Close), WsStep::Done));
}

#[test]
fn cleaning_up_without_turn_or_session() {
    let mut manager = SessionManager::new(&config(&[]));
    let ended = end_connection("a", &mut manager, None);
    assert!(ended.generation.is_none() && ended.usernames.is_empty());
}

#[test]
fn the_last_message_closes_the_connection() {
    assert!(terminal(&ServerMessage::error("mumble_disconnected", "x")));
    assert!(terminal(&ServerMessage::error("connect_failed", "x")));
    assert!(terminal(&ServerMessage::error("mumble_unreachable", "x")));
    assert!(!terminal(&ServerMessage::error("voice_error", "x")));
    assert!(!terminal(&ServerMessage::Offer(OfferData { sdp: "x".to_string() })));
    assert_eq!(after_send(false, false, 0), AfterSend::Stop);
    assert_eq!(after_send(true, true, 0), AfterSend::Close);
    assert_eq!(after_send(true, false, 257), AfterSend::Close);
    assert_eq!(after_send(true, false, 256), AfterSend::Continue);
}

#[test]
fn usernames_are_checked() {
    let manager = SessionManager::new(&config(&[]));
    let long = "ü".repeat(64);
    match handle_client_message("a", connect(&long), &manager) {
        ClientAction::Connect { username } => assert_eq!(username, long),
        other => panic!("expected to connect, got {other:?}"),
    }
    for bad in ["", " \u{2003}\t", "ü".repeat(65).as_str()] {
        let error = error_of(handle_client_message("a", connect(bad), &manager));
        assert_eq!(error, ("connect_failed".to_string(), "invalid username".to_string()));
    }
}

#[test]
fn messages_without_a_session_fail_with_their_code() {
    let manager = SessionManager::new(&config(&[]));
    let sdp = || "sdp".to_string();
    let cases = vec![
        (ClientMessage::Offer(OfferData { sdp: sdp() }), "voice_error"),
        (ClientMessage::Answer(AnswerData { sdp: sdp() }), "voice_error"),
        (ClientMessage::StartVoice, "voice_error"),
        (ClientMessage::IceRestart, "voice_error"),
        (ClientMessage::IceRefresh, "voice_error"),
        (
            ClientMessage::IceCandidate(IceCandidateData {
                candidate: "c".to_string(),
                sdp_mid: None,
                sdp_mline_index: None,
            }),
            "ice_failed",
        ),
        (
            ClientMessage::ChatSend(ChatSendData { channel_id: 1, message: "x".to_string() }),
            "chat_failed",
        ),
        (ClientMessage::ChannelJoin(ChannelJoinData { channel_id: 1 }), "channel_join_failed"),
        (ClientMessage::Mute(MuteData { muted: true }), "mute_failed"),
        (ClientMessage::Deafen(DeafenData { deafened: true }), "deafen_failed"),
    ];
    for (msg, code) in cases {
        let error = error_of(handle_client_message("a", msg, &manager));
        assert_eq!(error, (code.to_string(), "Session not found".to_string()));
    }
    assert!(matches!(
        handle_client_message("a", ClientMessage::Disconnect, &manager),
        ClientAction::Disconnect
    ));
}

#[test]
fn messages_with_a_session_are_forwarded() {
    let manager = connected();
    let forward = |msg: ClientMessage| match handle_client_message("a", msg, &manager) {
        ClientAction::Forward { directed, wish } => (directed.request, wish),
        other => panic!("expected to forward, got {other:?}"),
    };
    let (request, wish) = forward(ClientMessage::IceRestart);
    assert!(matches!(request, Request::StartVoice { restart: true }));
    assert_eq!(wish, Wish::Voice);
    let (request, wish) = forward(ClientMessage::StartVoice);
    assert!(matches!(request, Request::StartVoice { restart: false }));
    assert_eq!(wish, Wish::Voice);
    let (request, wish) = forward(ClientMessage::Offer(OfferData { sdp: "v=0".to_string() }));
    assert!(matches!(request, Request::Offer { sdp } if sdp == "v=0"));
    assert_eq!(wish, Wish::Voice);
    let (_, wish) = forward(ClientMessage::Deafen(DeafenData { deafened: true }));
    match wish.failed("why") {
        ServerMessage::Error(e) => {
            assert_eq!((e.code.as_str(), e.message.as_str()), ("deafen_failed", "why"))
        }
        other => panic!("expected an error, got {other:?}"),
    }
}

#[test]
fn long_chat_is_refused() {
    let manager = connected();
    let chat = |n: usize| {
        ClientMessage::ChatSend(ChatSendData { channel_id: 1, message: "x".repeat(n) })
    };
    assert!(matches!(
        handle_client_message("a", chat(4096), &manager),
        ClientAction::Forward { .. }
    ));
    assert_eq!(
        error_of(handle_client_message("a", chat(4097), &manager)),
        ("chat_failed".to_string(), "message exceeds 4096 bytes".to_string())
    );
}

fn told(kind: RequestKind, outcome: Outcome) -> Vec<String> {
    let name = |m: ServerMessage| match m {
        ServerMessage::Offer(d) => format!("offer {}", d.sdp),
        ServerMessage::Answer(d) => format!("answer {}", d.sdp),
        ServerMessage::IceConfig(c) => format!("ice {}", c.ice_servers.len()),
        ServerMessage::Error(e) => format!("{} {}", e.code, e.message),
        other => panic!("unexpected message {other:?}"),
    };
    replies(kind, Wish::Voice, outcome).into_iter().map(name).collect()
}

#[test]
fn requests_are_replied_to_in_order() {
    let done = |ice: bool, sdp: Option<&str>| Outcome::Done {
        ice: if ice { Some(IceConfig { ice_servers: vec![], expires_at: None }) } else { None },
        sdp: sdp.map(|s| s.to_string()),
    };
    assert_eq!(told(RequestKind::Offer, done(true, Some("s"))), vec!["answer s"]);
    assert_eq!(told(RequestKind::Answer, done(false, Some("s"))), vec!["offer s"]);
    assert!(told(RequestKind::Answer, done(false, None)).is_empty());
    assert_eq!(told(RequestKind::StartVoice, done(true, Some("s"))), vec!["ice 0", "offer s"]);
    assert_eq!(told(RequestKind::StartVoice, done(true, None)), vec!["ice 0"]);
    assert_eq!(told(RequestKind::RefreshIce, done(true, Some("s"))), vec!["ice 0"]);
    for kind in [RequestKind::Mumble, RequestKind::Candidate] {
        assert!(told(kind, done(true, Some("s"))).is_empty());
    }
    let failed = Outcome::Failed("why".to_string());
    assert_eq!(told(RequestKind::Offer, failed), vec!["voice_error why"]);
    let offer = Request::Offer { sdp: "s".to_string() };
    assert_eq!(offer.kind(), RequestKind::Offer);
    assert_eq!(Request::RefreshIce.kind(), RequestKind::RefreshIce);
}

#[test]
fn failures_to_connect_have_their_codes() {
    let cases = [
        (ConnectError::AlreadyConnected, "connect_failed", "Already connected"),
        (ConnectError::ServerFull, "connect_failed", "Server full"),
        (ConnectError::Webrtc("x".into()), "connect_failed", "WebRTC setup failed: x"),
        (ConnectError::Mumble("x".into()), "mumble_unreachable", "Mumble connection failed: x"),
        (
            ConnectError::Lookup("x".into()),
            "mumble_unreachable",
            "Failed to resolve Mumble server: x",
        ),
        (
            ConnectError::NoAddress,
            "mumble_unreachable",
            "Failed to resolve Mumble server address",
        ),
    ];
    for (error, code, text) in cases {
        let message = connect_failed(&error);
        assert!(terminal(&message));
        match message {
            ServerMessage::Error(e) => {
                assert_eq!((e.code.as_str(), e.message.as_str()), (code, text))
            }
            other => panic!("expected an error, got {other:?}"),
        }
    }
}

#[test]
fn origins_are_checked_before_a_place_is_taken() {
    let open = config(&[]).server;
    let listed = config(&["https://a.example", "https://b.example"]).server;
    assert!(allows_origin(&open, Some(b"https://evil.example")));
    assert!(allows_origin(&listed, None));
    assert!(allows_origin(&listed, Some(b"https://b.example")));
    assert!(!allows_origin(&listed, Some(b"https://b.example:1")));
    assert!(!allows_origin(&listed, Some(&[0xff])));
    let mut slots = Slots::new(1);
    assert_eq!(ws_upgrade(&listed, Some(b"x"), &mut slots), Upgrade::Forbidden);
    assert_eq!(ws_upgrade(&listed, None, &mut slots), Upgrade::Accept);
    assert_eq!(ws_upgrade(&listed, None, &mut slots), Upgrade::Full);
    assert_eq!(ws_upgrade(&listed, Some(b"x"), &mut slots), Upgrade::Forbidden);
    assert_eq!(
        (Upgrade::Forbidden.status(), Upgrade::Full.status(), Upgrade::Accept.status()),
        (403, 503, 101)
    );
}

#[test]
fn probes_are_answered() {
    assert_eq!(health_check(), "ok");
    let ready = readiness(&config(&[]), true, 3);
    assert_eq!((ready.status, ready.sessions, ready.media_udp_port), (200, 3, 50000));
    assert!(ready.upstream_tcp_reachable && !ready.builtin_turn);
    assert_eq!(readiness(&config(&[]), false, 0).status, 503);
}
