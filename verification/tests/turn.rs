use mumdota::clock::seconds_passed;
use mumdota::config::{
    Config, ConfigFault, MumbleConfig, ServerConfig, TurnConfig, WebrtcConfig,
};
use mumdota::ids::connection_id;
use mumdota::net::{Ipv4Addr, SocketAddr};
use mumdota::slots::Slots;
use mumdota::turn::credentials::{stun_config, unix_time, AuthError, Credentials, Nonce};
use mumdota::turn::relay::{MediaRelayConn, MediaRelayGenerator, RelayError};
use mumdota::turn::stream::{frame_lengths, padding, FrameReader, StreamConn, StreamError};
use mumdota::turn::{on_accept, AcceptAction, TurnError, TurnService};

#[test]
fn credentials_are_per_session_expire_and_are_revoked() {
    let mut auth = Credentials::new("test".into(), 300);
    let urls: Vec<String> = vec!["stun:localhost:3478".into(), "turn:localhost:3478".into()];
    let a = auth.issue_at("a", &urls, 1000);
    let b = auth.issue_at("b", &urls, 1000);
    assert!(a.ice_servers[0].credential.is_none());
    let user = a.ice_servers[1].username.as_ref().unwrap();
    assert_ne!(Some(user), b.ice_servers[1].username.as_ref());
    assert!(auth.authenticate_at(user, "test", 1299).is_ok());
    assert!(auth.authenticate_at(user, "test", 1300).is_err());
    assert!(auth.authenticate_at(user, "other", 1001).is_err());
    let refreshed = auth.issue_at("a", &urls, 1250);
    assert_ne!(a.ice_servers[1].username, refreshed.ice_servers[1].username);
    assert_eq!(auth.revoke("a").len(), 2);
    assert!(auth.authenticate_at(user, "test", 1251).is_err());
    assert!(auth
        .authenticate_at(b.ice_servers[1].username.as_ref().unwrap(), "test", 1251)
        .is_ok());
}

fn nonce() -> Nonce {
    Nonce {
        name: 0x00112233_4455_4677_8899_aabbccddeeff,
        secret: (0x1, 0xabc),
    }
}

#[test]
fn a_credential_with_known_random_numbers() {
    let mut auth = Credentials::new("realm".into(), 300);
    let urls: Vec<String> = vec!["turns:h:1".into(), "stun:h:1".into(), "xturn:h".into()];
    let config = auth.issue_with("s", &urls, 1000, nonce());
    assert_eq!(config.expires_at, Some(1300));
    let username = "1300:00112233-4455-4677-8899-aabbccddeeff";
    let password = "0000000000000000000000000000000100000000000000000000000000000abc";
    assert_eq!(config.ice_servers[0].urls, "turns:h:1");
    assert_eq!(config.ice_servers[0].username.as_deref(), Some(username));
    assert_eq!(config.ice_servers[0].credential.as_deref(), Some(password));
    assert!(config.ice_servers[1].username.is_none() && config.ice_servers[2].username.is_none());
    let key = auth.authenticate_at(username, "realm", 1299).unwrap();
    assert_eq!(key, turn::auth::generate_auth_key(username, "realm", password));
    assert_eq!(key.len(), 16);
}

#[test]
fn a_credential_is_reused_until_ninety_seconds_before_its_end() {
    let mut auth = Credentials::new("realm".into(), 300);
    let urls: Vec<String> = vec!["turn:h".into()];
    let name = |c: &mumdota::turn::credentials::IceConfig| c.ice_servers[0].username.clone();
    let first = auth.issue_at("s", &urls, 1000);
    let second = auth.issue_at("s", &urls, 1209);
    assert_eq!(name(&first), name(&second));
    assert_eq!(second.expires_at, Some(1300));
    assert_eq!(first.ice_servers[0].credential, second.ice_servers[0].credential);
    let third = auth.issue_at("s", &urls, 1210);
    assert_ne!(name(&first), name(&third));
    // the earlier one stays good until it runs out
    assert!(auth.authenticate_at(name(&first).unwrap().as_str(), "realm", 1299).is_ok());
    let mut names = auth.revoke("s");
    names.sort();
    let mut expected = vec![name(&first).unwrap(), name(&third).unwrap()];
    expected.sort();
    assert_eq!(names, expected);
    assert!(auth.revoke("s").is_empty());
}

#[test]
fn expired_credentials_are_forgotten() {
    let mut auth = Credentials::new("realm".into(), 10);
    let urls: Vec<String> = vec!["turn:h".into()];
    let _ = auth.issue_at("s", &urls, 1000);
    let _ = auth.issue_at("t", &urls, 1010);
    assert!(auth.revoke("s").is_empty());
    assert_eq!(auth.revoke("t").len(), 1);
}

#[test]
fn refusals_say_why() {
    let mut auth = Credentials::new("realm".into(), 300);
    let urls: Vec<String> = vec!["turn:h".into()];
    let config = auth.issue("s", &urls).unwrap();
    let user = config.ice_servers[0].username.clone().unwrap();
    assert!(auth.auth_handle(&user, "realm").is_ok());
    assert_eq!(auth.auth_handle(&user, "other"), Err(AuthError::InvalidRealm));
    assert_eq!(auth.auth_handle("nobody", "realm"), Err(AuthError::UnknownCredential));
    assert_eq!(AuthError::InvalidRealm.message(), "invalid realm");
    assert_eq!(AuthError::UnknownCredential.message(), "expired or unknown session credential");
    assert!(unix_time() > 1_600_000_000);
    let mut endless = Credentials::new("realm".into(), u64::MAX);
    assert!(endless.issue("s", &urls).is_none());
    assert!(auth.issue_if_room("s", &urls, u64::MAX - 300).is_some());
    assert!(auth.issue_if_room("s", &urls, u64::MAX - 299).is_none());
}

#[test]
fn whole_seconds_pass_and_none_before_the_epoch() {
    let epoch = std::time::UNIX_EPOCH;
    let later = epoch + std::time::Duration::from_millis(1_999);
    assert_eq!(seconds_passed(later.duration_since(epoch)), 1);
    assert_eq!(seconds_passed(epoch.duration_since(epoch)), 0);
    assert_eq!(seconds_passed(epoch.duration_since(later)), 0);
}

#[test]
fn connections_have_names_of_their_own() {
    let a = connection_id();
    let b = connection_id();
    assert_ne!(a, b);
    for id in [a, b] {
        let parts: Vec<usize> = id.split('-').map(|p| p.len()).collect();
        assert_eq!(parts, vec![8, 4, 4, 4, 12]);
        assert!(id.chars().all(|c| c == '-' || c.is_ascii_digit() || ('a'..='f').contains(&c)));
        assert_eq!(id.chars().nth(14), Some('4'));
    }
}

#[test]
fn random_numbers_are_marked_and_differ() {
    let a = Nonce::random();
    let b = Nonce::random();
    assert_ne!(a.name, b.name);
    assert_ne!(a.secret.0, a.secret.1);
    for id in [a.name, a.secret.0, a.secret.1] {
        assert_eq!((id >> 76) & 0xf, 4);
        assert_eq!((id >> 62) & 0x3, 2);
    }
}

fn v4(a: u8, b: u8, c: u8, d: u8, port: u16) -> SocketAddr {
    SocketAddr::V4 { ip: Ipv4Addr::new(a, b, c, d), port }
}

#[test]
fn relay_restricts_destination_and_maps_public_endpoint_to_local_media() {
    let relay = MediaRelayConn { public_ip: Ipv4Addr::new(203, 0, 113, 7), media_port: 50000 };
    assert!(relay.target(v4(169, 254, 169, 254, 80)).is_err());
    assert!(relay.target(v4(203, 0, 113, 7, 22)).is_err());
    let target = v4(203, 0, 113, 7, 50000);
    let media = relay.target(target).unwrap();
    assert_eq!(media, v4(127, 0, 0, 1, 50000));
    assert_eq!(relay.source(media), Some(target));
    assert_eq!(relay.source(v4(127, 0, 0, 1, 50001)), None);
    assert_eq!(relay.source(target), None);
    let mapped = SocketAddr::V6 { ip: 0xffff_cb00_7107, port: 50000, flowinfo: 0, scope_id: 0 };
    assert_eq!(relay.target(mapped), Err(RelayError::NotMedia));
}

#[test]
fn relay_ports_stay_in_the_range() {
    let generator = MediaRelayGenerator {
        min_port: 49160,
        max_port: 49999,
        public_ip: Ipv4Addr::new(203, 0, 113, 7),
        media_port: 50000,
    };
    let conn = MediaRelayConn { public_ip: generator.public_ip, media_port: 50000 };
    for port in [0, 49160, 49999] {
        assert_eq!(generator.allocate_conn(true, port), Ok(conn));
        assert_eq!(generator.allocate_conn(false, port), Err(RelayError::UnsupportedAllocation));
    }
    for port in [1, 49159, 50000] {
        assert_eq!(generator.allocate_conn(true, port), Err(RelayError::UnsupportedAllocation));
    }
    assert_eq!(
        RelayError::UnsupportedAllocation.message(),
        "unsupported relay address or port"
    );
    assert_eq!(RelayError::NotMedia.message(), "TURN may relay only to MumDota media");
}

#[test]
fn stream_handles_fragmented_and_coalesced_frames_with_channel_padding() {
    let mut reader = FrameReader::new();
    reader.push(&[0x40, 0]);
    assert_eq!(reader.read_frame(1500), Ok(None));
    reader.push(&[0, 1, 7, 0, 0, 0]);
    let mut stun = [0u8; 20];
    stun[1] = 1;
    reader.push(&stun);
    let frame = reader.read_frame(1500).unwrap().unwrap();
    assert_eq!(frame.len(), 5);
    assert_eq!(frame, &[0x40, 0, 0, 1, 7]);
    assert_eq!(reader.read_frame(1500).unwrap().unwrap().len(), 20);
    assert_eq!(reader.read_frame(1500), Ok(None));
}

#[test]
fn frames_are_read_back_as_written() {
    let frames: Vec<Vec<u8>> = vec![
        vec![0x40, 0, 0, 0],
        vec![0x7f, 0, 0, 2, 1, 2],
        vec![0x41, 0, 0, 3, 1, 2, 3],
        [[0u8, 1, 0, 4].to_vec(), vec![9; 20]].concat(),
        vec![0x40, 9, 0, 4, 1, 2, 3, 4],
    ];
    let mut bytes: Vec<u8> = Vec::new();
    for frame in &frames {
        bytes.extend(frame);
        bytes.extend(vec![0; padding(frame)]);
    }
    for piece in 1..bytes.len() {
        let mut reader = FrameReader::new();
        let mut found: Vec<Vec<u8>> = Vec::new();
        for chunk in bytes.chunks(piece) {
            reader.push(chunk);
            while let Some(frame) = reader.read_frame(24).unwrap() {
                found.push(frame);
            }
        }
        assert_eq!(found, frames);
    }
}

#[test]
fn bad_frames_are_refused() {
    assert_eq!(frame_lengths(&[0, 1, 0, 3], 1500), Err(StreamError::UnalignedStun));
    assert_eq!(frame_lengths(&[0x80, 0, 0, 0], 1500), Err(StreamError::InvalidFrameType));
    assert_eq!(frame_lengths(&[0xC0, 0, 0, 0], 1500), Err(StreamError::InvalidFrameType));
    assert_eq!(frame_lengths(&[0, 1, 0, 0], 19), Err(StreamError::ExceedsMtu));
    assert_eq!(frame_lengths(&[0, 1, 0, 0], 20), Ok((20, 20)));
    assert_eq!(frame_lengths(&[0x40, 0, 1, 1], 261), Ok((261, 264)));
    assert_eq!(frame_lengths(&[0x40, 0, 1, 1], 260), Err(StreamError::ExceedsMtu));
    assert_eq!(padding(&[0, 1, 2]), 0);
    assert_eq!(padding(&[]), 0);
    assert_eq!(padding(&[0x40, 0, 0, 1, 7]), 3);
    let mut reader = FrameReader::new();
    reader.push(&[0x80, 0, 0, 0]);
    assert_eq!(reader.read_frame(1500), Err(StreamError::InvalidFrameType));
}

#[test]
fn stream_errors_in_words() {
    let words = [
        (StreamError::UnalignedStun, "unaligned STUN length"),
        (StreamError::InvalidFrameType, "invalid TURN frame type"),
        (StreamError::ExceedsMtu, "TURN frame exceeds MTU"),
        (StreamError::OtherPeer, "connected TURN stream cannot change peer"),
        (StreamError::Idle, "idle TURN stream"),
        (StreamError::Closed, "closed"),
        (StreamError::WriteTimedOut, "TURN write timed out"),
    ];
    for (error, text) in words {
        assert_eq!(error.message(), text);
    }
}

#[test]
fn a_stream_has_one_peer_and_closes_on_failure() {
    let local = v4(127, 0, 0, 1, 1);
    let remote = v4(127, 0, 0, 1, 2);
    let mut conn = StreamConn::new(local, remote);
    assert_eq!(conn.connect(remote), Ok(()));
    assert_eq!(conn.connect(local), Err(StreamError::OtherPeer));
    assert_eq!(conn.settle::<u8, StreamError>(Ok(3)), Ok(3));
    assert!(!conn.closed);
    assert_eq!(conn.settle::<u8, StreamError>(Err(StreamError::Idle)), Err(StreamError::Idle));
    assert!(conn.closed);
    // the end of the stream is an error, and closes the connection
    let mut ended = StreamConn::new(local, remote);
    let end = ended.settle::<usize, StreamError>(Err(StreamError::Closed));
    assert_eq!(end, Err(StreamError::Closed));
    assert!(ended.closed);
    let mut other = StreamConn::new(local, remote);
    other.close();
    assert!(other.closed);
}

fn config(tls: bool) -> Config {
    let ip = Some(Ipv4Addr::new(203, 0, 113, 7));
    Config {
        server: ServerConfig {
            listen_addr: "0.0.0.0".into(),
            listen_port: 8080,
            max_connections: 3,
            allowed_origins: vec![],
        },
        mumble: MumbleConfig { host: "h".into(), port: 1, accept_invalid_certs: true },
        webrtc: WebrtcConfig { stun_servers: vec![], udp_port: 50000, public_ip: ip },
        turn: TurnConfig {
            enabled: true,
            public_ip: ip,
            public_host: "voice.example.com".into(),
            tls_cert: if tls { Some("c".into()) } else { None },
            tls_key: if tls { Some("k".into()) } else { None },
            ..Default::default()
        },
    }
}

#[test]
fn turn_tells_browsers_its_servers() {
    let mut service = TurnService::start(&config(true)).ok().unwrap();
    assert_eq!(
        service.ice_urls(),
        vec![
            "stun:voice.example.com:3478",
            "turn:voice.example.com:3478?transport=udp",
            "turn:voice.example.com:3478?transport=tcp",
            "turns:voice.example.com:5349?transport=tcp",
        ]
    );
    let ice = service.ice_config("browser").unwrap();
    let with_name: Vec<bool> = ice.ice_servers.iter().map(|s| s.username.is_some()).collect();
    assert_eq!(with_name, vec![false, true, true, true]);
    let user = ice.ice_servers[1].username.clone().unwrap();
    assert!(service.credentials.auth_handle(&user, "mumdota").is_ok());
    assert_eq!(service.revoke("browser"), vec![user.clone()]);
    assert!(service.credentials.auth_handle(&user, "mumdota").is_err());
    assert_eq!(TurnService::start(&config(false)).ok().unwrap().ice_urls().len(), 3);
    assert!(service.ice_config_at("browser", u64::MAX).is_none());
    assert_eq!(service.relay.media_port, 50000);
    assert_eq!(service.stream_slots().available_permits(), 6);
}

#[test]
fn without_turn_browsers_are_told_of_the_stun_servers() {
    let mut c = config(false).webrtc;
    assert!(stun_config(&c).ice_servers.is_empty());
    c.stun_servers = vec!["stun:a:1".into(), "turn:b:2".into()];
    let ice = stun_config(&c);
    assert_eq!(ice.expires_at, None);
    let urls: Vec<String> = ice.ice_servers.iter().map(|s| s.urls.clone()).collect();
    assert_eq!(urls, c.stun_servers);
    assert!(ice.ice_servers.iter().all(|s| s.username.is_none() && s.credential.is_none()));
}

#[test]
fn turn_starts_only_where_it_is_wanted_and_valid() {
    let mut c = config(false);
    c.turn.realm = String::new();
    let invalid = TurnService::start(&c).err().unwrap();
    assert_eq!(invalid, TurnError::Invalid(ConfigFault::NoRealm));
    assert_eq!(invalid.message(), "TURN realm is required");
    c.turn.enabled = false;
    let disabled = TurnService::start(&c).err().unwrap();
    assert_eq!(disabled, TurnError::Disabled);
    assert_eq!(disabled.message(), "TURN is disabled");
}

#[test]
fn streams_beyond_the_limit_are_dropped() {
    let mut slots = Slots::new(1);
    assert_eq!(on_accept(&mut slots, true), AcceptAction::Serve);
    assert_eq!(on_accept(&mut slots, true), AcceptAction::Refuse);
    assert_eq!(on_accept(&mut slots, false), AcceptAction::Stop);
    slots.release();
    slots.release();
    assert_eq!(slots.available_permits(), 1);
    assert_eq!(on_accept(&mut slots, true), AcceptAction::Serve);
    assert_eq!(slots.available_permits(), 0);
}
