use mumdota::config::{
    accepted, default_media_port, expand_env_vars, Config, ConfigFault, EnvVars, ExpandError, MumbleConfig,
    ServerConfig, TurnConfig, WebrtcConfig,
};
use mumdota::net::Ipv4Addr;
use mumdota::overrides::{
    apply_env_overrides, load_table, override_file, override_rules, parse_flag, parse_setting, Kind,
    LoadError, Setting,
};

fn env(vars: &[(&str, &str)]) -> EnvVars {
    let mut env = EnvVars::new();
    for (name, value) in vars {
        env.set(name, value);
    }
    env
}

#[test]
fn test_expand_env_vars_plain() {
    let vars = env(&[("TEST_HOST", "mumble.example.com")]);
    let result = expand_env_vars("host = \"${TEST_HOST}\"", &vars).unwrap();
    assert_eq!(result, "host = \"mumble.example.com\"");
}

#[test]
fn test_expand_env_vars_default() {
    let result = expand_env_vars("port = \"${TEST_UNSET_VAR:-64738}\"", &env(&[])).unwrap();
    assert_eq!(result, "port = \"64738\"");
}

#[test]
fn test_expand_env_vars_missing_no_default() {
    let result = expand_env_vars("host = \"${TEST_MISSING_VAR}\"", &env(&[]));
    assert!(result.is_err());
}

#[test]
fn placeholders_at_their_edges() {
    let vars = env(&[("A", "1"), ("A", "${B}"), ("E", "")]);
    assert_eq!(expand_env_vars("x${A}y", &vars).unwrap(), "x${B}y");
    assert_eq!(expand_env_vars("${A:-2}${C:-}", &vars).unwrap(), "${B}");
    assert_eq!(expand_env_vars("${C:-a:-b}", &vars).unwrap(), "a:-b");
    assert_eq!(expand_env_vars("${E:-x}|", &vars).unwrap(), "|");
    assert_eq!(expand_env_vars("$ $$ {} $x ü", &vars).unwrap(), "$ $$ {} $x ü");
    assert_eq!(expand_env_vars("$", &vars).unwrap(), "$");
    assert!(matches!(expand_env_vars("${A", &vars), Err(ExpandError::Unclosed)));
    assert!(matches!(expand_env_vars("${}", &vars), Err(ExpandError::EmptyName)));
    assert!(matches!(expand_env_vars("${:-d}", &vars), Err(ExpandError::EmptyName)));
    assert_eq!(
        expand_env_vars("${A}${NO}", &vars).unwrap_err().message(),
        "environment variable 'NO' is not set and has no default value"
    );
    assert_eq!(ExpandError::Unclosed.message(), "unclosed '${' in config");
    assert_eq!(ExpandError::EmptyName.message(), "empty variable name in config placeholder");
}

fn config() -> Config {
    let ip = Some(Ipv4Addr::new(203, 0, 113, 7));
    Config {
        server: ServerConfig {
            listen_addr: "0.0.0.0".into(),
            listen_port: 8080,
            max_connections: 100,
            allowed_origins: vec![],
        },
        mumble: MumbleConfig {
            host: "mumble.example.com".into(),
            port: 64738,
            accept_invalid_certs: true,
        },
        webrtc: WebrtcConfig { stun_servers: vec![], udp_port: 50000, public_ip: ip },
        turn: TurnConfig {
            enabled: true,
            public_ip: ip,
            public_host: "voice.example.com".into(),
            ..Default::default()
        },
    }
}

#[test]
fn a_complete_config_is_valid() {
    let c = config();
    assert!(c.validate().is_ok());
    assert_eq!(c.mumble_addr(), "mumble.example.com:64738");
    assert_eq!(c.listen_addr(), "0.0.0.0:8080");
    assert_eq!(default_media_port(), 50000);
    assert_eq!(accepted(c).unwrap().mumble.port, 64738);
}

#[test]
fn each_fault_is_found() {
    let faults: Vec<(fn(&mut Config), ConfigFault, &str)> = vec![
        (
            |c| c.server.max_connections = 0,
            ConfigFault::NoConnections,
            "max_connections must be positive",
        ),
        (
            |c| c.turn.public_ip = None,
            ConfigFault::NoTurnPublicIp,
            "TURN requires turn.public_ip",
        ),
        (
            |c| c.turn.public_ip = Some(Ipv4Addr::new(224, 0, 0, 1)),
            ConfigFault::BadTurnPublicIp,
            "invalid TURN public IP",
        ),
        (
            |c| c.turn.public_ip = Some(Ipv4Addr::unspecified()),
            ConfigFault::BadTurnPublicIp,
            "invalid TURN public IP",
        ),
        (
            |c| c.webrtc.public_ip = None,
            ConfigFault::PublicIpMismatch,
            "TURN and WebRTC public_ip must match",
        ),
        (
            |c| c.webrtc.udp_port = 0,
            ConfigFault::NoMediaPort,
            "TURN requires a fixed WebRTC udp_port",
        ),
        (
            |c| c.turn.port = 8080,
            ConfigFault::PortsClash,
            "TURN/media ports must be distinct and nonzero",
        ),
        (|c| c.turn.realm = "".into(), ConfigFault::NoRealm, "TURN realm is required"),
        (
            |c| c.turn.public_host = "a b".into(),
            ConfigFault::BadPublicHost,
            "TURN public_host must be an IPv4 address or hostname",
        ),
        (
            |c| c.turn.credential_ttl_secs = 299,
            ConfigFault::BadTtl,
            "TURN credential TTL must be 300..86400 seconds",
        ),
        (
            |c| c.turn.relay_max_port = 50000,
            ConfigFault::BadRelayRange,
            "invalid or overlapping TURN relay port range",
        ),
        (
            |c| c.turn.tls_cert = Some("cert.pem".into()),
            ConfigFault::TlsHalfConfigured,
            "TURN TLS requires both certificate and key",
        ),
        (
            |c| {
                c.turn.tls_cert = Some("cert.pem".into());
                c.turn.tls_key = Some("key.pem".into());
                c.turn.tls_port = 3478;
            },
            ConfigFault::TlsPortClash,
            "TURN TLS port conflicts with another TCP listener",
        ),
    ];
    for (spoil, fault, text) in faults {
        let mut c = config();
        spoil(&mut c);
        assert_eq!(c.validate(), Err(fault));
        assert_eq!(accepted(c.clone()).err(), Some(fault));
        assert_eq!(fault.message(), text);
        c.turn.enabled = false;
        assert_eq!(c.validate().is_err(), fault == ConfigFault::NoConnections);
    }
}

const FILE: &str = "[server]\nlisten_addr = \"0.0.0.0\"\nlisten_port = 8080\nmax_connections = 100\n\
    [mumble]\nhost = \"${MUMBLE_HOST:-mumble.example.com}\"\nport = 64738\n";

#[test]
fn variables_win_over_placeholders_and_placeholders_over_defaults() {
    let host = |vars: &[(&str, &str)]| {
        let t = load_table(FILE, &env(vars)).unwrap();
        t["mumble"]["host"].as_str().unwrap().to_string()
    };
    assert_eq!(host(&[]), "mumble.example.com");
    assert_eq!(host(&[("MUMBLE_HOST", "a")]), "a");
    assert_eq!(host(&[("MUMBLE_HOST", "a"), ("MUMDOTA_MUMBLE_HOST", "b")]), "b");
}

#[test]
fn overrides_of_every_kind() {
    let vars = env(&[
        ("MUMDOTA_SERVER_LISTEN_PORT", "9090"),
        ("MUMDOTA_SERVER_MAX_CONNECTIONS", "many"),
        ("MUMDOTA_MUMBLE_ACCEPT_INVALID_CERTS", "YES"),
        ("MUMDOTA_WEBRTC_STUN_SERVERS", "stun:a, stun:b"),
        ("MUMDOTA_SERVER_ALLOWED_ORIGINS", " https://a ,,https://b"),
        ("MUMDOTA_TURN_ENABLED", "0"),
    ]);
    let t = load_table(FILE, &vars).unwrap();
    assert_eq!(t["server"]["listen_port"].as_integer(), Some(9090));
    assert_eq!(t["server"]["max_connections"].as_integer(), Some(100));
    assert_eq!(t["server"]["listen_addr"].as_str(), Some("0.0.0.0"));
    assert_eq!(t["mumble"]["accept_invalid_certs"].as_bool(), Some(true));
    assert_eq!(t["turn"]["enabled"].as_bool(), Some(false));
    let list = |section: &str, key: &str| -> Vec<String> {
        t[section][key].as_array().unwrap().iter().map(|v| v.as_str().unwrap().to_string()).collect()
    };
    assert_eq!(list("webrtc", "stun_servers"), vec!["stun:a", "stun:b"]);
    assert_eq!(list("server", "allowed_origins"), vec!["https://a", "https://b"]);
}

#[test]
fn loading_fails_where_the_file_cannot_be_used() {
    assert!(matches!(load_table("a = \"${X}\"", &env(&[])), Err(LoadError::Expand(_))));
    assert!(matches!(load_table("a = ", &env(&[])), Err(LoadError::Parse(_))));
    let vars = env(&[("MUMDOTA_MUMBLE_HOST", "b")]);
    assert!(matches!(load_table("mumble = 3", &vars), Err(LoadError::NotASection)));
    assert!(load_table("mumble = 3", &env(&[])).is_ok());
}

#[test]
fn overrides_applied_to_a_parsed_file() {
    let vars = env(&[("MUMDOTA_TURN_REALM", "r")]);
    let mut t = toml::Table::new();
    apply_env_overrides(&mut t, &vars);
    assert_eq!(t["turn"]["realm"].as_str(), Some("r"));
    assert_eq!(t.len(), 1);
    let again = override_file(toml::Table::new(), &vars).unwrap();
    assert_eq!(again, t);
    assert_eq!(override_rules().len(), 22);
}

#[test]
fn settings_are_read_by_kind() {
    assert!(matches!(parse_setting(Kind::Integer, "+7".into()), Some(Setting::Integer(7))));
    assert!(matches!(
        parse_setting(Kind::Integer, "-9223372036854775808".into()),
        Some(Setting::Integer(i64::MIN))
    ));
    assert!(parse_setting(Kind::Integer, "9223372036854775808".into()).is_none());
    assert!(parse_setting(Kind::Integer, " 7".into()).is_none());
    assert!(matches!(parse_setting(Kind::Flag, "TrUe".into()), Some(Setting::Flag(true))));
    assert!(matches!(parse_setting(Kind::Flag, "on".into()), Some(Setting::Flag(false))));
    assert!(parse_flag("1") && parse_flag("yes") && !parse_flag("no"));
    match parse_setting(Kind::Text, " x ".into()) {
        Some(Setting::Text(t)) => assert_eq!(t, " x "),
        other => panic!("expected text, got {other:?}"),
    }
}
