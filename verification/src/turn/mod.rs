//! The built-in TURN service.

pub mod credentials;
pub mod relay;
pub mod stream;

use vstd::prelude::*;

use crate::clock::{is_clock_reading, unix_time};
use crate::config::{is_first_fault, is_valid, turn_faults, Config, ConfigFault};
use crate::list::views;
use crate::net::Ipv4Addr;
use crate::slots::Slots;
use crate::text::{concat3, decimal, decimal_string};

use self::credentials::{
    has_room, is_issued, of_others, CredentialView, Credentials, CredentialsView, IceConfig, Nonce,
};
use self::relay::MediaRelayGenerator;

verus! {

/// How long a TURN channel stays bound, in seconds.
pub const CHANNEL_BIND_TIMEOUT_SECS: u64 = 600;

/// How often a free relay port is looked for.
pub const RELAY_MAX_RETRIES: u16 = 100;

/// How long a TLS handshake may take, in seconds.
pub const TLS_TIMEOUT_SECS: u64 = 10;

/// Why TURN does not start.
#[derive(Debug, Clone, Copy, PartialEq, Eq, Structural)]
pub enum TurnError {
    Invalid(ConfigFault),
    Disabled,
}

impl TurnError {
    pub open spec fn text(self) -> Seq<char> {
        match self {
            TurnError::Invalid(fault) => fault.text(),
            TurnError::Disabled => "TURN is disabled"@,
        }
    }

    /// The error in words.
    pub fn message(&self) -> (r: String)
        ensures
            r@ == self.text(),
    {
        match self {
            TurnError::Invalid(fault) => fault.message(),
            TurnError::Disabled => "TURN is disabled".to_owned(),
        }
    }
}

/// What the TURN service goes by, and the credentials that it has issued.
pub struct TurnService {
    pub listen_addr: Ipv4Addr,
    pub public_host: String,
    pub port: u16,
    /// The TLS port, where TLS is served.
    pub tls_port: Option<u16>,
    pub relay: MediaRelayGenerator,
    pub max_connections: usize,
    pub credentials: Credentials,
}

/// What TURN serves under `config`, before it has issued credentials.
pub open spec fn serves(s: TurnService, config: Config) -> bool {
    &&& s.listen_addr == config.turn.listen_addr
    &&& s.public_host@ == config.turn.public_host@
    &&& s.port == config.turn.port
    &&& s.tls_port == if config.turn.tls_cert is Some && config.turn.tls_key is Some {
        Some(config.turn.tls_port)
    } else {
        None
    }
    &&& config.turn.public_ip == Some(s.relay.public_ip)
    &&& s.relay.media_port == config.webrtc.udp_port
    &&& s.relay.min_port == config.turn.relay_min_port
    &&& s.relay.max_port == config.turn.relay_max_port
    &&& s.max_connections == config.server.max_connections
    &&& s.credentials@ == (CredentialsView {
        realm: config.turn.realm@,
        ttl: config.turn.credential_ttl_secs,
        entries: Map::empty(),
    })
}

/// `scheme:host:port` and what follows it.
pub open spec fn ice_url(scheme: Seq<char>, host: Seq<char>, port: u16, rest: Seq<char>) -> Seq<
    char,
> {
    scheme + host + ":"@ + decimal(port as nat) + rest
}

/// The servers that browsers are told of: STUN, TURN over UDP and TCP, and TURN
/// over TLS where it is served.
pub open spec fn ice_urls_of(host: Seq<char>, port: u16, tls_port: Option<u16>) -> Seq<Seq<char>> {
    let plain = seq![
        ice_url("stun:"@, host, port, ""@),
        ice_url("turn:"@, host, port, "?transport=udp"@),
        ice_url("turn:"@, host, port, "?transport=tcp"@),
    ];
    match tls_port {
        Some(p) => plain.push(ice_url("turns:"@, host, p, "?transport=tcp"@)),
        None => plain,
    }
}

fn url(scheme: &str, host: &str, port: u16, rest: &str) -> (r: String)
    ensures
        r@ == ice_url(scheme@, host@, port, rest@),
{
    let mut r = concat3(scheme, host, ":");
    r.append(decimal_string(port as u64).as_str());
    r.append(rest);
    r
}

/// What is done with a connection to a TURN listener.
#[derive(Debug, Clone, Copy, PartialEq, Eq, Structural)]
pub enum AcceptAction {
    /// The listener failed: no more connections are taken.
    Stop,
    /// There is no free place: the connection is dropped.
    Refuse,
    /// The connection has taken a place and is served.
    Serve,
}

/// What is done with a connection where `taken` of `max` places are taken.
pub open spec fn accept_action(accepted: bool, taken: nat, max: nat) -> AcceptAction {
    if !accepted {
        AcceptAction::Stop
    } else if taken == max {
        AcceptAction::Refuse
    } else {
        AcceptAction::Serve
    }
}

/// Decides on a connection; `accepted` tells whether there is one.
pub fn on_accept(slots: &mut Slots, accepted: bool) -> (r: AcceptAction)
    requires
        old(slots).wf(),
    ensures
        final(slots).wf(),
        final(slots).max_spec() == old(slots).max_spec(),
        r == accept_action(accepted, old(slots).taken_spec(), old(slots).max_spec()),
        final(slots).taken_spec() == old(slots).taken_spec() + if r == AcceptAction::Serve {
            1nat
        } else {
            0nat
        },
{
    if !accepted {
        AcceptAction::Stop
    } else if slots.try_acquire() {
        AcceptAction::Serve
    } else {
        AcceptAction::Refuse
    }
}

/// How many streams a listener serves at a time, for so many browsers.
pub open spec fn streams_served(browsers: nat) -> nat {
    browsers * 2
}

impl TurnService {
    /// Sets the service up, where the configuration is valid and wants it.
    pub fn start(config: &Config) -> (r: Result<TurnService, TurnError>)
        ensures
            match r {
                Ok(s) => is_valid(*config) && config.turn.enabled && s.credentials.wf() && serves(
                    s,
                    *config,
                ),
                Err(TurnError::Invalid(fault)) => !is_valid(*config) && is_first_fault(
                    *config,
                    fault,
                ),
                Err(TurnError::Disabled) => is_valid(*config) && !config.turn.enabled,
            },
    {
        if let Err(fault) = config.validate() {
            return Err(TurnError::Invalid(fault));
        }
        if !config.turn.enabled {
            return Err(TurnError::Disabled);
        }
        assert(turn_faults()[0] == ConfigFault::NoTurnPublicIp);
        let public_ip = match config.turn.public_ip {
            Some(ip) => ip,
            None => return Err(TurnError::Invalid(ConfigFault::NoTurnPublicIp)),
        };
        let tls_port = if config.turn.tls_cert.is_some() && config.turn.tls_key.is_some() {
            Some(config.turn.tls_port)
        } else {
            None
        };
        let s = TurnService {
            listen_addr: config.turn.listen_addr,
            public_host: config.turn.public_host.clone(),
            port: config.turn.port,
            tls_port,
            relay: MediaRelayGenerator {
                min_port: config.turn.relay_min_port,
                max_port: config.turn.relay_max_port,
                public_ip,
                media_port: config.webrtc.udp_port,
            },
            max_connections: config.server.max_connections,
            credentials: Credentials::new(
                config.turn.realm.clone(),
                config.turn.credential_ttl_secs,
            ),
        };
        assert(s.credentials@ =~= (CredentialsView {
            realm: config.turn.realm@,
            ttl: config.turn.credential_ttl_secs,
            entries: Map::<Seq<char>, CredentialView>::empty(),
        }));
        Ok(s)
    }

    /// How many streams each listener serves at a time: two for each browser.
    pub fn stream_slots(&self) -> (r: Slots)
        requires
            self.max_connections * 2 <= usize::MAX,
        ensures
            r.wf(),
            r.max_spec() == streams_served(self.max_connections as nat),
            r.taken_spec() == 0,
    {
        Slots::new(self.max_connections * 2)
    }

    /// The servers that browsers are told of.
    pub fn ice_urls(&self) -> (r: Vec<String>)
        ensures
            views(r@) == ice_urls_of(self.public_host@, self.port, self.tls_port),
    {
        let host = self.public_host.as_str();
        let mut urls: Vec<String> = Vec::new();
        urls.push(url("stun:", host, self.port, ""));
        urls.push(url("turn:", host, self.port, "?transport=udp"));
        urls.push(url("turn:", host, self.port, "?transport=tcp"));
        if let Some(port) = self.tls_port {
            urls.push(url("turns:", host, port, "?transport=tcp"));
        }
        assert(views(urls@) =~= ice_urls_of(self.public_host@, self.port, self.tls_port));
        urls
    }

    /// The ICE servers of a session at the time `now`, with a credential. `None`,
    /// and nothing is changed, exactly where `now` leaves no room for the time at
    /// which the credential would run out.
    pub fn ice_config_at(&mut self, session: &str, now: u64) -> (r: Option<IceConfig>)
        requires
            old(self).credentials.wf(),
        ensures
            final(self).credentials.wf(),
            *final(self) == (TurnService { credentials: final(self).credentials, ..*old(self) }),
            r is None <==> !has_room(old(self).credentials@.ttl, now),
            match r {
                Some(config) => exists|nonce: Nonce|
                    nonce.is_marked() && #[trigger] is_issued(
                        old(self).credentials@,
                        session@,
                        ice_urls_of(old(self).public_host@, old(self).port, old(self).tls_port),
                        now,
                        nonce,
                        final(self).credentials@,
                        config@,
                    ),
                None => final(self).credentials@ == old(self).credentials@,
            },
    {
        let urls = self.ice_urls();
        self.credentials.issue_if_room(session, urls.as_slice(), now)
    }

    /// The ICE servers of a session, with a credential. `None`, and nothing is
    /// changed, where the clock leaves no room for the time at which the
    /// credential would run out.
    pub fn ice_config(&mut self, session: &str) -> (r: Option<IceConfig>)
        requires
            old(self).credentials.wf(),
        ensures
            final(self).credentials.wf(),
            *final(self) == (TurnService { credentials: final(self).credentials, ..*old(self) }),
            match r {
                Some(config) => exists|now: u64, nonce: Nonce|
                    is_clock_reading(now) && has_room(old(self).credentials@.ttl, now)
                        && nonce.is_marked() && #[trigger] is_issued(
                        old(self).credentials@,
                        session@,
                        ice_urls_of(old(self).public_host@, old(self).port, old(self).tls_port),
                        now,
                        nonce,
                        final(self).credentials@,
                        config@,
                    ),
                None => final(self).credentials@ == old(self).credentials@ && exists|now: u64|
                    is_clock_reading(now) && !#[trigger] has_room(old(self).credentials@.ttl, now),
            },
    {
        let now: u64 = unix_time();
        self.ice_config_at(session, now)
    }

    /// Takes a session's credentials back; the usernames are those whose relays
    /// must end.
    pub fn revoke(&mut self, session: &str) -> (r: Vec<String>)
        requires
            old(self).credentials.wf(),
        ensures
            final(self).credentials.wf(),
            *final(self) == (TurnService { credentials: final(self).credentials, ..*old(self) }),
            final(self).credentials@ == (CredentialsView {
                entries: of_others(old(self).credentials@.entries, session@),
                ..old(self).credentials@
            }),
            views(r@).no_duplicates(),
            forall|u: Seq<char>| #[trigger]
                views(r@).contains(u) <==> old(self).credentials@.entries.dom().contains(u)
                    && old(self).credentials@.entries[u].session == session@,
    {
        self.credentials.revoke(session)
    }
}

// Laws

/// A listener serves every connection for which a place is free, refuses those
/// for which none is, and stops exactly where it fails.
pub proof fn law_listener_serves_while_there_is_room(accepted: bool, taken: nat, max: nat)
    requires
        taken <= max,
    ensures
        accept_action(accepted, taken, max) is Serve <==> accepted && taken < max,
        accept_action(accepted, taken, max) is Refuse <==> accepted && taken >= max,
        accept_action(accepted, taken, max) is Stop <==> !accepted,
{
}

/// What TURN serves is what the configuration says: its addresses and ports, the
/// media that it relays to, the realm and lifetime of its credentials, and TLS
/// exactly where there are both a certificate and a key. It begins without
/// credentials.
pub proof fn law_service_follows_the_configuration(s: TurnService, config: Config)
    requires
        serves(s, config),
    ensures
        s.listen_addr == config.turn.listen_addr && s.port == config.turn.port,
        s.public_host@ == config.turn.public_host@,
        s.tls_port is Some <==> config.turn.tls_cert is Some && config.turn.tls_key is Some,
        s.tls_port matches Some(port) ==> port == config.turn.tls_port,
        config.turn.public_ip matches Some(ip) && s.relay.public_ip == ip,
        s.relay.media_port == config.webrtc.udp_port,
        s.relay.min_port == config.turn.relay_min_port,
        s.relay.max_port == config.turn.relay_max_port,
        s.max_connections == config.server.max_connections,
        s.credentials@.realm == config.turn.realm@,
        s.credentials@.ttl == config.turn.credential_ttl_secs,
        forall|u: Seq<char>| !s.credentials@.entries.dom().contains(u),
{
}

/// Browsers are told of STUN, of TURN over UDP and over TCP, all at the one port,
/// and of TURN over TLS at its own port exactly where it is served; every URL
/// names the host.
pub proof fn law_urls_name_host_and_port(host: Seq<char>, port: u16, tls_port: Option<u16>)
    ensures
        ice_urls_of(host, port, tls_port).len() == 3 + (if tls_port is Some {
            1int
        } else {
            0int
        }),
        ice_urls_of(host, port, tls_port)[0] == "stun:"@ + host + ":"@ + decimal(port as nat),
        ice_urls_of(host, port, tls_port)[1] == "turn:"@ + host + ":"@ + decimal(port as nat)
            + "?transport=udp"@,
        ice_urls_of(host, port, tls_port)[2] == "turn:"@ + host + ":"@ + decimal(port as nat)
            + "?transport=tcp"@,
        tls_port matches Some(p) ==> ice_urls_of(host, port, tls_port)[3] == "turns:"@ + host
            + ":"@ + decimal(p as nat) + "?transport=tcp"@,
{
    reveal_strlit("");
    assert(ice_urls_of(host, port, tls_port)[0] =~= "stun:"@ + host + ":"@ + decimal(port as nat));
}

/// Every browser can have two streams at each listener, and one more browser makes
/// room for two more.
pub proof fn law_two_streams_for_each_browser(browsers: nat)
    ensures
        streams_served(0) == 0,
        streams_served(browsers + 1) == streams_served(browsers) + 2,
{
}

} // verus!
