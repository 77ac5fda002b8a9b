//! The configuration: what it holds, when it is valid, and how it comes
//! together from a file and the environment.

use vstd::prelude::*;

use crate::net::Ipv4Addr;
use crate::text::{
    chars_of, concat3, decimal, decimal_string, find_pair, integer, law_decimal_reads_back,
    law_first_pair_is_found, same_text, string_of,
};

verus! {

#[derive(Debug, Clone)]
pub struct Config {
    pub server: ServerConfig,
    pub mumble: MumbleConfig,
    pub webrtc: WebrtcConfig,
    pub turn: TurnConfig,
}

#[derive(Debug, Clone)]
pub struct ServerConfig {
    pub listen_addr: String,
    pub listen_port: u16,
    pub max_connections: usize,
    pub allowed_origins: Vec<String>,
}

#[derive(Debug, Clone)]
pub struct MumbleConfig {
    pub host: String,
    pub port: u16,
    pub accept_invalid_certs: bool,
}

#[derive(Debug, Clone)]
pub struct WebrtcConfig {
    pub stun_servers: Vec<String>,
    pub udp_port: u16,
    pub public_ip: Option<Ipv4Addr>,
}

#[derive(Debug, Clone)]
pub struct TurnConfig {
    pub enabled: bool,
    pub listen_addr: Ipv4Addr,
    pub port: u16,
    pub public_ip: Option<Ipv4Addr>,
    pub public_host: String,
    pub realm: String,
    pub relay_min_port: u16,
    pub relay_max_port: u16,
    pub credential_ttl_secs: u64,
    pub tls_port: u16,
    pub tls_cert: Option<String>,
    pub tls_key: Option<String>,
}

/// The media port where the file names none.
pub fn default_media_port() -> (r: u16)
    ensures
        r == 50000,
{
    50000
}

impl Default for TurnConfig {
    fn default() -> (r: Self)
        ensures
            !r.enabled,
            r.listen_addr == Ipv4Addr::unspecified_spec(),
            r.port == 3478,
            r.public_ip is None,
            r.public_host@ == Seq::<char>::empty(),
            r.realm@ == "mumdota"@,
            r.relay_min_port == 49160,
            r.relay_max_port == 49999,
            r.credential_ttl_secs == 3600,
            r.tls_port == 5349,
            r.tls_cert is None,
            r.tls_key is None,
    {
        TurnConfig {
            enabled: false,
            listen_addr: Ipv4Addr::unspecified(),
            port: 3478,
            public_ip: None,
            public_host: String::new(),
            realm: "mumdota".to_owned(),
            relay_min_port: 49160,
            relay_max_port: 49999,
            credential_ttl_secs: 3600,
            tls_port: 5349,
            tls_cert: None,
            tls_key: None,
        }
    }
}

/// What is wrong with a configuration.
#[derive(Debug, Clone, Copy, PartialEq, Eq, Structural)]
pub enum ConfigFault {
    NoConnections,
    NoTurnPublicIp,
    BadTurnPublicIp,
    PublicIpMismatch,
    NoMediaPort,
    PortsClash,
    NoRealm,
    BadPublicHost,
    BadTtl,
    BadRelayRange,
    TlsHalfConfigured,
    TlsPortClash,
}

impl ConfigFault {
    pub open spec fn text(self) -> Seq<char> {
        match self {
            ConfigFault::NoConnections => "max_connections must be positive"@,
            ConfigFault::NoTurnPublicIp => "TURN requires turn.public_ip"@,
            ConfigFault::BadTurnPublicIp => "invalid TURN public IP"@,
            ConfigFault::PublicIpMismatch => "TURN and WebRTC public_ip must match"@,
            ConfigFault::NoMediaPort => "TURN requires a fixed WebRTC udp_port"@,
            ConfigFault::PortsClash => "TURN/media ports must be distinct and nonzero"@,
            ConfigFault::NoRealm => "TURN realm is required"@,
            ConfigFault::BadPublicHost => "TURN public_host must be an IPv4 address or hostname"@,
            ConfigFault::BadTtl => "TURN credential TTL must be 300..86400 seconds"@,
            ConfigFault::BadRelayRange => "invalid or overlapping TURN relay port range"@,
            ConfigFault::TlsHalfConfigured => "TURN TLS requires both certificate and key"@,
            ConfigFault::TlsPortClash => "TURN TLS port conflicts with another TCP listener"@,
        }
    }

    /// The fault in words.
    pub fn message(&self) -> (r: String)
        ensures
            r@ == self.text(),
    {
        match self {
            ConfigFault::NoConnections => "max_connections must be positive".to_owned(),
            ConfigFault::NoTurnPublicIp => "TURN requires turn.public_ip".to_owned(),
            ConfigFault::BadTurnPublicIp => "invalid TURN public IP".to_owned(),
            ConfigFault::PublicIpMismatch => "TURN and WebRTC public_ip must match".to_owned(),
            ConfigFault::NoMediaPort => "TURN requires a fixed WebRTC udp_port".to_owned(),
            ConfigFault::PortsClash => "TURN/media ports must be distinct and nonzero".to_owned(),
            ConfigFault::NoRealm => "TURN realm is required".to_owned(),
            ConfigFault::BadPublicHost =>
                "TURN public_host must be an IPv4 address or hostname".to_owned(),
            ConfigFault::BadTtl => "TURN credential TTL must be 300..86400 seconds".to_owned(),
            ConfigFault::BadRelayRange =>
                "invalid or overlapping TURN relay port range".to_owned(),
            ConfigFault::TlsHalfConfigured =>
                "TURN TLS requires both certificate and key".to_owned(),
            ConfigFault::TlsPortClash =>
                "TURN TLS port conflicts with another TCP listener".to_owned(),
        }
    }
}

pub open spec fn is_host_char(c: char) -> bool {
    'a' <= c <= 'z' || 'A' <= c <= 'Z' || '0' <= c <= '9' || c == '.' || c == '-'
}

/// Whether `s` can be a host name or an IPv4 address: not empty, and nothing
/// but ASCII letters, digits, dots and hyphens.
pub open spec fn is_host(s: Seq<char>) -> bool {
    s.len() > 0 && forall|i: int| 0 <= i < s.len() ==> is_host_char(#[trigger] s[i])
}

/// Whether `port` is one that TURN may relay from.
pub open spec fn in_relay_range(t: TurnConfig, port: u16) -> bool {
    t.relay_min_port <= port <= t.relay_max_port
}

/// Whether the fault is present in `c`, looked at by itself.
pub open spec fn has_fault(c: Config, f: ConfigFault) -> bool {
    match f {
        ConfigFault::NoConnections => c.server.max_connections == 0,
        ConfigFault::NoTurnPublicIp => c.turn.public_ip is None,
        ConfigFault::BadTurnPublicIp => c.turn.public_ip == Some(Ipv4Addr::unspecified_spec()) || (
        c.turn.public_ip is Some && 224 <= c.turn.public_ip->0.a <= 239),
        ConfigFault::PublicIpMismatch => c.webrtc.public_ip != c.turn.public_ip,
        ConfigFault::NoMediaPort => c.webrtc.udp_port == 0,
        ConfigFault::PortsClash => c.turn.port == 0 || c.turn.port == c.webrtc.udp_port
            || c.turn.port == c.server.listen_port,
        ConfigFault::NoRealm => c.turn.realm@.len() == 0,
        ConfigFault::BadPublicHost => !is_host(c.turn.public_host@),
        ConfigFault::BadTtl => !(300 <= c.turn.credential_ttl_secs <= 86400),
        ConfigFault::BadRelayRange => c.turn.relay_min_port == 0 || c.turn.relay_min_port
            > c.turn.relay_max_port || in_relay_range(c.turn, c.webrtc.udp_port) || in_relay_range(
            c.turn,
            c.turn.port,
        ),
        ConfigFault::TlsHalfConfigured => c.turn.tls_cert is Some != c.turn.tls_key is Some,
        ConfigFault::TlsPortClash => c.turn.tls_cert is Some && (c.turn.tls_port == 0
            || c.turn.tls_port == c.turn.port || c.turn.tls_port == c.server.listen_port),
    }
}

/// The faults that matter where TURN is on, in the order in which they are
/// reported.
pub open spec fn turn_faults() -> Seq<ConfigFault> {
    seq![
        ConfigFault::NoTurnPublicIp,
        ConfigFault::BadTurnPublicIp,
        ConfigFault::PublicIpMismatch,
        ConfigFault::NoMediaPort,
        ConfigFault::PortsClash,
        ConfigFault::NoRealm,
        ConfigFault::BadPublicHost,
        ConfigFault::BadTtl,
        ConfigFault::BadRelayRange,
        ConfigFault::TlsHalfConfigured,
        ConfigFault::TlsPortClash,
    ]
}

/// Whether nothing is wrong with `c`.
pub open spec fn is_valid(c: Config) -> bool {
    &&& !has_fault(c, ConfigFault::NoConnections)
    &&& c.turn.enabled ==> forall|i: int|
        0 <= i < turn_faults().len() ==> !has_fault(c, #[trigger] turn_faults()[i])
}

/// Whether `f` is the fault that is reported of `c`: the first there is.
pub open spec fn is_first_fault(c: Config, f: ConfigFault) -> bool {
    if has_fault(c, ConfigFault::NoConnections) {
        f == ConfigFault::NoConnections
    } else {
        c.turn.enabled && exists|i: int|
            #![trigger turn_faults()[i]]
            {
                &&& 0 <= i < turn_faults().len()
                &&& f == turn_faults()[i]
                &&& has_fault(c, f)
                &&& forall|j: int| 0 <= j < i ==> !has_fault(c, #[trigger] turn_faults()[j])
            }
    }
}

fn host(s: &str) -> (r: bool)
    ensures
        r == is_host(s@),
{
    let chars: Vec<char> = chars_of(s);
    if chars.len() == 0 {
        return false;
    }
    let mut i: usize = 0;
    while i < chars.len()
        invariant
            i <= chars@.len(),
            chars@ == s@,
            forall|k: int| 0 <= k < i ==> is_host_char(#[trigger] chars@[k]),
        decreases chars@.len() - i,
    {
        let c = chars[i];
        if !(('a' <= c && c <= 'z') || ('A' <= c && c <= 'Z') || ('0' <= c && c <= '9') || c == '.'
            || c == '-') {
            assert(!is_host_char(s@[i as int]));
            return false;
        }
        i = i + 1;
    }
    true
}

/// A host and a port, as `host:port`.
pub open spec fn address(host: Seq<char>, port: u16) -> Seq<char> {
    host + seq![':'] + decimal(port as nat)
}

impl Config {
    /// Whether the configuration can be used; the first fault where it cannot.
    pub fn validate(&self) -> (r: Result<(), ConfigFault>)
        ensures
            r is Ok <==> is_valid(*self),
            r matches Err(f) ==> is_first_fault(*self, f),
    {
        if self.server.max_connections == 0 {
            return Err(ConfigFault::NoConnections);
        }
        if self.turn.enabled {
            let ghost faults = turn_faults();
            let ip = match self.turn.public_ip {
                Some(ip) => ip,
                None => {
                    assert(faults[0] == ConfigFault::NoTurnPublicIp);
                    return Err(ConfigFault::NoTurnPublicIp);
                },
            };
            if ip.is_unspecified() || ip.is_multicast() {
                assert(faults[1] == ConfigFault::BadTurnPublicIp);
                return Err(ConfigFault::BadTurnPublicIp);
            }
            let same = match self.webrtc.public_ip {
                Some(other) => other == ip,
                None => false,
            };
            if !same {
                assert(faults[2] == ConfigFault::PublicIpMismatch);
                return Err(ConfigFault::PublicIpMismatch);
            }
            if self.webrtc.udp_port == 0 {
                assert(faults[3] == ConfigFault::NoMediaPort);
                return Err(ConfigFault::NoMediaPort);
            }
            if self.turn.port == 0 || self.turn.port == self.webrtc.udp_port || self.turn.port
                == self.server.listen_port {
                assert(faults[4] == ConfigFault::PortsClash);
                return Err(ConfigFault::PortsClash);
            }
            if self.turn.realm.as_str().is_empty() {
                assert(faults[5] == ConfigFault::NoRealm);
                return Err(ConfigFault::NoRealm);
            }
            if !host(self.turn.public_host.as_str()) {
                assert(faults[6] == ConfigFault::BadPublicHost);
                return Err(ConfigFault::BadPublicHost);
            }
            if self.turn.credential_ttl_secs < 300 || self.turn.credential_ttl_secs > 86400 {
                assert(faults[7] == ConfigFault::BadTtl);
                return Err(ConfigFault::BadTtl);
            }
            let min: u16 = self.turn.relay_min_port;
            let max: u16 = self.turn.relay_max_port;
            if min == 0 || min > max || (min <= self.webrtc.udp_port && self.webrtc.udp_port
                <= max) || (min <= self.turn.port && self.turn.port <= max) {
                assert(faults[8] == ConfigFault::BadRelayRange);
                return Err(ConfigFault::BadRelayRange);
            }
            if self.turn.tls_cert.is_some() != self.turn.tls_key.is_some() {
                assert(faults[9] == ConfigFault::TlsHalfConfigured);
                return Err(ConfigFault::TlsHalfConfigured);
            }
            if self.turn.tls_cert.is_some() && (self.turn.tls_port == 0 || self.turn.tls_port
                == self.turn.port || self.turn.tls_port == self.server.listen_port) {
                assert(faults[10] == ConfigFault::TlsPortClash);
                return Err(ConfigFault::TlsPortClash);
            }
        }
        Ok(())
    }

    /// Where the Mumble server is, as `host:port`.
    pub fn mumble_addr(&self) -> (r: String)
        ensures
            r@ == address(self.mumble.host@, self.mumble.port),
    {
        host_and_port(self.mumble.host.as_str(), self.mumble.port)
    }

    /// Where the proxy listens, as `address:port`.
    pub fn listen_addr(&self) -> (r: String)
        ensures
            r@ == address(self.server.listen_addr@, self.server.listen_port),
    {
        host_and_port(self.server.listen_addr.as_str(), self.server.listen_port)
    }
}

/// The configuration as it was read, where it can be used; else the first
/// fault. This is the last step of loading: what comes out is valid.
pub fn accepted(config: Config) -> (r: Result<Config, ConfigFault>)
    ensures
        r is Ok <==> is_valid(config),
        r matches Ok(c) ==> c == config,
        r matches Err(f) ==> is_first_fault(config, f),
{
    match config.validate() {
        Ok(()) => Ok(config),
        Err(fault) => Err(fault),
    }
}

fn host_and_port(host: &str, port: u16) -> (r: String)
    ensures
        r@ == address(host@, port),
{
    let mut r = host.to_owned();
    r.push(':');
    assert(r@ =~= host@ + seq![':']);
    r.append(decimal_string(port as u64).as_str());
    r
}

// The environment

/// The environment variables, by name.
#[derive(Debug)]
pub struct EnvVars {
    vars: Vec<(String, String)>,
}

pub closed spec fn env_map(vars: Seq<(String, String)>) -> Map<Seq<char>, Seq<char>>
    decreases vars.len(),
{
    if vars.len() == 0 {
        Map::empty()
    } else {
        env_map(vars.drop_last()).insert(vars.last().0@, vars.last().1@)
    }
}

impl View for EnvVars {
    type V = Map<Seq<char>, Seq<char>>;

    closed spec fn view(&self) -> Map<Seq<char>, Seq<char>> {
        env_map(self.vars@)
    }
}

/// The environment when a variable has been set.
pub open spec fn with_variable(
    env: Map<Seq<char>, Seq<char>>,
    name: Seq<char>,
    value: Seq<char>,
) -> Map<Seq<char>, Seq<char>> {
    env.insert(name, value)
}

/// The value of a variable, if it is set.
pub open spec fn value_of(env: Map<Seq<char>, Seq<char>>, name: Seq<char>) -> Option<Seq<char>> {
    if env.dom().contains(name) {
        Some(env[name])
    } else {
        None
    }
}

impl EnvVars {
    /// An environment without variables.
    pub fn new() -> (r: EnvVars)
        ensures
            r@ == Map::<Seq<char>, Seq<char>>::empty(),
    {
        EnvVars { vars: Vec::new() }
    }

    /// Sets a variable, whatever it was before.
    pub fn set(&mut self, name: &str, value: &str)
        ensures
            final(self)@ == with_variable(old(self)@, name@, value@),
    {
        let ghost before = self.vars@;
        self.vars.push((name.to_owned(), value.to_owned()));
        assert(self.vars@.drop_last() =~= before);
    }

    /// The value of a variable, if it is set.
    pub fn get(&self, name: &str) -> (r: Option<String>)
        ensures
            match r {
                Some(v) => value_of(self@, name@) == Some(v@),
                None => value_of(self@, name@) is None,
            },
    {
        let mut i: usize = self.vars.len();
        assert(self.vars@.take(i as int) =~= self.vars@);
        while i > 0
            invariant
                i <= self.vars@.len(),
                self@.dom().contains(name@) == env_map(self.vars@.take(i as int)).dom().contains(
                    name@,
                ),
                self@.dom().contains(name@) ==> self@[name@] == env_map(
                    self.vars@.take(i as int),
                )[name@],
            decreases i,
        {
            assert(self.vars@.take(i as int).drop_last() =~= self.vars@.take(i - 1));
            if same_text(self.vars[i - 1].0.as_str(), name) {
                return Some(self.vars[i - 1].1.clone());
            }
            i = i - 1;
        }
        None
    }
}

// Placeholders

/// Why a configuration text cannot be expanded.
#[derive(Debug)]
pub enum ExpandError {
    /// A placeholder has no end.
    Unclosed,
    /// A placeholder names no variable.
    EmptyName,
    /// The variable is not set and the placeholder gives no default.
    Unset(String),
}

/// What an [`ExpandError`] says.
pub enum ExpandErrorView {
    Unclosed,
    EmptyName,
    Unset(Seq<char>),
}

impl View for ExpandError {
    type V = ExpandErrorView;

    open spec fn view(&self) -> ExpandErrorView {
        match *self {
            ExpandError::Unclosed => ExpandErrorView::Unclosed,
            ExpandError::EmptyName => ExpandErrorView::EmptyName,
            ExpandError::Unset(name) => ExpandErrorView::Unset(name@),
        }
    }
}

impl ExpandErrorView {
    pub open spec fn text(self) -> Seq<char> {
        match self {
            ExpandErrorView::Unclosed => "unclosed '${' in config"@,
            ExpandErrorView::EmptyName => "empty variable name in config placeholder"@,
            ExpandErrorView::Unset(name) => "environment variable '"@ + name
                + "' is not set and has no default value"@,
        }
    }
}

impl ExpandError {
    /// The error in words.
    pub fn message(&self) -> (r: String)
        ensures
            r@ == self@.text(),
    {
        match self {
            ExpandError::Unclosed => "unclosed '${' in config".to_owned(),
            ExpandError::EmptyName => "empty variable name in config placeholder".to_owned(),
            ExpandError::Unset(name) => concat3(
                "environment variable '",
                name.as_str(),
                "' is not set and has no default value",
            ),
        }
    }
}

/// The name in a placeholder: what stands before the first `:-`, or all of it.
pub open spec fn placeholder_name(inner: Seq<char>) -> Seq<char> {
    let at = find_pair(inner, ':', '-');
    if at < 0 {
        inner
    } else {
        inner.take(at)
    }
}

/// The default in a placeholder: what stands behind the first `:-`, if there is
/// one.
pub open spec fn placeholder_default(inner: Seq<char>) -> Option<Seq<char>> {
    let at = find_pair(inner, ':', '-');
    if at < 0 {
        None
    } else {
        Some(inner.skip(at + 2))
    }
}

/// What a placeholder stands for: the variable where it is set, else the
/// default where there is one.
pub open spec fn placeholder_value(inner: Seq<char>, env: Map<Seq<char>, Seq<char>>) -> Result<
    Seq<char>,
    ExpandErrorView,
> {
    let name = placeholder_name(inner);
    if name.len() == 0 {
        Err(ExpandErrorView::EmptyName)
    } else if env.dom().contains(name) {
        Ok(env[name])
    } else {
        match placeholder_default(inner) {
            Some(d) => Ok(d),
            None => Err(ExpandErrorView::Unset(name)),
        }
    }
}

/// Where `c` occurs first in `s`, or the length of `s`.
pub open spec fn first_char(s: Seq<char>, c: char) -> nat
    decreases s.len(),
{
    if s.len() == 0 || s[0] == c {
        0
    } else {
        1 + first_char(s.drop_first(), c)
    }
}

/// `s` with each placeholder, `${` up to the next `}`, replaced by what it
/// stands for. What is put in is not looked at again. The first placeholder
/// that stands for nothing decides the error.
pub open spec fn expanded(s: Seq<char>, env: Map<Seq<char>, Seq<char>>) -> Result<
    Seq<char>,
    ExpandErrorView,
>
    decreases s.len(),
{
    if s.len() == 0 {
        Ok(Seq::empty())
    } else if s.len() > 1 && s[0] == '$' && s[1] == '{' {
        let end = first_char(s.skip(2), '}') as int;
        if end >= s.skip(2).len() {
            Err(ExpandErrorView::Unclosed)
        } else {
            match placeholder_value(s.skip(2).take(end), env) {
                Ok(value) => prepended(value, expanded(s.skip(end + 3), env)),
                Err(e) => Err(e),
            }
        }
    } else {
        prepended(seq![s[0]], expanded(s.drop_first(), env))
    }
}

pub open spec fn prepended(head: Seq<char>, tail: Result<Seq<char>, ExpandErrorView>) -> Result<
    Seq<char>,
    ExpandErrorView,
> {
    match tail {
        Ok(t) => Ok(head + t),
        Err(e) => Err(e),
    }
}

/// Finds `a` directly followed by `b` among the characters from `from` to `to`.
fn find_pair_in(chars: &Vec<char>, from: usize, to: usize, a: char, b: char) -> (r: Option<usize>)
    requires
        from <= to <= chars@.len(),
    ensures
        match r {
            Some(i) => from <= i && i + 2 <= to && find_pair(
                chars@.subrange(from as int, to as int),
                a,
                b,
            ) == i - from,
            None => find_pair(chars@.subrange(from as int, to as int), a, b) == -1,
        },
{
    let ghost text = chars@.subrange(from as int, to as int);
    let mut i: usize = from;
    assert(text.skip(0) =~= text);
    while i < to && to - i >= 2
        invariant
            from <= i <= to <= chars@.len(),
            text == chars@.subrange(from as int, to as int),
            find_pair(text, a, b) == if find_pair(text.skip(i - from), a, b) < 0 {
                -1
            } else {
                find_pair(text.skip(i - from), a, b) + (i - from)
            },
        decreases to - i,
    {
        assert(text.skip(i - from)[0] == chars@[i as int]);
        assert(text.skip(i - from)[1] == chars@[i + 1]);
        if chars[i] == a && chars[i + 1] == b {
            return Some(i);
        }
        assert(text.skip(i - from).drop_first() =~= text.skip(i + 1 - from));
        i = i + 1;
    }
    None
}

/// Reads the placeholder whose inside begins at `start`: what it stands for and
/// where the text behind it begins.
fn read_placeholder(chars: &Vec<char>, start: usize, env: &EnvVars) -> (r: Result<
    (String, usize),
    ExpandError,
>)
    requires
        start <= chars@.len(),
    ensures
        ({
            let inside = chars@.skip(start as int);
            let end = first_char(inside, '}') as int;
            match r {
                Ok((value, next)) => {
                    &&& end < inside.len()
                    &&& placeholder_value(inside.take(end), env@) == Ok::<
                        Seq<char>,
                        ExpandErrorView,
                    >(value@)
                    &&& next == start + end + 1
                },
                Err(e) => if end >= inside.len() {
                    e@ == ExpandErrorView::Unclosed
                } else {
                    placeholder_value(inside.take(end), env@) == Err::<
                        Seq<char>,
                        ExpandErrorView,
                    >(e@)
                },
            }
        }),
{
    let mut end: usize = start;
    let ghost inside = chars@.skip(start as int);
    assert(inside.skip(0) =~= inside);
    while end < chars.len() && chars[end] != '}'
        invariant
            start <= end <= chars@.len(),
            inside == chars@.skip(start as int),
            first_char(inside, '}') == (end - start) + first_char(inside.skip(end - start), '}'),
        decreases chars@.len() - end,
    {
        assert(inside.skip(end - start)[0] == chars@[end as int]);
        assert(inside.skip(end - start).drop_first() =~= inside.skip(end + 1 - start));
        end = end + 1;
    }
    if end == chars.len() {
        assert(inside.skip(end - start).len() == 0);
        return Err(ExpandError::Unclosed);
    }
    assert(inside.skip(end - start)[0] == '}');
    let ghost inner = inside.take(end - start);
    assert(inner =~= chars@.subrange(start as int, end as int));
    let pair = find_pair_in(chars, start, end, ':', '-');
    let name_end: usize = match pair {
        Some(at) => at,
        None => end,
    };
    let name = string_of(chars, start, name_end);
    assert(name@ =~= placeholder_name(inner));
    if name_end == start {
        return Err(ExpandError::EmptyName);
    }
    match env.get(name.as_str()) {
        Some(value) => Ok((value, end + 1)),
        None => match pair {
            Some(at) => {
                let default = string_of(chars, at + 2, end);
                assert(default@ =~= inner.skip(at + 2 - start));
                Ok((default, end + 1))
            },
            None => Err(ExpandError::Unset(name)),
        },
    }
}

/// Expands the `${VAR}` and `${VAR:-default}` placeholders in a text.
pub fn expand_env_vars(input: &str, env: &EnvVars) -> (r: Result<String, ExpandError>)
    ensures
        match r {
            Ok(t) => expanded(input@, env@) == Ok::<Seq<char>, ExpandErrorView>(t@),
            Err(e) => expanded(input@, env@) == Err::<Seq<char>, ExpandErrorView>(e@),
        },
{
    let chars: Vec<char> = chars_of(input);
    let ghost s = input@;
    let mut output = String::new();
    let mut i: usize = 0;
    assert(s.skip(0) =~= s);
    assert(prepended(output@, expanded(s, env@)) =~= expanded(s, env@)) by {
        if let Ok(t) = expanded(s, env@) {
            assert(output@ + t =~= t);
        }
    }
    while i < chars.len()
        invariant
            i <= chars@.len(),
            chars@ == s,
            s == input@,
            expanded(s, env@) == prepended(output@, expanded(s.skip(i as int), env@)),
        decreases chars@.len() - i,
    {
        let ghost rest = s.skip(i as int);
        let ghost done = output@;
        assert(rest[0] == chars@[i as int]);
        assert(rest.len() > 1 ==> rest[1] == chars@[i + 1]);
        if chars[i] == '$' && i + 1 < chars.len() && chars[i + 1] == '{' {
            assert(rest.skip(2) =~= s.skip(i + 2));
            match read_placeholder(&chars, i + 2, env) {
                Ok((value, next)) => {
                    output.append(value.as_str());
                    proof {
                        assert(rest.skip(next - i) =~= s.skip(next as int));
                        if let Ok(t) = expanded(s.skip(next as int), env@) {
                            assert(done + (value@ + t) =~= output@ + t);
                        }
                    }
                    i = next;
                },
                Err(e) => {
                    assert(expanded(rest, env@) == Err::<Seq<char>, ExpandErrorView>(e@));
                    return Err(e);
                },
            }
        } else {
            output.push(chars[i]);
            proof {
                assert(rest.drop_first() =~= s.skip(i + 1));
                if let Ok(t) = expanded(s.skip(i + 1), env@) {
                    assert(done + (seq![rest[0]] + t) =~= output@ + t);
                }
            }
            i = i + 1;
        }
    }
    assert(s.skip(i as int) =~= Seq::<char>::empty());
    assert(output@ + Seq::<char>::empty() =~= output@);
    Ok(output)
}

/// A text without `${` is left as it is.
pub proof fn law_plain_text_stays(s: Seq<char>, env: Map<Seq<char>, Seq<char>>)
    requires
        find_pair(s, '$', '{') < 0,
    ensures
        expanded(s, env) == Ok::<Seq<char>, ExpandErrorView>(s),
    decreases s.len(),
{
    if s.len() > 0 {
        if s.len() == 1 {
            assert(s.drop_first() =~= Seq::<char>::empty());
        }
        law_plain_text_stays(s.drop_first(), env);
        assert(seq![s[0]] + s.drop_first() =~= s);
    } else {
        assert(s =~= Seq::<char>::empty());
    }
}

proof fn lemma_first_char_of(s: Seq<char>, c: char, rest: Seq<char>)
    requires
        !s.contains(c),
    ensures
        first_char(s.push(c) + rest, c) == s.len(),
    decreases s.len(),
{
    let all = s.push(c) + rest;
    if s.len() == 0 {
        assert(all[0] == c);
    } else {
        assert(s[0] == all[0]);
        assert(all.drop_first() =~= s.drop_first().push(c) + rest);
        assert forall|i: int| 0 <= i < s.drop_first().len() implies s.drop_first()[i] != c by {
            assert(s[i + 1] == s.drop_first()[i]);
        }
        lemma_first_char_of(s.drop_first(), c, rest);
    }
}

/// A placeholder is replaced by what it stands for, the variable where it is
/// set and else the default; the text before it stays, and the text behind it
/// is expanded in turn.
pub proof fn law_placeholder_is_replaced(
    before: Seq<char>,
    inner: Seq<char>,
    after: Seq<char>,
    env: Map<Seq<char>, Seq<char>>,
)
    requires
        find_pair(before, '$', '{') < 0,
        !inner.contains('}'),
    ensures
        expanded(before + seq!['$', '{'] + inner + seq!['}'] + after, env)
            == match placeholder_value(inner, env) {
            Ok(value) => prepended(before + value, expanded(after, env)),
            Err(e) => Err::<Seq<char>, ExpandErrorView>(e),
        },
    decreases before.len(),
{
    let all = before + seq!['$', '{'] + inner + seq!['}'] + after;
    if before.len() == 0 {
        let inside = all.skip(2);
        assert(inside =~= inner.push('}') + after);
        lemma_first_char_of(inner, '}', after);
        assert(inside.take(inner.len() as int) =~= inner);
        assert(all.skip(inner.len() as int + 3) =~= after);
        assert(before + placeholder_value(inner, env)->Ok_0 =~= placeholder_value(
            inner,
            env,
        )->Ok_0);
    } else {
        let rest = before.drop_first();
        assert(all[0] == before[0]);
        assert(before.len() > 1 ==> all[1] == before[1]);
        assert(before.len() == 1 ==> all[1] == '$');
        assert(all.drop_first() =~= rest + seq!['$', '{'] + inner + seq!['}'] + after);
        law_placeholder_is_replaced(rest, inner, after, env);
        if let Ok(value) = placeholder_value(inner, env) {
            assert(seq![before[0]] + (rest + value) =~= before + value);
            if let Ok(t) = expanded(after, env) {
                assert(seq![before[0]] + ((rest + value) + t) =~= (before + value) + t);
            }
        }
    }
}

/// What each fault means, in plain numbers and texts.
pub proof fn law_what_each_fault_means(c: Config)
    ensures
        has_fault(c, ConfigFault::NoConnections) <==> c.server.max_connections < 1,
        has_fault(c, ConfigFault::NoTurnPublicIp) <==> c.turn.public_ip is None,
        has_fault(c, ConfigFault::BadTurnPublicIp) <==> (c.turn.public_ip matches Some(ip) && (ip.a
            == 0 && ip.b == 0 && ip.c == 0 && ip.d == 0 || ip.a / 16 == 14)),
        !has_fault(c, ConfigFault::PublicIpMismatch) <==> c.turn.public_ip == c.webrtc.public_ip,
        has_fault(c, ConfigFault::NoMediaPort) <==> c.webrtc.udp_port < 1,
        !has_fault(c, ConfigFault::PortsClash) <==> c.turn.port > 0 && c.turn.port
            != c.webrtc.udp_port && c.turn.port != c.server.listen_port,
        has_fault(c, ConfigFault::NoRealm) <==> c.turn.realm@ == Seq::<char>::empty(),
        !has_fault(c, ConfigFault::BadPublicHost) <==> c.turn.public_host@.len() > 0 && forall|i: int|
            #![trigger c.turn.public_host@[i]]
            0 <= i < c.turn.public_host@.len() ==> {
                let n = c.turn.public_host@[i] as int;
                97 <= n <= 122 || 65 <= n <= 90 || 48 <= n <= 57 || n == 46 || n == 45
            },
        !has_fault(c, ConfigFault::BadTtl) <==> c.turn.credential_ttl_secs >= 300
            && c.turn.credential_ttl_secs <= 86400,
        !has_fault(c, ConfigFault::BadRelayRange) <==> c.turn.relay_min_port > 0
            && c.turn.relay_max_port >= c.turn.relay_min_port && (c.webrtc.udp_port
            < c.turn.relay_min_port || c.webrtc.udp_port > c.turn.relay_max_port) && (c.turn.port
            < c.turn.relay_min_port || c.turn.port > c.turn.relay_max_port),
        !has_fault(c, ConfigFault::TlsHalfConfigured) <==> (c.turn.tls_cert is Some <==> c.turn.tls_key
            is Some),
        has_fault(c, ConfigFault::TlsPortClash) <==> c.turn.tls_cert is Some && (c.turn.tls_port < 1
            || c.turn.tls_port == c.turn.port || c.turn.tls_port == c.server.listen_port),
{
    assert(c.turn.realm@.len() == 0 ==> c.turn.realm@ =~= Seq::<char>::empty());
    let h = c.turn.public_host@;
    if is_host(h) {
        assert forall|i: int|
            #![trigger h[i]]
            0 <= i < h.len() implies {
            let n = h[i] as int;
            97 <= n <= 122 || 65 <= n <= 90 || 48 <= n <= 57 || n == 46 || n == 45
        } by {
            assert(is_host_char(h[i]));
        }
    }
}

/// Where a fault stands in the order in which faults are told.
pub open spec fn fault_rank(f: ConfigFault) -> int {
    match f {
        ConfigFault::NoConnections => 0,
        ConfigFault::NoTurnPublicIp => 1,
        ConfigFault::BadTurnPublicIp => 2,
        ConfigFault::PublicIpMismatch => 3,
        ConfigFault::NoMediaPort => 4,
        ConfigFault::PortsClash => 5,
        ConfigFault::NoRealm => 6,
        ConfigFault::BadPublicHost => 7,
        ConfigFault::BadTtl => 8,
        ConfigFault::BadRelayRange => 9,
        ConfigFault::TlsHalfConfigured => 10,
        ConfigFault::TlsPortClash => 11,
    }
}

/// A configuration is valid exactly where it allows connections and, with TURN
/// on, none of the faults is there; with TURN off, nothing of TURN matters.
pub proof fn law_valid_without_faults(c: Config)
    ensures
        is_valid(c) <==> c.server.max_connections > 0 && (c.turn.enabled ==> forall|f: ConfigFault|
            !#[trigger] has_fault(c, f)),
{
    let faults = turn_faults();
    if is_valid(c) && c.turn.enabled {
        assert forall|f: ConfigFault| !#[trigger] has_fault(c, f) by {
            if !(f is NoConnections) {
                assert(faults[fault_rank(f) - 1] == f);
            }
        }
    }
}

/// The fault that is told is there, and is the first: none that comes before it
/// is there, and it is told only where the configuration is not valid.
pub proof fn law_first_fault_is_told(c: Config, f: ConfigFault, g: ConfigFault)
    requires
        is_first_fault(c, f),
    ensures
        has_fault(c, f),
        !is_valid(c),
        f is NoConnections || c.turn.enabled,
        fault_rank(g) < fault_rank(f) ==> !has_fault(c, g),
{
    let faults = turn_faults();
    if !has_fault(c, ConfigFault::NoConnections) {
        let i = choose|i: int|
            #![trigger turn_faults()[i]]
            {
                &&& 0 <= i < turn_faults().len()
                &&& f == turn_faults()[i]
                &&& has_fault(c, f)
                &&& forall|j: int| 0 <= j < i ==> !has_fault(c, #[trigger] turn_faults()[j])
            };
        assert(fault_rank(f) == i + 1);
        if fault_rank(g) < fault_rank(f) && !(g is NoConnections) {
            assert(faults[fault_rank(g) - 1] == g);
        }
    }
}

/// A placeholder with a name, and perhaps a default behind `:-`, is replaced by
/// the variable where it is set and by the default where it is not; without
/// either the text is refused for that name. What stands before stays, and what
/// follows is expanded in turn.
pub proof fn law_variable_or_default_is_put_in(
    before: Seq<char>,
    name: Seq<char>,
    default: Option<Seq<char>>,
    after: Seq<char>,
    env: Map<Seq<char>, Seq<char>>,
)
    requires
        forall|i: int|
            0 <= i < before.len() - 1 ==> !(#[trigger] before[i] == '$' && before[i + 1] == '{'),
        name.len() > 0,
        !name.contains('}'),
        forall|i: int|
            0 <= i < name.len() - 1 ==> !(#[trigger] name[i] == ':' && name[i + 1] == '-'),
        default matches Some(d) ==> !d.contains('}'),
    ensures
        ({
            let inner = match default {
                Some(d) => name + seq![':', '-'] + d,
                None => name,
            };
            let text = before + seq!['$', '{'] + inner + seq!['}'] + after;
            &&& env.dom().contains(name) ==> match expanded(after, env) {
                Ok(t) => expanded(text, env) == Ok::<Seq<char>, ExpandErrorView>(
                    before + env[name] + t,
                ),
                Err(e) => expanded(text, env) == Err::<Seq<char>, ExpandErrorView>(e),
            }
            &&& !env.dom().contains(name) && default is Some ==> match expanded(after, env) {
                Ok(t) => expanded(text, env) == Ok::<Seq<char>, ExpandErrorView>(
                    before + default->0 + t,
                ),
                Err(e) => expanded(text, env) == Err::<Seq<char>, ExpandErrorView>(e),
            }
            &&& !env.dom().contains(name) && default is None ==> expanded(text, env) == Err::<
                Seq<char>,
                ExpandErrorView,
            >(ExpandErrorView::Unset(name))
        }),
{
    law_first_pair_is_found(before, '$', '{');
    let inner = match default {
        Some(d) => name + seq![':', '-'] + d,
        None => name,
    };
    law_first_pair_is_found(inner, ':', '-');
    assert forall|i: int| 0 <= i < inner.len() implies inner[i] != '}' by {
        if i < name.len() {
            assert(inner[i] == name[i]);
        } else if i >= name.len() + 2 {
            assert(inner[i] == default->0[i - name.len() - 2]);
        }
    }
    assert(!inner.contains('}'));
    if let Some(d) = default {
        let at = find_pair(inner, ':', '-');
        assert(inner[name.len() as int] == ':' && inner[name.len() as int + 1] == '-');
        assert(0 <= at <= name.len());
        if at < name.len() {
            assert(inner[at] == name[at]);
            if at + 1 < name.len() {
                assert(inner[at + 1] == name[at + 1]);
            }
            assert(false);
        }
        assert(inner.take(at) =~= name);
        assert(inner.skip(at + 2) =~= d);
    }
    law_placeholder_is_replaced(before, inner, after, env);
}

/// A placeholder without a name is refused.
pub proof fn law_placeholder_needs_a_name(
    before: Seq<char>,
    default: Seq<char>,
    after: Seq<char>,
    env: Map<Seq<char>, Seq<char>>,
)
    requires
        forall|i: int|
            0 <= i < before.len() - 1 ==> !(#[trigger] before[i] == '$' && before[i + 1] == '{'),
        !default.contains('}'),
    ensures
        expanded(before + seq!['$', '{'] + seq!['}'] + after, env) == Err::<
            Seq<char>,
            ExpandErrorView,
        >(ExpandErrorView::EmptyName),
        expanded(before + seq!['$', '{'] + (seq![':', '-'] + default) + seq!['}'] + after, env)
            == Err::<Seq<char>, ExpandErrorView>(ExpandErrorView::EmptyName),
{
    law_first_pair_is_found(before, '$', '{');
    let nothing = Seq::<char>::empty();
    assert(before + seq!['$', '{'] + nothing + seq!['}'] + after =~= before + seq!['$', '{']
        + seq!['}'] + after);
    law_placeholder_is_replaced(before, nothing, after, env);
    let inner = seq![':', '-'] + default;
    assert(inner[0] == ':' && inner[1] == '-');
    assert forall|i: int| 0 <= i < inner.len() implies inner[i] != '}' by {
        if i >= 2 {
            assert(inner[i] == default[i - 2]);
        }
    }
    assert(!inner.contains('}'));
    assert(inner.take(0) =~= nothing);
    law_placeholder_is_replaced(before, inner, after, env);
}

proof fn lemma_no_char(s: Seq<char>, c: char)
    requires
        !s.contains(c),
    ensures
        first_char(s, c) == s.len(),
    decreases s.len(),
{
    if s.len() > 0 {
        assert(s[0] != c);
        assert forall|i: int| 0 <= i < s.drop_first().len() implies s.drop_first()[i] != c by {
            assert(s[i + 1] == s.drop_first()[i]);
        }
        lemma_no_char(s.drop_first(), c);
    }
}

/// A placeholder that is not closed is refused.
pub proof fn law_placeholder_must_be_closed(
    before: Seq<char>,
    inner: Seq<char>,
    env: Map<Seq<char>, Seq<char>>,
)
    requires
        forall|i: int|
            0 <= i < before.len() - 1 ==> !(#[trigger] before[i] == '$' && before[i + 1] == '{'),
        !inner.contains('}'),
    ensures
        expanded(before + seq!['$', '{'] + inner, env) == Err::<Seq<char>, ExpandErrorView>(
            ExpandErrorView::Unclosed,
        ),
    decreases before.len(),
{
    let all = before + seq!['$', '{'] + inner;
    if before.len() == 0 {
        assert(all.skip(2) =~= inner);
        lemma_no_char(inner, '}');
    } else {
        let rest = before.drop_first();
        assert(all[0] == before[0]);
        assert(before.len() > 1 ==> all[1] == before[1]);
        assert(before.len() == 1 ==> all[1] == '$');
        assert(before.len() > 1 ==> !(before[0] == '$' && before[0int + 1] == '{'));
        assert(all.drop_first() =~= rest + seq!['$', '{'] + inner);
        assert forall|i: int| 0 <= i < rest.len() - 1 implies !(#[trigger] rest[i] == '$' && rest[i
            + 1] == '{') by {
            assert(rest[i] == before[i + 1]);
        }
        law_placeholder_must_be_closed(rest, inner, env);
    }
}

/// A text in which no `$` stands directly before a `{` is left as it is.
pub proof fn law_text_without_placeholders_stays(s: Seq<char>, env: Map<Seq<char>, Seq<char>>)
    requires
        forall|i: int| 0 <= i < s.len() - 1 ==> !(#[trigger] s[i] == '$' && s[i + 1] == '{'),
    ensures
        expanded(s, env) == Ok::<Seq<char>, ExpandErrorView>(s),
{
    law_first_pair_is_found(s, '$', '{');
    law_plain_text_stays(s, env);
}

/// An address begins with its host, whatever it is, then has one colon, and ends
/// with the digits of the port, from which the port can be read back.
pub proof fn law_addresses_hold_host_and_port(host: Seq<char>, port: u16)
    ensures
        address(host, port).take(host.len() as int) == host,
        address(host, port)[host.len() as int] == ':',
        integer(address(host, port).skip(host.len() as int + 1)) == Some(port as int),
        address(host, port).skip(host.len() as int + 1) == decimal(port as nat),
{
    law_decimal_reads_back(port as nat);
    assert(address(host, port).take(host.len() as int) =~= host);
    assert(address(host, port).skip(host.len() as int + 1) =~= decimal(port as nat));
}

/// A variable has the value that it was given last, and setting it leaves the
/// others alone.
pub proof fn law_variables_hold_what_was_set(
    env: Map<Seq<char>, Seq<char>>,
    name: Seq<char>,
    value: Seq<char>,
    other: Seq<char>,
)
    ensures
        value_of(with_variable(env, name, value), name) == Some(value),
        other != name ==> value_of(with_variable(env, name, value), other) == value_of(env, other),
        value_of(Map::empty(), name) is None,
{
}

} // verus!
