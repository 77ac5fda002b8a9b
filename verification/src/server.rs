//! The HTTP side: who may open a WebSocket, and what probes are told.

use vstd::prelude::*;

use crate::config::{Config, ServerConfig};
use crate::slots::Slots;

verus! {

/// The longest WebSocket message and frame, in bytes.
pub const MAX_MESSAGE_BYTES: usize = 131072;

/// How long the Mumble server has to answer a probe, in seconds.
pub const PROBE_SECS: u64 = 2;

/// What a request for a WebSocket is answered.
#[derive(Debug, Clone, Copy, PartialEq, Eq, Structural)]
pub enum Upgrade {
    /// The page that asks may not.
    Forbidden,
    /// All places are taken.
    Full,
    /// The WebSocket is opened and has taken a place.
    Accept,
}

impl Upgrade {
    /// The HTTP status: 403, 503, or 101 to switch protocols.
    pub fn status(&self) -> (r: u16)
        ensures
            r == match *self {
                Upgrade::Forbidden => 403u16,
                Upgrade::Full => 503u16,
                Upgrade::Accept => 101u16,
            },
    {
        match self {
            Upgrade::Forbidden => 403,
            Upgrade::Full => 503,
            Upgrade::Accept => 101,
        }
    }
}

/// Whether a page from `origin` may open a WebSocket: where no origins are
/// listed, or the request names none, every page may.
pub open spec fn is_allowed_origin(allowed: Seq<String>, origin: Option<Seq<u8>>) -> bool {
    ||| allowed.len() == 0
    ||| origin is None
    ||| exists|i: int|
        0 <= i < allowed.len() && vstd::utf8::encode_utf8((#[trigger] allowed[i])@) == origin->0
}

pub open spec fn opt_bytes(b: Option<&[u8]>) -> Option<Seq<u8>> {
    match b {
        Some(b) => Some(b@),
        None => None,
    }
}

fn same_bytes(a: &[u8], b: &[u8]) -> (r: bool)
    ensures
        r == (a@ == b@),
{
    if a.len() != b.len() {
        return false;
    }
    let mut i: usize = 0;
    while i < a.len()
        invariant
            i <= a@.len() == b@.len(),
            forall|k: int| 0 <= k < i ==> a@[k] == b@[k],
        decreases a@.len() - i,
    {
        if a[i] != b[i] {
            return false;
        }
        i = i + 1;
    }
    assert(a@ =~= b@);
    true
}

/// Whether a page from `origin` may open a WebSocket.
pub fn allows_origin(config: &ServerConfig, origin: Option<&[u8]>) -> (r: bool)
    ensures
        r == is_allowed_origin(config.allowed_origins@, opt_bytes(origin)),
{
    if config.allowed_origins.len() == 0 {
        return true;
    }
    let given: &[u8] = match origin {
        Some(o) => o,
        None => return true,
    };
    let mut i: usize = 0;
    while i < config.allowed_origins.len()
        invariant
            i <= config.allowed_origins@.len(),
            opt_bytes(origin) == Some(given@),
            forall|k: int|
                0 <= k < i ==> vstd::utf8::encode_utf8((#[trigger] config.allowed_origins@[k])@)
                    != given@,
        decreases config.allowed_origins@.len() - i,
    {
        if same_bytes(config.allowed_origins[i].as_str().as_bytes(), given) {
            assert(vstd::utf8::encode_utf8(config.allowed_origins@[i as int]@) == given@);
            return true;
        }
        i = i + 1;
    }
    false
}

/// What a request for a WebSocket is answered where `taken` of `max` places are
/// taken; `allowed` tells whether the page may open one.
pub open spec fn upgrade_for(allowed: bool, taken: nat, max: nat) -> Upgrade {
    if !allowed {
        Upgrade::Forbidden
    } else if taken == max {
        Upgrade::Full
    } else {
        Upgrade::Accept
    }
}

/// Decides on a request for a WebSocket. The origin is looked at before a place
/// is taken.
pub fn ws_upgrade(config: &ServerConfig, origin: Option<&[u8]>, slots: &mut Slots) -> (r: Upgrade)
    requires
        old(slots).wf(),
    ensures
        final(slots).wf(),
        final(slots).max_spec() == old(slots).max_spec(),
        r == upgrade_for(
            is_allowed_origin(config.allowed_origins@, opt_bytes(origin)),
            old(slots).taken_spec(),
            old(slots).max_spec(),
        ),
        final(slots).taken_spec() == old(slots).taken_spec() + if r == Upgrade::Accept {
            1nat
        } else {
            0nat
        },
{
    if !allows_origin(config, origin) {
        return Upgrade::Forbidden;
    }
    if slots.try_acquire() {
        Upgrade::Accept
    } else {
        Upgrade::Full
    }
}

/// What the health probe is told.
pub fn health_check() -> (r: &'static str)
    ensures
        r@ == "ok"@,
{
    "ok"
}

/// What the readiness probe is told.
#[derive(Debug, Clone, Copy, PartialEq, Eq, Structural)]
pub struct Readiness {
    pub status: u16,
    pub upstream_tcp_reachable: bool,
    pub sessions: usize,
    pub builtin_turn: bool,
    pub media_udp_port: u16,
}

/// What the readiness probe is told.
pub open spec fn readiness_of(config: Config, reachable: bool, sessions: usize) -> Readiness {
    Readiness {
        status: if reachable {
            200
        } else {
            503
        },
        upstream_tcp_reachable: reachable,
        sessions,
        builtin_turn: config.turn.enabled,
        media_udp_port: config.webrtc.udp_port,
    }
}

/// The proxy is ready, 200, where the Mumble server can be reached; else 503.
pub fn readiness(config: &Config, reachable: bool, sessions: usize) -> (r: Readiness)
    ensures
        r == readiness_of(*config, reachable, sessions),
{
    let status: u16 = if reachable {
        200
    } else {
        503
    };
    Readiness {
        status,
        upstream_tcp_reachable: reachable,
        sessions,
        builtin_turn: config.turn.enabled,
        media_udp_port: config.webrtc.udp_port,
    }
}

// Laws

/// A page whose origin is listed may open a WebSocket, and where a list is
/// given, a page that names another origin may not.
pub proof fn law_listed_origins_only(allowed: Seq<String>, i: int, origin: Seq<u8>)
    requires
        0 <= i < allowed.len(),
    ensures
        is_allowed_origin(allowed, Some(vstd::utf8::encode_utf8(allowed[i]@))),
        (forall|k: int|
            0 <= k < allowed.len() ==> vstd::utf8::encode_utf8((#[trigger] allowed[k])@) != origin)
            ==> !is_allowed_origin(allowed, Some(origin)),
{
}

/// Where no origins are listed every page may open a WebSocket, and so may
/// whoever names no origin, whatever is listed.
pub proof fn law_no_origin_is_no_obstacle(allowed: Seq<String>, origin: Option<Seq<u8>>)
    ensures
        allowed.len() == 0 ==> is_allowed_origin(allowed, origin),
        is_allowed_origin(allowed, None),
{
}

/// A page that may open a WebSocket gets one as long as a place is free, and is
/// told that there is none only where all are taken; a page that may not is
/// turned away in any case.
pub proof fn law_upgrade_takes_a_free_place(allowed: bool, taken: nat, max: nat)
    requires
        taken <= max,
    ensures
        upgrade_for(allowed, taken, max) is Accept <==> allowed && taken < max,
        upgrade_for(allowed, taken, max) is Full <==> allowed && taken >= max,
        upgrade_for(allowed, taken, max) is Forbidden <==> !allowed,
{
}

/// The proxy is ready exactly where the Mumble server can be reached, however
/// many sessions there are; what else the probe is told is as it is.
pub proof fn law_ready_where_mumble_is_reached(config: Config, reachable: bool, sessions: usize)
    ensures
        readiness_of(config, reachable, sessions).status == 200 <==> reachable,
        readiness_of(config, reachable, sessions).status == 503 <==> !reachable,
        readiness_of(config, reachable, sessions).upstream_tcp_reachable <==> reachable,
        readiness_of(config, reachable, sessions).sessions == sessions,
        readiness_of(config, reachable, sessions).builtin_turn <==> config.turn.enabled,
        readiness_of(config, reachable, sessions).media_udp_port == config.webrtc.udp_port,
{
}

} // verus!
