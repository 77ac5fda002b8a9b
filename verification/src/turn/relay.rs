//! Where TURN may relay to. The relay serves the proxy's own media and nothing
//! else; the public address of the media is mapped to this machine, so that no
//! router has to send packets back to where they come from.

use vstd::prelude::*;

use crate::net::{Ipv4Addr, SocketAddr};

verus! {

/// Why a relay request is refused.
#[derive(Debug, Clone, Copy, PartialEq, Eq, Structural)]
pub enum RelayError {
    UnsupportedAllocation,
    NotMedia,
}

impl RelayError {
    pub open spec fn text(self) -> Seq<char> {
        match self {
            RelayError::UnsupportedAllocation => "unsupported relay address or port"@,
            RelayError::NotMedia => "TURN may relay only to MumDota media"@,
        }
    }

    /// The error in words.
    pub fn message(&self) -> (r: String)
        ensures
            r@ == self.text(),
    {
        match self {
            RelayError::UnsupportedAllocation => "unsupported relay address or port".to_owned(),
            RelayError::NotMedia => "TURN may relay only to MumDota media".to_owned(),
        }
    }
}

/// The ports to relay from, and the media to relay to.
#[derive(Debug, Clone, Copy, PartialEq, Eq, Structural)]
pub struct MediaRelayGenerator {
    pub min_port: u16,
    pub max_port: u16,
    pub public_ip: Ipv4Addr,
    pub media_port: u16,
}

/// A relay to the media.
#[derive(Debug, Clone, Copy, PartialEq, Eq, Structural)]
pub struct MediaRelayConn {
    pub public_ip: Ipv4Addr,
    pub media_port: u16,
}

impl MediaRelayGenerator {
    /// Whether a relay may be had: with IPv4, at a port of the range, or at any
    /// port where `port` is 0.
    pub open spec fn allows(self, ipv4: bool, port: u16) -> bool {
        ipv4 && (port == 0 || self.min_port <= port <= self.max_port)
    }

    /// The relay that a client gets, or why it gets none.
    pub open spec fn allocation(self, ipv4: bool, port: u16) -> Result<MediaRelayConn, RelayError> {
        if self.allows(ipv4, port) {
            Ok(MediaRelayConn { public_ip: self.public_ip, media_port: self.media_port })
        } else {
            Err(RelayError::UnsupportedAllocation)
        }
    }

    /// The relay that a client asks for.
    pub fn allocate_conn(&self, ipv4: bool, port: u16) -> (r: Result<MediaRelayConn, RelayError>)
        ensures
            r == self.allocation(ipv4, port),
    {
        if !ipv4 || (port != 0 && !(self.min_port <= port && port <= self.max_port)) {
            return Err(RelayError::UnsupportedAllocation);
        }
        Ok(MediaRelayConn { public_ip: self.public_ip, media_port: self.media_port })
    }
}

impl MediaRelayConn {
    /// The media as the world sees it.
    pub open spec fn public_media(self) -> SocketAddr {
        SocketAddr::V4 { ip: self.public_ip, port: self.media_port }
    }

    /// The media as this machine sees it.
    pub open spec fn local_media(self) -> SocketAddr {
        SocketAddr::V4 { ip: Ipv4Addr::localhost_spec(), port: self.media_port }
    }

    pub open spec fn target_of(self, target: SocketAddr) -> Result<SocketAddr, RelayError> {
        if target == self.public_media() {
            Ok(self.local_media())
        } else {
            Err(RelayError::NotMedia)
        }
    }

    pub open spec fn source_of(self, from: SocketAddr) -> Option<SocketAddr> {
        if from == self.local_media() {
            Some(self.public_media())
        } else {
            None
        }
    }

    /// Where a packet for `target` really goes.
    pub fn target(&self, target: SocketAddr) -> (r: Result<SocketAddr, RelayError>)
        ensures
            r == self.target_of(target),
    {
        match target {
            SocketAddr::V4 { ip, port } if port == self.media_port && ip == self.public_ip => {
                Ok(SocketAddr::V4 { ip: Ipv4Addr::localhost(), port: self.media_port })
            },
            _ => Err(RelayError::NotMedia),
        }
    }

    /// Where a packet from `from` is said to come from, or `None` where it is
    /// not let through.
    pub fn source(&self, from: SocketAddr) -> (r: Option<SocketAddr>)
        ensures
            r == self.source_of(from),
    {
        match from {
            SocketAddr::V4 { ip, port } if port == self.media_port && ip
                == Ipv4Addr::localhost() => {
                Some(SocketAddr::V4 { ip: self.public_ip, port: self.media_port })
            },
            _ => None,
        }
    }
}

// Laws

/// Whatever is asked for, packets go to the media on this machine and nowhere
/// else, and only the media's answers come back.
pub proof fn law_only_media_is_reached(conn: MediaRelayConn, addr: SocketAddr)
    ensures
        conn.target_of(addr) matches Ok(to) ==> to == conn.local_media(),
        conn.source_of(addr) is Some ==> addr == conn.local_media(),
{
}

/// The answer to a packet comes from the address that the packet was sent to.
pub proof fn law_answers_come_from_the_target(conn: MediaRelayConn, target: SocketAddr)
    requires
        conn.target_of(target) is Ok,
    ensures
        conn.source_of(conn.target_of(target)->Ok_0) == Some(target),
{
}

/// A relay is had exactly with IPv4 and either at a port of the range, both ends
/// of it included, or without a wish for a port; and it is one to the media.
pub proof fn law_relays_are_had_in_the_range(g: MediaRelayGenerator, ipv4: bool, port: u16)
    ensures
        g.allocation(ipv4, port) is Ok <==> ipv4 && (port == 0 || !(port < g.min_port) && !(port
            > g.max_port)),
        g.allocation(ipv4, port) matches Ok(conn) ==> conn.public_ip == g.public_ip
            && conn.media_port == g.media_port,
        g.allocation(ipv4, port) matches Err(e) ==> e is UnsupportedAllocation,
{
}

/// A packet for the public address of the media, at the media's port, goes to
/// 127.0.0.1 at the same port; a packet from there comes back under the public
/// address. A packet for any other address or port is refused, and one from any
/// other is dropped.
pub proof fn law_media_is_mapped_to_this_machine(conn: MediaRelayConn, addr: SocketAddr)
    ensures
        ({
            let public = addr matches SocketAddr::V4 { ip, port } && ip == conn.public_ip && port
                == conn.media_port;
            &&& public ==> (conn.target_of(addr) matches Ok(SocketAddr::V4 { ip, port }) && ip.a
                == 127 && ip.b == 0 && ip.c == 0 && ip.d == 1 && port == conn.media_port)
            &&& !public ==> conn.target_of(addr) == Err::<SocketAddr, _>(RelayError::NotMedia)
        }),
        ({
            let local = addr matches SocketAddr::V4 { ip, port } && ip.a == 127 && ip.b == 0 && ip.c
                == 0 && ip.d == 1 && port == conn.media_port;
            &&& local ==> conn.source_of(addr) == Some(
                SocketAddr::V4 { ip: conn.public_ip, port: conn.media_port },
            )
            &&& !local ==> conn.source_of(addr) is None
        }),
{
}

} // verus!
