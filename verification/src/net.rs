//! Network addresses.

use vstd::prelude::*;

use crate::text::{decimal, decimal_string, joined};

verus! {

/// An IPv4 address, `a.b.c.d`.
#[derive(Debug, Clone, Copy, PartialEq, Eq, Structural)]
pub struct Ipv4Addr {
    pub a: u8,
    pub b: u8,
    pub c: u8,
    pub d: u8,
}

/// An address and a port, with what else belongs to an IPv6 endpoint.
#[derive(Debug, Clone, Copy, PartialEq, Eq, Structural)]
pub enum SocketAddr {
    V4 { ip: Ipv4Addr, port: u16 },
    V6 { ip: u128, port: u16, flowinfo: u32, scope_id: u32 },
}

impl Ipv4Addr {
    /// The address that stands for this machine, `127.0.0.1`.
    pub open spec fn localhost_spec() -> Ipv4Addr {
        Ipv4Addr { a: 127, b: 0, c: 0, d: 1 }
    }

    /// The address that stands for none, `0.0.0.0`.
    pub open spec fn unspecified_spec() -> Ipv4Addr {
        Ipv4Addr { a: 0, b: 0, c: 0, d: 0 }
    }

    /// The address in the usual dotted form.
    pub open spec fn text(self) -> Seq<char> {
        decimal(self.a as nat) + seq!['.'] + decimal(self.b as nat) + seq!['.'] + decimal(
            self.c as nat,
        ) + seq!['.'] + decimal(self.d as nat)
    }

    pub fn new(a: u8, b: u8, c: u8, d: u8) -> (r: Ipv4Addr)
        ensures
            r == (Ipv4Addr { a, b, c, d }),
    {
        Ipv4Addr { a, b, c, d }
    }

    pub fn localhost() -> (r: Ipv4Addr)
        ensures
            r == Ipv4Addr::localhost_spec(),
    {
        Ipv4Addr { a: 127, b: 0, c: 0, d: 1 }
    }

    pub fn unspecified() -> (r: Ipv4Addr)
        ensures
            r == Ipv4Addr::unspecified_spec(),
    {
        Ipv4Addr { a: 0, b: 0, c: 0, d: 0 }
    }

    pub fn is_unspecified(&self) -> (r: bool)
        ensures
            r == (*self == Ipv4Addr::unspecified_spec()),
    {
        self.a == 0 && self.b == 0 && self.c == 0 && self.d == 0
    }

    /// Whether the address is in `224.0.0.0/4`.
    pub fn is_multicast(&self) -> (r: bool)
        ensures
            r == (224 <= self.a <= 239),
    {
        224 <= self.a && self.a <= 239
    }

    /// Whether the address is in `127.0.0.0/8`.
    pub fn is_loopback(&self) -> (r: bool)
        ensures
            r == (self.a == 127),
    {
        self.a == 127
    }

    /// The address in the usual dotted form.
    pub fn dotted(&self) -> (r: String)
        ensures
            r@ == self.text(),
    {
        let mut r = decimal_string(self.a as u64);
        r.push('.');
        r.append(decimal_string(self.b as u64).as_str());
        r.push('.');
        r.append(decimal_string(self.c as u64).as_str());
        r.push('.');
        r.append(decimal_string(self.d as u64).as_str());
        assert(r@ =~= self.text());
        r
    }
}

// Laws

/// The address that stands for this machine and the one that stands for none are
/// 127.0.0.1 and 0.0.0.0, and an address is written as its four numbers, in
/// order, with dots between them.
pub proof fn law_addresses_in_words(ip: Ipv4Addr)
    ensures
        Ipv4Addr::localhost_spec().a == 127 && Ipv4Addr::localhost_spec().b == 0
            && Ipv4Addr::localhost_spec().c == 0 && Ipv4Addr::localhost_spec().d == 1,
        Ipv4Addr::unspecified_spec().a == 0 && Ipv4Addr::unspecified_spec().b == 0
            && Ipv4Addr::unspecified_spec().c == 0 && Ipv4Addr::unspecified_spec().d == 0,
        ip.text() == joined(
            seq![
                decimal(ip.a as nat),
                decimal(ip.b as nat),
                decimal(ip.c as nat),
                decimal(ip.d as nat),
            ],
            '.',
        ),
{
    let parts = seq![
        decimal(ip.a as nat),
        decimal(ip.b as nat),
        decimal(ip.c as nat),
        decimal(ip.d as nat),
    ];
    reveal_with_fuel(joined, 5);
    assert(ip.text() =~= joined(parts, '.'));
}

} // verus!
