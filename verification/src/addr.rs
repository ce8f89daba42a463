//! Socket addresses as plain values.
//!
//! The driver's bookkeeping — the connection table, the blacklist, the
//! request batches — is all keyed by peer addresses.  An address is held
//! here as plain integers (the IP as its canonical integer form, the port
//! as a `u16`) so that every rule about it can be stated and checked.

use vstd::prelude::*;

use crate::text::spec_dec;
use crate::text::spec_hex4;
use crate::text::dec_u32;
use crate::text::hex4_u16;

verus! {

/// The text of an IP address: a dotted quad for v4; for v6, the eight
/// 16-bit groups as four hex digits each, joined by colons.
pub open spec fn spec_ip_text(ip: Ip) -> Seq<char> {
    match ip {
        Ip::V4(b) => spec_dec(b as int / 16777216 % 256) + seq!['.'] + spec_dec(
            b as int / 65536 % 256,
        ) + seq!['.'] + spec_dec(b as int / 256 % 256) + seq!['.'] + spec_dec(b as int % 256),
        Ip::V6(b) => spec_hex4(b as int / 0x1000000000000000000000000000 % 65536) + seq![':']
            + spec_hex4(b as int / 0x1000000000000000000000000 % 65536) + seq![':'] + spec_hex4(
            b as int / 0x100000000000000000000 % 65536,
        ) + seq![':'] + spec_hex4(b as int / 0x10000000000000000 % 65536) + seq![':'] + spec_hex4(
            b as int / 0x1000000000000 % 65536,
        ) + seq![':'] + spec_hex4(b as int / 0x100000000 % 65536) + seq![':'] + spec_hex4(
            b as int / 0x10000 % 65536,
        ) + seq![':'] + spec_hex4(b as int % 65536),
    }
}

/// The text of a socket address: the IP and the port, a v6 IP in
/// brackets.
pub open spec fn spec_addr_text(a: Addr) -> Seq<char> {
    match a.ip {
        Ip::V4(_) => spec_ip_text(a.ip) + seq![':'] + spec_dec(a.port as int),
        Ip::V6(_) => seq!['['] + spec_ip_text(a.ip) + seq![']', ':'] + spec_dec(a.port as int),
    }
}

/// An IP address: a v4 address as its 32-bit form, or a v6 address as its
/// 128-bit form.
#[derive(Debug, Clone, Copy, PartialEq, Eq, Structural)]
pub enum Ip {
    V4(u32),
    V6(u128),
}

/// A socket address: an IP address together with a port.
#[derive(Debug, Clone, Copy, PartialEq, Eq, Structural)]
pub struct Addr {
    pub ip: Ip,
    pub port: u16,
}

impl Addr {
    /// Builds a v4 socket address from the four dotted-quad octets and a port.
    pub fn v4(a: u8, b: u8, c: u8, d: u8, port: u16) -> (r: Addr)
        ensures
            r.ip == (Ip::V4(((a as u32) << 24) | ((b as u32) << 16) | ((c as u32) << 8)
                | (d as u32))),
            r.port == port,
    {
        let ip: u32 = ((a as u32) << 24) | ((b as u32) << 16) | ((c as u32) << 8) | (d as u32);
        Addr { ip: Ip::V4(ip), port }
    }

    /// The IP part alone; the blacklist is keyed by it.
    pub fn ip(&self) -> (r: Ip)
        ensures
            r == self.ip,
    {
        self.ip
    }

    /// Renders the address, character for character as
    /// [`spec_addr_text`] spells it.
    #[verifier::rlimit(60)]
    pub fn describe(&self) -> (r: String)
        ensures
            r@ == spec_addr_text(*self),
    {
        proof {
            reveal_strlit(".");
            reveal_strlit(":");
            reveal_strlit("[");
            reveal_strlit("]:");
        }
        match self.ip {
            Ip::V4(b) => {
                let mut r = dec_u32(b / 16777216 % 256);
                r.append(".");
                r.append(dec_u32(b / 65536 % 256).as_str());
                r.append(".");
                r.append(dec_u32(b / 256 % 256).as_str());
                r.append(".");
                r.append(dec_u32(b % 256).as_str());
                r.append(":");
                r.append(dec_u32(self.port as u32).as_str());
                proof {
                    assert(r@ =~= spec_addr_text(*self));
                }
                r
            },
            Ip::V6(b) => {
                let mut r = String::from_str("[");
                r.append(hex4_u16((b / 0x1000000000000000000000000000 % 65536) as u16).as_str());
                r.append(":");
                r.append(hex4_u16((b / 0x1000000000000000000000000 % 65536) as u16).as_str());
                r.append(":");
                r.append(hex4_u16((b / 0x100000000000000000000 % 65536) as u16).as_str());
                r.append(":");
                r.append(hex4_u16((b / 0x10000000000000000 % 65536) as u16).as_str());
                r.append(":");
                r.append(hex4_u16((b / 0x1000000000000 % 65536) as u16).as_str());
                r.append(":");
                r.append(hex4_u16((b / 0x100000000 % 65536) as u16).as_str());
                r.append(":");
                r.append(hex4_u16((b / 0x10000 % 65536) as u16).as_str());
                r.append(":");
                r.append(hex4_u16((b % 65536) as u16).as_str());
                r.append("]:");
                r.append(dec_u32(self.port as u32).as_str());
                proof {
                    assert(r@ =~= spec_addr_text(*self));
                }
                r
            },
        }
    }
}

} // verus!
