//! Plain value model of an IPv4 address.
//!
//! The engine deliberately stores only IPv4 addresses; resolution results
//! that carry no IPv4 candidate are treated as failures by the resolver
//! logic, never stored here.

use crate::digits::dec_digits;
use crate::digits::dec_u8;
use vstd::prelude::*;
use vstd::string::StringExecFns;

verus! {

/// The dotted-quad rendering of an address, e.g. `"10.0.0.1"`.
pub open spec fn dotted_spec(ip: IpV4) -> Seq<char> {
    dec_digits(ip.a as nat) + seq!['.'] + dec_digits(ip.b as nat) + seq!['.'] + dec_digits(
        ip.c as nat,
    ) + seq!['.'] + dec_digits(ip.d as nat)
}

/// An IPv4 address as its four dotted-quad octets.
#[derive(Clone, Copy, PartialEq, Eq, Structural, Debug)]
pub struct IpV4 {
    pub a: u8,
    pub b: u8,
    pub c: u8,
    pub d: u8,
}

impl IpV4 {
    /// Build an address from its four octets, most significant first.
    pub fn new(a: u8, b: u8, c: u8, d: u8) -> (r: IpV4)
        ensures
            r == (IpV4 { a, b, c, d }),
    {
        IpV4 { a, b, c, d }
    }

    /// The loopback address, substituted when a member's initial
    /// resolution fails.
    pub fn loopback() -> (r: IpV4)
        ensures
            r == (IpV4 { a: 127u8, b: 0u8, c: 0u8, d: 1u8 }),
    {
        IpV4 { a: 127, b: 0, c: 0, d: 1 }
    }

    /// Render the address as a dotted quad.
    pub fn dotted(&self) -> (r: String)
        ensures
            r@ == dotted_spec(*self),
    {
        let mut s = dec_u8(self.a);
        s.append(".");
        let sb = dec_u8(self.b);
        s.append(sb.as_str());
        s.append(".");
        let sc = dec_u8(self.c);
        s.append(sc.as_str());
        s.append(".");
        let sd = dec_u8(self.d);
        s.append(sd.as_str());
        proof {
            reveal_strlit(".");
            assert(s@ =~= dotted_spec(*self));
        }
        s
    }
}

} // verus!
