//! The address of one end of a connection: an IPv4 address and a port.
//!
//! The server listens on an IPv4 address, so both its own address and
//! those of its peers have this form. An address identifies a connection
//! and is written into replies as `a.b.c.d:port`.

use crate::text::{decimal, push_decimal};
use vstd::prelude::*;

verus! {

/// An IPv4 address, octet by octet, and a port.
#[derive(Clone, Copy, Debug, PartialEq, Eq, Structural, Hash)]
pub struct PeerAddr {
    pub a: u8,
    pub b: u8,
    pub c: u8,
    pub d: u8,
    pub port: u16,
}

impl PeerAddr {
    /// The address written as `a.b.c.d:port`, each number in decimal.
    pub open spec fn text(self) -> Seq<char> {
        decimal(self.a as nat) + seq!['.'] + decimal(self.b as nat) + seq!['.'] + decimal(
            self.c as nat,
        ) + seq!['.'] + decimal(self.d as nat) + seq![':'] + decimal(self.port as nat)
    }

    /// The address `a.b.c.d:port`.
    pub fn new(a: u8, b: u8, c: u8, d: u8, port: u16) -> (r: Self)
        ensures
            r == (PeerAddr { a, b, c, d, port }),
    {
        PeerAddr { a, b, c, d, port }
    }

    /// Appends the address, as text, to `out`.
    pub fn push_text(&self, out: &mut String)
        ensures
            final(out)@ == old(out)@ + self.text(),
    {
        proof {
            reveal_strlit(".");
            reveal_strlit(":");
        }
        push_decimal(out, self.a as usize);
        out.append(".");
        push_decimal(out, self.b as usize);
        out.append(".");
        push_decimal(out, self.c as usize);
        out.append(".");
        push_decimal(out, self.d as usize);
        out.append(":");
        push_decimal(out, self.port as usize);
        assert(out@ =~= old(out)@ + self.text());
    }

    /// The address as text.
    pub fn to_text(&self) -> (r: String)
        ensures
            r@ == self.text(),
    {
        let mut r = String::new();
        self.push_text(&mut r);
        assert(r@ =~= self.text());
        r
    }
}

} // verus!
