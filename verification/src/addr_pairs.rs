//! Pairs of source and destination endpoints.

use vstd::prelude::*;

use crate::text::{decimal, push_decimal, push_str};

verus! {

/// An IPv4 address, as its four octets in network order.
#[derive(Clone, Copy, Debug, PartialEq, Eq, Structural)]
pub struct Ipv4Addr {
    pub a: u8,
    pub b: u8,
    pub c: u8,
    pub d: u8,
}

impl Ipv4Addr {
    /// The address with octets `a.b.c.d`.
    pub fn new(a: u8, b: u8, c: u8, d: u8) -> (r: Self)
        ensures
            r == (Ipv4Addr { a, b, c, d }),
    {
        Self { a, b, c, d }
    }

    /// The four octets of the address in network order.
    pub open spec fn spec_octets(self) -> Seq<u8> {
        seq![self.a, self.b, self.c, self.d]
    }

    /// The four octets of the address in network order.
    pub fn octets(self) -> (r: [u8; 4])
        ensures
            r@ == self.spec_octets(),
    {
        let r = [self.a, self.b, self.c, self.d];
        assert(r@ =~= self.spec_octets());
        r
    }
}

/// The source and destination IPv4 addresses of a packet.
#[derive(Clone, Copy, Debug, PartialEq, Eq, Structural)]
pub struct Ipv4AddrPair {
    pub src: Ipv4Addr,
    pub dst: Ipv4Addr,
}

impl Ipv4AddrPair {
    /// The pair with source and destination exchanged.
    pub fn swapped(self) -> (r: Self)
        ensures
            r == self.swapped_spec(),
    {
        Self { src: self.dst, dst: self.src }
    }
}

/// The source and destination ports of a TCP segment or UDP datagram.
#[derive(Clone, Copy, Debug, PartialEq, Eq, Structural)]
pub struct PortPair {
    pub src: u16,
    pub dst: u16,
}

impl PortPair {
    /// The pair of ports `src` and `dst`.
    pub fn new(src: u16, dst: u16) -> (r: Self)
        ensures
            r.src == src,
            r.dst == dst,
    {
        Self { src, dst }
    }

    /// The pair with source and destination exchanged.
    pub fn swapped(self) -> (r: Self)
        ensures
            r == self.swapped_spec(),
    {
        Self { src: self.dst, dst: self.src }
    }
}

/// Swapping a pair twice gives it back.
pub proof fn law_swapped_twice(p: PortPair, a: Ipv4AddrPair)
    ensures
        p.swapped_spec().swapped_spec() == p,
        a.swapped_spec().swapped_spec() == a,
{
}

impl PortPair {
    /// The pair with source and destination exchanged.
    pub open spec fn swapped_spec(self) -> Self {
        PortPair { src: self.dst, dst: self.src }
    }
}

impl Ipv4AddrPair {
    /// The pair with source and destination exchanged.
    pub open spec fn swapped_spec(self) -> Self {
        Ipv4AddrPair { src: self.dst, dst: self.src }
    }
}

impl Ipv4Addr {
    /// The address in dotted decimal notation.
    pub open spec fn spec_text(self) -> Seq<char> {
        decimal(self.a as nat) + "."@ + decimal(self.b as nat) + "."@ + decimal(self.c as nat)
            + "."@ + decimal(self.d as nat)
    }

    /// Appends the address in dotted decimal notation to `s`.
    pub fn push_text(self, s: &mut String)
        ensures
            final(s)@ == old(s)@ + self.spec_text(),
    {
        push_decimal(s, self.a as u64);
        push_str(s, ".");
        push_decimal(s, self.b as u64);
        push_str(s, ".");
        push_decimal(s, self.c as u64);
        push_str(s, ".");
        push_decimal(s, self.d as u64);
        assert(final(s)@ =~= old(s)@ + self.spec_text());
    }

    /// The address in dotted decimal notation.
    pub fn describe(self) -> (s: String)
        ensures
            s@ == self.spec_text(),
    {
        let mut s = String::new();
        self.push_text(&mut s);
        assert(s@ =~= self.spec_text());
        s
    }
}

impl PortPair {
    /// The ports as `src -> dst`.
    pub open spec fn spec_text(self) -> Seq<char> {
        decimal(self.src as nat) + " -> "@ + decimal(self.dst as nat)
    }

    /// Appends the ports as `src -> dst` to `s`.
    pub fn push_text(self, s: &mut String)
        ensures
            final(s)@ == old(s)@ + self.spec_text(),
    {
        push_decimal(s, self.src as u64);
        push_str(s, " -> ");
        push_decimal(s, self.dst as u64);
        assert(final(s)@ =~= old(s)@ + self.spec_text());
    }

    /// The ports as `src -> dst`.
    pub fn describe(self) -> (s: String)
        ensures
            s@ == self.spec_text(),
    {
        let mut s = String::new();
        self.push_text(&mut s);
        assert(s@ =~= self.spec_text());
        s
    }
}

} // verus!
