//! Serial number arithmetic over the 32-bit TCP sequence number space (RFC 9293, Section 3.4,
//! and RFC 1982).

use vstd::prelude::*;

verus! {

/// The number of distinct sequence numbers.
pub open spec fn seq_modulus() -> int {
    0x1_0000_0000
}

/// `a - b` in the sequence number space, as a value in `0..2^32`.
pub open spec fn seq_sub(a: u32, b: u32) -> int {
    if a >= b {
        a - b
    } else {
        a - b + seq_modulus()
    }
}

/// `a + d` in the sequence number space, wrapping around.
pub open spec fn seq_add(a: u32, d: u32) -> u32 {
    if a + d >= seq_modulus() {
        (a + d - seq_modulus()) as u32
    } else {
        (a + d) as u32
    }
}

/// Whether `a` precedes `b` in sequence number space: the forward distance from `b` to `a` is at
/// least half the space. Not transitive.
pub open spec fn seq_precedes(a: u32, b: u32) -> bool {
    seq_sub(a, b) >= 0x8000_0000
}

/// Whether `a` precedes or equals `b` in sequence number space.
pub open spec fn seq_precedes_or_eq(a: u32, b: u32) -> bool {
    a == b || seq_precedes(a, b)
}

/// A distance between two points in TCP sequence number space.
#[derive(Clone, Copy, Debug, PartialEq, Eq, Structural)]
pub struct SeqDist {
    pub value: u32,
}

impl SeqDist {
    /// The distance `primitive`.
    pub fn new(primitive: u32) -> (d: Self)
        ensures
            d.value == primitive,
    {
        Self { value: primitive }
    }

    /// The distance as four big-endian bytes.
    pub fn to_be_bytes(self) -> (bytes: [u8; 4])
        ensures
            bytes@ == crate::bytes::be_u32_bytes(self.value),
    {
        crate::bytes::u32_to_be_bytes(self.value)
    }

    /// `self - rhs`, or 0 if `rhs` is larger.
    pub fn saturating_sub(self, rhs: Self) -> (d: Self)
        ensures
            d.value == if self.value >= rhs.value {
                self.value - rhs.value
            } else {
                0
            },
    {
        Self { value: self.value.saturating_sub(rhs.value) }
    }
}

/// A specific point in TCP sequence number space.
#[derive(Clone, Copy, Debug, PartialEq, Eq, Structural)]
pub struct SeqPoint {
    pub value: u32,
}

impl SeqPoint {
    /// The point `primitive`.
    pub fn new(primitive: u32) -> (p: Self)
        ensures
            p.value == primitive,
    {
        Self { value: primitive }
    }

    /// The point as four big-endian bytes.
    pub fn to_be_bytes(self) -> (bytes: [u8; 4])
        ensures
            bytes@ == crate::bytes::be_u32_bytes(self.value),
    {
        crate::bytes::u32_to_be_bytes(self.value)
    }

    /// Whether `self` precedes `other`, accounting for wraparound. Not transitive.
    pub fn precedes(self, other: Self) -> (b: bool)
        ensures
            b == seq_precedes(self.value, other.value),
    {
        self.value.wrapping_sub(other.value) >= 0x8000_0000
    }

    /// Whether `self` precedes or equals `other`, accounting for wraparound. Not transitive.
    pub fn precedes_or_eq(self, other: Self) -> (b: bool)
        ensures
            b == seq_precedes_or_eq(self.value, other.value),
    {
        self.value == other.value || self.precedes(other)
    }

    /// The distance from `rhs` to `self`, or `None` if `rhs` does not precede or equal `self`.
    pub fn distance_since(self, rhs: Self) -> (d: Option<SeqDist>)
        ensures
            d == if seq_precedes_or_eq(rhs.value, self.value) {
                Some(SeqDist { value: seq_sub(self.value, rhs.value) as u32 })
            } else {
                None::<SeqDist>
            },
    {
        if rhs.precedes_or_eq(self) {
            Some(SeqDist { value: self.value.wrapping_sub(rhs.value) })
        } else {
            None
        }
    }

    /// `self + rhs`, wrapping around the sequence number space.
    pub fn add(self, rhs: SeqDist) -> (p: Self)
        ensures
            p.value == seq_add(self.value, rhs.value),
    {
        Self { value: self.value.wrapping_add(rhs.value) }
    }

    /// `self += rhs`, wrapping around the sequence number space.
    pub fn add_assign(&mut self, rhs: SeqDist)
        ensures
            final(self).value == seq_add(old(self).value, rhs.value),
    {
        self.value = self.value.wrapping_add(rhs.value);
    }
}

/// No point precedes itself.
pub proof fn law_precedes_irreflexive(a: u32)
    ensures
        !seq_precedes(a, a),
{
}

/// Two points both precede each other exactly when they are antipodes, half the space apart.
pub proof fn law_precedes_antisymmetric_except_antipodes(a: u32, b: u32)
    ensures
        seq_precedes(a, b) && seq_precedes(b, a) <==> seq_sub(a, b) == 0x8000_0000,
{
}

/// Of two distinct points, at least one precedes the other.
pub proof fn law_precedes_total(a: u32, b: u32)
    requires
        a != b,
    ensures
        seq_precedes(a, b) || seq_precedes(b, a),
{
}

/// Over less than half the space, the circular order agrees with the order of the integers.
pub proof fn law_precedes_agrees_with_linear_order(a: u32, b: u32)
    requires
        a < b,
        b - a < 0x8000_0000,
    ensures
        seq_precedes(a, b),
        !seq_precedes(b, a),
{
}

/// Going forward from `b` by the distance since `b` lands on `a`.
pub proof fn law_distance_since_then_add(a: u32, b: u32)
    requires
        seq_precedes_or_eq(b, a),
    ensures
        seq_add(b, seq_sub(a, b) as u32) == a,
{
}

/// A point advanced by at most half the space is at exactly that distance since the start point.
pub proof fn law_add_then_distance_since(p: u32, d: u32)
    requires
        d <= 0x8000_0000,
    ensures
        seq_precedes_or_eq(p, seq_add(p, d)),
        seq_sub(seq_add(p, d), p) == d,
{
}

} // verus!
