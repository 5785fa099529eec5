//! Big-endian encoding and decoding of integers.

use vstd::prelude::*;

verus! {

/// The two big-endian bytes of `v`.
pub open spec fn be_u16_bytes(v: u16) -> Seq<u8> {
    seq![(v / 256) as u8, (v % 256) as u8]
}

/// The four big-endian bytes of `v`.
pub open spec fn be_u32_bytes(v: u32) -> Seq<u8> {
    seq![
        (v / 0x100_0000) as u8,
        (v / 0x1_0000 % 256) as u8,
        (v / 256 % 256) as u8,
        (v % 256) as u8,
    ]
}

/// The `u16` whose big-endian bytes are `hi`, `lo`.
pub open spec fn be_u16(hi: u8, lo: u8) -> u16 {
    (hi as int * 256 + lo as int) as u16
}

/// The `u32` whose big-endian bytes are `b0`..`b3`.
pub open spec fn be_u32(b0: u8, b1: u8, b2: u8, b3: u8) -> u32 {
    (b0 as int * 0x100_0000 + b1 as int * 0x1_0000 + b2 as int * 256 + b3 as int) as u32
}

/// The two big-endian bytes of `v`.
pub fn u16_to_be_bytes(v: u16) -> (bytes: [u8; 2])
    ensures
        bytes@ == be_u16_bytes(v),
{
    let bytes = [(v / 256) as u8, (v % 256) as u8];
    assert(bytes@ =~= be_u16_bytes(v));
    bytes
}

/// The four big-endian bytes of `v`.
pub fn u32_to_be_bytes(v: u32) -> (bytes: [u8; 4])
    ensures
        bytes@ == be_u32_bytes(v),
{
    let bytes = [
        (v / 0x100_0000) as u8,
        (v / 0x1_0000 % 256) as u8,
        (v / 256 % 256) as u8,
        (v % 256) as u8,
    ];
    assert(bytes@ =~= be_u32_bytes(v));
    bytes
}

/// The `u16` whose big-endian bytes are `hi`, `lo`.
pub fn u16_from_be(hi: u8, lo: u8) -> (v: u16)
    ensures
        v == be_u16(hi, lo),
{
    hi as u16 * 256 + lo as u16
}

/// The `u32` whose big-endian bytes are `b0`..`b3`.
pub fn u32_from_be(b0: u8, b1: u8, b2: u8, b3: u8) -> (v: u32)
    ensures
        v == be_u32(b0, b1, b2, b3),
{
    b0 as u32 * 0x100_0000 + b1 as u32 * 0x1_0000 + b2 as u32 * 256 + b3 as u32
}

/// Decoding the big-endian bytes of a `u16` gives it back.
pub proof fn law_be_u16_roundtrip(v: u16)
    ensures
        be_u16(be_u16_bytes(v)[0], be_u16_bytes(v)[1]) == v,
{
}

/// Decoding the big-endian bytes of a `u32` gives it back.
pub proof fn law_be_u32_roundtrip(v: u32)
    ensures
        be_u32(be_u32_bytes(v)[0], be_u32_bytes(v)[1], be_u32_bytes(v)[2], be_u32_bytes(v)[3])
            == v,
{
}

} // verus!

verus! {

/// The length of `s` as a `usize`.
pub open spec fn len_usize(s: Seq<u8>) -> usize {
    s.len() as usize
}

/// The low 16 bits of `n`.
pub open spec fn low_u16(n: nat) -> u16 {
    (n % 0x1_0000) as u16
}

/// The low 16 bits of `n`, as a cast to `u16` keeps them.
pub fn usize_low_u16(n: usize) -> (r: u16)
    ensures
        r == low_u16(n as nat),
{
    (n % 0x1_0000) as u16
}

/// `n` as a `usize`.
pub fn u16_to_usize(n: u16) -> (r: usize)
    ensures
        r == n,
{
    n as usize
}

/// The length of `s` as a `u16`.
pub open spec fn seq_len_u16(s: Seq<u8>) -> u16 {
    s.len() as u16
}

/// `buf` with its first bytes replaced by `prefix`.
pub open spec fn overwrite_prefix(prefix: Seq<u8>, buf: Seq<u8>) -> Seq<u8> {
    prefix + buf.skip(prefix.len() as int)
}

/// `old` with the bytes at positions `0..n` outside `hole_start..hole_end` taken from `new`: what
/// a writer leaves that stops after writing some fields of `new` and skipping the field at
/// `hole_start..hole_end`.
pub open spec fn overlay(new: Seq<u8>, old: Seq<u8>, n: int, hole_start: int, hole_end: int) -> Seq<u8> {
    Seq::new(
        old.len(),
        |j: int|
            if j < n && !(hole_start <= j < hole_end) {
                new[j]
            } else {
                old[j]
            },
    )
}

/// Copies the bytes of `src` at positions `0..n` outside `hole_start..hole_end` into `buf`.
pub fn write_overlay(buf: &mut [u8], src: &[u8], n: usize, hole_start: usize, hole_end: usize)
    requires
        n <= src@.len(),
        n <= old(buf)@.len(),
    ensures
        final(buf)@ == overlay(src@, old(buf)@, n as int, hole_start as int, hole_end as int),
{
    let mut i: usize = 0;
    while i < n
        invariant
            i <= n,
            n <= src@.len(),
            buf@.len() == old(buf)@.len(),
            n <= buf@.len(),
            forall|j: int|
                0 <= j < buf@.len() ==> #[trigger] buf@[j] == (if j < i && !(hole_start <= j
                    < hole_end) {
                    src@[j]
                } else {
                    old(buf)@[j]
                }),
        decreases n - i,
    {
        if !(hole_start <= i && i < hole_end) {
            buf[i] = src[i];
        }
        i = i + 1;
    }
    assert(buf@ =~= overlay(src@, old(buf)@, n as int, hole_start as int, hole_end as int));
}

} // verus!
