//! Non-empty TCP payloads of at most `u16::MAX` bytes.

use vstd::prelude::*;

use crate::error::Error;

verus! {

/// A payload of bytes guaranteed to have a length in the range `1..=u16::MAX`.
#[derive(Debug, PartialEq, Eq)]
pub struct TcpPayload {
    data: Vec<u8>,
}

impl View for TcpPayload {
    type V = Seq<u8>;

    closed spec fn view(&self) -> Seq<u8> {
        self.data@
    }
}

/// Copies the bytes `data[start..end]` into a new vector.
pub fn copy_range(data: &[u8], start: usize, end: usize) -> (v: Vec<u8>)
    requires
        start <= end <= data@.len(),
    ensures
        v@ == data@.subrange(start as int, end as int),
{
    let mut v: Vec<u8> = Vec::with_capacity(end - start);
    let mut i = start;
    while i < end
        invariant
            start <= i <= end <= data@.len(),
            v@ == data@.subrange(start as int, i as int),
        decreases end - i,
    {
        v.push(data[i]);
        i = i + 1;
        assert(v@ =~= data@.subrange(start as int, i as int));
    }
    v
}

impl TcpPayload {
    #[verifier::type_invariant]
    spec fn inv(self) -> bool {
        1 <= self.data@.len() <= 0xFFFF
    }

    /// The number of bytes in the payload.
    pub fn len(&self) -> (n: u16)
        ensures
            n as int == self@.len(),
            n >= 1,
    {
        proof {
            use_type_invariant(self);
        }
        self.data.len() as u16
    }

    /// The bytes of the payload.
    pub fn as_bytes(&self) -> (b: &[u8])
        ensures
            b@ == self@,
    {
        self.data.as_slice()
    }

    /// Creates a payload holding a copy of `bytes`, returning `Ok(None)` if `bytes` is empty.
    /// Fails if `bytes` is longer than `u16::MAX`.
    pub fn try_from_iter(bytes: &[u8]) -> (r: Result<Option<TcpPayload>, Error>)
        ensures
            bytes@.len() > 0xFFFF ==> r == Err::<Option<TcpPayload>, Error>(Error::PayloadTooLong),
            bytes@.len() == 0 ==> r == Ok::<Option<TcpPayload>, Error>(None),
            1 <= bytes@.len() <= 0xFFFF ==> (r matches Ok(Some(p)) && p@ == bytes@),
    {
        let n = bytes.len();
        if n > 0xFFFF {
            Err(Error::PayloadTooLong)
        } else if n == 0 {
            Ok(None)
        } else {
            let data = copy_range(bytes, 0, n);
            assert(bytes@.subrange(0, n as int) =~= bytes@);
            Ok(Some(TcpPayload { data }))
        }
    }

    /// A payload with the same bytes as `self`.
    pub fn duplicate(&self) -> (r: TcpPayload)
        ensures
            r@ == self@,
    {
        proof {
            use_type_invariant(self);
        }
        let data = copy_range(self.data.as_slice(), 0, self.data.len());
        assert(self.data@.subrange(0, self.data@.len() as int) =~= self.data@);
        TcpPayload { data }
    }

    /// Every payload holds between 1 and `u16::MAX` bytes.
    pub fn len_bounds(&self)
        ensures
            1 <= self@.len() <= 0xFFFF,
    {
        proof {
            use_type_invariant(self);
        }
    }
}

/// The bytes of an optional payload.
pub open spec fn payload_view(p: Option<TcpPayload>) -> Option<Seq<u8>> {
    match p {
        Some(p) => Some(p@),
        None => None,
    }
}

/// The length of an optional payload, zero when absent.
pub open spec fn payload_len(p: Option<Seq<u8>>) -> nat {
    match p {
        Some(s) => s.len(),
        None => 0,
    }
}

/// A copy of an optional payload.
pub fn duplicate_payload(p: &Option<TcpPayload>) -> (r: Option<TcpPayload>)
    ensures
        payload_view(r) == payload_view(*p),
{
    match p {
        Some(p) => Some(p.duplicate()),
        None => None,
    }
}

/// The length of an optional payload, zero when absent.
pub fn len_or_default(p: &Option<TcpPayload>) -> (n: u16)
    ensures
        n as nat == payload_len(payload_view(*p)),
{
    match p {
        Some(p) => p.len(),
        None => 0,
    }
}

} // verus!
