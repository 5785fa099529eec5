//! ICMP Echo Request parsing and Echo Reply encoding.

use vstd::prelude::*;

use crate::display::{payload_to_string, spec_payload_text, PrettyPayload, PrettyProtocol};
use crate::text::{decimal, push_decimal, push_str};

use crate::bytes::{
    be_u16, be_u16_bytes, len_usize, low_u16, overlay, u16_from_be, u16_to_usize, usize_low_u16,
    write_overlay,
};
use crate::checksum::{calculate, internet_checksum};
use crate::error::{Error, HeaderKind};

verus! {

/// The number of bytes in an ICMP Echo header.
pub const ECHO_HEADER_LEN: u16 = 8;

/// The ICMP type of an Echo Request.
pub const TYPE_ECHO_REQUEST: u8 = 8;

/// The ICMP type of an Echo Reply.
pub const TYPE_ECHO_REPLY: u8 = 0;

/// The ICMP code of Echo Request and Reply.
pub const CODE_ECHO: u8 = 0;

/// An ICMP Echo Request or Reply: its header fields and its payload.
#[derive(Clone, Copy, Debug, PartialEq, Eq)]
pub struct IcmpEchoHandler<'a> {
    /// The ICMP type (the code is always 0 for Echo Request/Reply).
    pub message_type: u8,
    pub identifier: u16,
    pub sequence: u16,
    pub payload: &'a [u8],
}

/// The header of an Echo message with a zero checksum field.
pub open spec fn spec_echo_header(message_type: u8, identifier: u16, sequence: u16) -> Seq<u8> {
    seq![message_type, CODE_ECHO, 0u8, 0u8] + be_u16_bytes(identifier) + be_u16_bytes(sequence)
}

/// Why writing an Echo message with a payload of `payload_len` bytes into a buffer of `len`
/// bytes fails, if it does.
pub open spec fn spec_echo_write_error(payload_len: nat, len: usize) -> Option<Error> {
    if 8 + payload_len > usize::MAX {
        Some(Error::OverflowUsize { left: 8, right: payload_len as usize })
    } else if 8 + payload_len > len {
        Some(Error::OutOfRange { start: 8, end: (8 + payload_len) as usize, len })
    } else if 8 + low_u16(payload_len) > 0xFFFF {
        Some(Error::OverflowU16 { lhs: 8, rhs: low_u16(payload_len) })
    } else {
        None
    }
}

/// What a failed write of an Echo message leaves in `buf`. Nothing is written when the payload
/// does not fit; when it fits but the 16-bit ICMP length overflows, the payload and the header,
/// with a zero checksum field, are already in place.
pub open spec fn spec_echo_write_partial(
    message_type: u8,
    identifier: u16,
    sequence: u16,
    payload: Seq<u8>,
    buf: Seq<u8>,
) -> Seq<u8> {
    if 8 + payload.len() <= buf.len() {
        overlay(
            spec_echo_header(message_type, identifier, sequence) + payload,
            buf,
            (8 + payload.len()) as int,
            0,
            0,
        )
    } else {
        buf
    }
}

/// The bytes written for an Echo message, checksum included. The checksum covers the header
/// and as much of the payload as the 16-bit ICMP length counts.
pub open spec fn spec_echo_encode(message_type: u8, identifier: u16, sequence: u16, payload: Seq<u8>) -> Seq<u8> {
    let raw = spec_echo_header(message_type, identifier, sequence) + payload;
    let c = internet_checksum(raw.take(8 + low_u16(payload.len())));
    raw.update(2, (c / 256) as u8).update(3, (c % 256) as u8)
}

/// The ICMP length reported for an Echo message with `payload_len` bytes of payload: the
/// 16-bit length field keeps only the low bits of the total.
pub open spec fn spec_echo_len(payload_len: nat) -> u16 {
    (8 + low_u16(payload_len)) as u16
}

/// An Echo message that fits in a buffer of `len` bytes encodes to its header and payload, and
/// its reported length counts them exactly.
pub proof fn lemma_echo_len(
    message_type: u8,
    identifier: u16,
    sequence: u16,
    payload: Seq<u8>,
    len: usize,
)
    requires
        spec_echo_write_error(payload.len(), len) is None,
        len <= 0xFFFF,
    ensures
        spec_echo_encode(message_type, identifier, sequence, payload).len() == 8 + payload.len(),
        spec_echo_len(payload.len()) == 8 + payload.len(),
        8 + payload.len() <= len,
{
}

impl<'a> IcmpEchoHandler<'a> {
    /// The fields (type, identifier, sequence number, payload) of the Echo Request in `data`, or
    /// why it is not one.
    pub open spec fn spec_parse_result(data: Seq<u8>) -> Result<(u8, u16, u16, Seq<u8>), Error> {
        if data.len() < 8 {
            Err(Error::TooShort { header: HeaderKind::Icmp, len: len_usize(data) })
        } else if data[0] != TYPE_ECHO_REQUEST || data[1] != CODE_ECHO {
            Err(Error::NotEchoRequest { message_type: data[0], message_code: data[1] })
        } else {
            Ok((TYPE_ECHO_REQUEST, be_u16(data[4], data[5]), be_u16(data[6], data[7]), data.skip(8)))
        }
    }

    /// Parses `data` as an ICMP Echo Request header and payload.
    pub fn parse(data: &'a [u8]) -> (r: Result<Self, Error>)
        ensures
            data@.len() < 8 ==> r == Err::<Self, Error>(
                Error::TooShort { header: HeaderKind::Icmp, len: len_usize(data@) },
            ),
            data@.len() >= 8 && (data@[0] != TYPE_ECHO_REQUEST || data@[1] != CODE_ECHO) ==> r
                == Err::<Self, Error>(
                Error::NotEchoRequest { message_type: data@[0], message_code: data@[1] },
            ),
            data@.len() >= 8 && data@[0] == TYPE_ECHO_REQUEST && data@[1] == CODE_ECHO ==> (r matches Ok(h) && h.message_type == TYPE_ECHO_REQUEST && h.identifier == be_u16(data@[4], data@[5])
                && h.sequence == be_u16(data@[6], data@[7]) && h.payload@ == data@.skip(8)),
    {
        let n = data.len();
        if n < 8 {
            return Err(Error::TooShort { header: HeaderKind::Icmp, len: n });
        }
        let message_type = data[0];
        let message_code = data[1];
        // ICMP Echo Request (ping): type=8, code=0
        if message_type != TYPE_ECHO_REQUEST || message_code != CODE_ECHO {
            return Err(Error::NotEchoRequest { message_type, message_code });
        }
        Ok(
            IcmpEchoHandler {
                message_type,
                identifier: u16_from_be(data[4], data[5]),
                sequence: u16_from_be(data[6], data[7]),
                payload: vstd::slice::slice_subrange(data, 8, n),
            },
        )
    }

    /// Creates an Echo Reply for `self`: same identifier, sequence number and payload.
    pub fn create_reply(&self) -> (r: Self)
        ensures
            r.message_type == TYPE_ECHO_REPLY,
            r.identifier == self.identifier,
            r.sequence == self.sequence,
            r.payload == self.payload,
    {
        IcmpEchoHandler {
            message_type: TYPE_ECHO_REPLY,
            identifier: self.identifier,
            sequence: self.sequence,
            payload: self.payload,
        }
    }

    /// Copies the header and payload of `self` into `buf`, with its checksum, returning the
    /// ICMP length. On failure, the fields written before it stay in `buf` (see
    /// `spec_echo_write_partial`).
    pub fn write_into(&self, buf: &mut [u8]) -> (r: Result<u16, Error>)
        ensures
            match spec_echo_write_error(self.payload@.len(), len_usize(old(buf)@)) {
                Some(e) => r == Err::<u16, Error>(e) && final(buf)@ == spec_echo_write_partial(
                    self.message_type,
                    self.identifier,
                    self.sequence,
                    self.payload@,
                    old(buf)@,
                ),
                None => r == Ok::<u16, Error>(spec_echo_len(self.payload@.len()))
                    && final(buf)@ == spec_echo_encode(
                    self.message_type,
                    self.identifier,
                    self.sequence,
                    self.payload@,
                ) + old(buf)@.skip((8 + self.payload@.len()) as int),
            },
    {
        let len = buf.len();
        let plen = self.payload.len();
        if plen > usize::MAX - 8 {
            return Err(Error::OverflowUsize { left: 8, right: plen });
        }
        if 8 + plen > len {
            return Err(Error::OutOfRange { start: 8, end: 8 + plen, len });
        }
        let id = crate::bytes::u16_to_be_bytes(self.identifier);
        let seq = crate::bytes::u16_to_be_bytes(self.sequence);
        let mut raw: Vec<u8> = Vec::new();
        raw.push(self.message_type);
        raw.push(CODE_ECHO);
        raw.push(0);
        raw.push(0);
        raw.push(id[0]);
        raw.push(id[1]);
        raw.push(seq[0]);
        raw.push(seq[1]);
        let ghost header = raw@;
        assert(header =~= spec_echo_header(self.message_type, self.identifier, self.sequence));
        let mut i: usize = 0;
        while i < plen
            invariant
                plen == self.payload@.len(),
                i <= plen,
                raw@ == header + self.payload@.subrange(0, i as int),
            decreases plen - i,
        {
            raw.push(self.payload[i]);
            i = i + 1;
            assert(raw@ =~= header + self.payload@.subrange(0, i as int));
        }
        assert(self.payload@.subrange(0, plen as int) =~= self.payload@);
        let low = usize_low_u16(plen);
        if low > 0xFFFF - 8 {
            // The payload and the header are written before the length is computed.
            write_overlay(buf, raw.as_slice(), 8 + plen, 0, 0);
            return Err(Error::OverflowU16 { lhs: 8, rhs: low });
        }
        let msg_len: u16 = 8 + low;
        let counted = vstd::slice::slice_subrange(raw.as_slice(), 0, u16_to_usize(msg_len));
        let cksum = calculate(counted);
        let c = crate::bytes::u16_to_be_bytes(cksum);
        raw.set(2, c[0]);
        raw.set(3, c[1]);
        proof {
            assert(raw@ =~= spec_echo_encode(
                self.message_type,
                self.identifier,
                self.sequence,
                self.payload@,
            ));
        }
        crate::tcp::segment::copy_into(buf, 0, raw.as_slice());
        proof {
            assert(final(buf)@ =~= spec_echo_encode(
                self.message_type,
                self.identifier,
                self.sequence,
                self.payload@,
            ) + old(buf)@.skip((8 + self.payload@.len()) as int));
        }
        Ok(msg_len)
    }
}

/// The name of an ICMP Echo message type.
pub open spec fn spec_echo_type_name(t: u8) -> Seq<char> {
    if t == TYPE_ECHO_REQUEST {
        "Echo Request"@
    } else if t == TYPE_ECHO_REPLY {
        "Echo Reply"@
    } else {
        "unknown type"@
    }
}

/// An Echo message as the log shows it.
pub open spec fn spec_echo_text(message_type: u8, identifier: u16, sequence: u16, payload: Seq<u8>) -> Seq<
    char,
> {
    "ICMP | type="@ + decimal(message_type as nat) + " code="@ + decimal(CODE_ECHO as nat) + " ("@
        + spec_echo_type_name(message_type) + ") | identifier="@ + decimal(identifier as nat)
        + " sequence="@ + decimal(sequence as nat) + "\n"@ + spec_payload_text(payload)
}

impl<'a> IcmpEchoHandler<'a> {
    /// The message as the log shows it.
    pub open spec fn spec_text(&self) -> Seq<char> {
        spec_echo_text(self.message_type, self.identifier, self.sequence, self.payload@)
    }

    /// The message as the log shows it: type, code, identifier, sequence number and payload.
    pub fn describe(&self) -> (s: String)
        ensures
            s@ == self.spec_text(),
    {
        let mut s = String::new();
        push_str(&mut s, "ICMP | type=");
        push_decimal(&mut s, self.message_type as u64);
        push_str(&mut s, " code=");
        push_decimal(&mut s, CODE_ECHO as u64);
        push_str(&mut s, " (");
        if self.message_type == TYPE_ECHO_REQUEST {
            push_str(&mut s, "Echo Request");
        } else if self.message_type == TYPE_ECHO_REPLY {
            push_str(&mut s, "Echo Reply");
        } else {
            push_str(&mut s, "unknown type");
        }
        push_str(&mut s, ") | identifier=");
        push_decimal(&mut s, self.identifier as u64);
        push_str(&mut s, " sequence=");
        push_decimal(&mut s, self.sequence as u64);
        push_str(&mut s, "\n");
        let payload = payload_to_string(self.payload);
        s.append(payload.as_str());
        assert(s@ =~= self.spec_text());
        s
    }
}

impl<'a> PrettyProtocol for IcmpEchoHandler<'a> {
    open spec fn payload_bytes(&self) -> Seq<u8> {
        self.payload@
    }

    fn pretty_payload(&self, include_content: bool) -> (p: PrettyPayload<'_>) {
        PrettyPayload { data: self.payload, include_content }
    }
}

/// Parsing the bytes that encoding writes for an Echo Request gives back its identifier,
/// sequence number and payload.
pub proof fn law_echo_request_roundtrip(identifier: u16, sequence: u16, payload: Seq<u8>)
    ensures
        IcmpEchoHandler::spec_parse_result(
            spec_echo_encode(TYPE_ECHO_REQUEST, identifier, sequence, payload),
        ) == Ok::<(u8, u16, u16, Seq<u8>), Error>((TYPE_ECHO_REQUEST, identifier, sequence, payload)),
{
    let data = spec_echo_encode(TYPE_ECHO_REQUEST, identifier, sequence, payload);
    crate::bytes::law_be_u16_roundtrip(identifier);
    crate::bytes::law_be_u16_roundtrip(sequence);
    assert(data.skip(8) =~= payload);
}

} // verus!
