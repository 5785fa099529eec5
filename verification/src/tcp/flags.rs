//! The combinations of TCP control flags that the stack handles.

use vstd::prelude::*;

use crate::error::Error;

verus! {

/// The supported combinations of the FIN, SYN, RST and ACK control bits.
#[derive(Clone, Copy, Debug, PartialEq, Eq, Structural)]
pub enum TcpFlags {
    Syn,
    SynAck,
    Ack,
    FinAck,
    Rst,
    RstAck,
}

/// The FIN control bit.
pub const FIN_BIT: u8 = 0x01;

/// The SYN control bit.
pub const SYN_BIT: u8 = 0x02;

/// The RST control bit.
pub const RST_BIT: u8 = 0x04;

/// The ACK control bit.
pub const ACK_BIT: u8 = 0x10;

/// The bits of the flags byte that the stack considers.
pub const FLAGS_MASK: u8 = 0x17;

impl TcpFlags {
    /// The flags byte of `self`.
    pub open spec fn spec_bits(self) -> u8 {
        match self {
            TcpFlags::Syn => 0x02,
            TcpFlags::SynAck => 0x12,
            TcpFlags::Ack => 0x10,
            TcpFlags::FinAck => 0x11,
            TcpFlags::Rst => 0x04,
            TcpFlags::RstAck => 0x14,
        }
    }

    /// The flags that the masked flags byte `masked` stands for, if supported.
    pub open spec fn spec_from_masked(masked: u8) -> Option<TcpFlags> {
        if masked == 0x02 {
            Some(TcpFlags::Syn)
        } else if masked == 0x10 {
            Some(TcpFlags::Ack)
        } else if masked == 0x04 {
            Some(TcpFlags::Rst)
        } else if masked == 0x12 {
            Some(TcpFlags::SynAck)
        } else if masked == 0x11 {
            Some(TcpFlags::FinAck)
        } else if masked == 0x14 {
            Some(TcpFlags::RstAck)
        } else {
            None
        }
    }

    /// Reads the flags byte of a TCP header, ignoring the bits other than FIN, SYN, RST and ACK.
    pub fn try_from(value: u8) -> (r: Result<TcpFlags, Error>)
        ensures
            r == match TcpFlags::spec_from_masked(value & FLAGS_MASK) {
                Some(f) => Ok::<TcpFlags, Error>(f),
                None => Err(Error::InvalidTcpFlags { bits: value & FLAGS_MASK }),
            },
    {
        let masked = value & FLAGS_MASK;
        if masked == 0x02 {
            Ok(TcpFlags::Syn)
        } else if masked == 0x10 {
            Ok(TcpFlags::Ack)
        } else if masked == 0x04 {
            Ok(TcpFlags::Rst)
        } else if masked == 0x12 {
            Ok(TcpFlags::SynAck)
        } else if masked == 0x11 {
            Ok(TcpFlags::FinAck)
        } else if masked == 0x14 {
            Ok(TcpFlags::RstAck)
        } else {
            Err(Error::InvalidTcpFlags { bits: masked })
        }
    }

    /// The flags byte of `self`.
    pub fn bits(self) -> (b: u8)
        ensures
            b == self.spec_bits(),
    {
        match self {
            TcpFlags::Syn => 0x02,
            TcpFlags::SynAck => 0x12,
            TcpFlags::Ack => 0x10,
            TcpFlags::FinAck => 0x11,
            TcpFlags::Rst => 0x04,
            TcpFlags::RstAck => 0x14,
        }
    }

    /// Whether the flags consume a sequence number (SYN or FIN).
    pub open spec fn spec_consumes_seq(self) -> bool {
        self == TcpFlags::Syn || self == TcpFlags::SynAck || self == TcpFlags::FinAck
    }

    /// The name of the flag combination.
    pub open spec fn spec_name(self) -> Seq<char> {
        match self {
            TcpFlags::Syn => "SYN"@,
            TcpFlags::SynAck => "SYN-ACK"@,
            TcpFlags::Ack => "ACK"@,
            TcpFlags::FinAck => "FIN-ACK"@,
            TcpFlags::Rst => "RST"@,
            TcpFlags::RstAck => "RST-ACK"@,
        }
    }

    /// The name of the flag combination.
    pub fn name(self) -> (s: &'static str)
        ensures
            s@ == self.spec_name(),
    {
        match self {
            TcpFlags::Syn => "SYN",
            TcpFlags::SynAck => "SYN-ACK",
            TcpFlags::Ack => "ACK",
            TcpFlags::FinAck => "FIN-ACK",
            TcpFlags::Rst => "RST",
            TcpFlags::RstAck => "RST-ACK",
        }
    }
}

/// Encoding flags into the header byte and reading the byte back gives the same flags.
pub proof fn law_flags_roundtrip(f: TcpFlags)
    ensures
        TcpFlags::spec_from_masked(f.spec_bits() & FLAGS_MASK) == Some(f),
{
    assert(0x02u8 & 0x17u8 == 0x02u8) by (bit_vector);
    assert(0x12u8 & 0x17u8 == 0x12u8) by (bit_vector);
    assert(0x10u8 & 0x17u8 == 0x10u8) by (bit_vector);
    assert(0x11u8 & 0x17u8 == 0x11u8) by (bit_vector);
    assert(0x04u8 & 0x17u8 == 0x04u8) by (bit_vector);
    assert(0x14u8 & 0x17u8 == 0x14u8) by (bit_vector);
}

} // verus!
