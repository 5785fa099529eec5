//! The errors of the stack, each with its human-readable message.

use vstd::prelude::*;

use crate::protocol::Protocol;
use crate::display::push_char;
use crate::text::{decimal, push_decimal, push_str};

verus! {

/// The header that a too-short packet could not hold.
#[derive(Clone, Copy, Debug, PartialEq, Eq, Structural)]
pub enum HeaderKind {
    Ipv4,
    Icmp,
    Tcp,
    Udp,
}

impl HeaderKind {
    /// The name of the header.
    pub open spec fn spec_name(self) -> Seq<char> {
        match self {
            HeaderKind::Ipv4 => "IPv4"@,
            HeaderKind::Icmp => "ICMP"@,
            HeaderKind::Tcp => "TCP"@,
            HeaderKind::Udp => "UDP"@,
        }
    }

    fn name(self) -> (s: &'static str)
        ensures
            s@ == self.spec_name(),
    {
        match self {
            HeaderKind::Ipv4 => "IPv4",
            HeaderKind::Icmp => "ICMP",
            HeaderKind::Tcp => "TCP",
            HeaderKind::Udp => "UDP",
        }
    }
}

/// A numeric setting of the server, by the environment variable that gives it.
#[derive(Clone, Copy, Debug, PartialEq, Eq, Structural)]
pub enum Setting {
    InitRtoMillis,
    MaxRetransmits,
    GraceSecs,
}

impl Setting {
    /// The name of the environment variable that gives the setting.
    pub open spec fn spec_name(self) -> Seq<char> {
        match self {
            Setting::InitRtoMillis => "TYPENET_INIT_RTO_MILLIS"@,
            Setting::MaxRetransmits => "TYPENET_MAX_RETRANSMITS"@,
            Setting::GraceSecs => "TYPENET_GRACE_SECS"@,
        }
    }

    fn name(self) -> (s: &'static str)
        ensures
            s@ == self.spec_name(),
    {
        match self {
            Setting::InitRtoMillis => "TYPENET_INIT_RTO_MILLIS",
            Setting::MaxRetransmits => "TYPENET_MAX_RETRANSMITS",
            Setting::GraceSecs => "TYPENET_GRACE_SECS",
        }
    }
}

/// Everything that can go wrong while parsing, answering or encoding packets.
#[derive(Clone, Copy, Debug, PartialEq, Eq, Structural)]
pub enum Error {
    /// The data is shorter than the fixed part of a header.
    TooShort { header: HeaderKind, len: usize },
    /// An IPv6 packet arrived where IPv4 was expected.
    Ipv6Packet,
    /// An IP version other than 4 or 6.
    UnexpectedIpVersion { version: u8 },
    /// The IPv4 header length points past the end of the data.
    ShorterThanIhl,
    /// An IPv4 protocol number that the stack does not handle.
    UnsupportedProtocol { number: u8 },
    /// An ICMP message other than an Echo Request.
    NotEchoRequest { message_type: u8, message_code: u8 },
    /// The checksum of a TCP segment or UDP datagram does not verify.
    InvalidChecksum { protocol: Protocol },
    /// A combination of TCP flags that the stack does not handle.
    InvalidTcpFlags { bits: u8 },
    /// More than `u16::MAX` bytes for a TCP payload.
    PayloadTooLong,
    /// A length that does not fit in the integer type it must be converted to.
    IntConversion,
    /// A `u16` addition that would overflow.
    OverflowU16 { lhs: u16, rhs: u16 },
    /// A `usize` addition that would overflow.
    OverflowUsize { left: usize, right: usize },
    /// A range of a buffer that lies outside it.
    OutOfRange { start: usize, end: usize, len: usize },
    /// A position of a buffer that lies outside it.
    IndexOutOfRange { index: usize, len: usize },
    /// A connection may only enter the table in SYN-RECEIVED.
    NotSynReceived,
    /// A connection state may only be created from a SYN-ACK.
    NotSynAck,
    /// SND.UNA does not precede or equal SND.NXT.
    UnaAfterNxt,
    /// No random initial sequence number could be had for a new connection.
    RandomUnavailable,
    /// Adding the grace period to the current time overflowed.
    DeadlineOverflow { millis: u64 },
    /// A log level that is not a digit between 0 and 3.
    InvalidLogLevel,
    /// A numeric setting that is not a whole number in its range.
    InvalidSetting { setting: Setting },
    /// A TUN device name of `.` or `..`.
    TunNameDots,
    /// An empty TUN device name.
    TunNameEmpty,
    /// A TUN device name with no room left for its NUL terminator.
    TunNameTooLong,
    /// A TUN device name with a character that network device names cannot contain.
    TunNameChar { byte: u8 },
}

/// `true` or `false`.
pub open spec fn bool_text(b: bool) -> Seq<char> {
    if b {
        "true"@
    } else {
        "false"@
    }
}

fn push_bool(s: &mut String, b: bool)
    ensures
        final(s)@ == old(s)@ + bool_text(b),
{
    if b {
        push_str(s, "true");
    } else {
        push_str(s, "false");
    }
}

impl Error {
    /// The human-readable message of the error.
    pub open spec fn spec_message(self) -> Seq<char> {
        match self {
            Error::TooShort { header, len } => "Too short for "@ + header.spec_name() + " header ("@
                + decimal(len as nat) + " bytes)"@,
            Error::Ipv6Packet => "IPv6 packet"@,
            Error::UnexpectedIpVersion { version } => "Unexpected IP version "@ + decimal(
                version as nat,
            ),
            Error::ShorterThanIhl => "Data shorter than its IHL"@,
            Error::UnsupportedProtocol { number } => "Unsupported protocol "@ + decimal(
                number as nat,
            ),
            Error::NotEchoRequest { message_type, message_code } => "Not an Echo Request: got type="@
                + decimal(message_type as nat) + ", code="@ + decimal(message_code as nat),
            Error::InvalidChecksum { protocol } => "Invalid "@ + protocol.spec_name()
                + " checksum"@,
            Error::InvalidTcpFlags { bits } => "Invalid TCP flag combination: FIN="@ + bool_text(
                bits & 0x01 != 0,
            ) + " SYN="@ + bool_text(bits & 0x02 != 0) + " RST="@ + bool_text(bits & 0x04 != 0)
                + " ACK="@ + bool_text(bits & 0x10 != 0),
            Error::PayloadTooLong =>
                "Attempted to create a `TcpPayload` from an iterator longer than `u16::MAX`"@,
            Error::IntConversion => "out of range integral type conversion attempted"@,
            Error::OverflowU16 { lhs, rhs } => "Overflowed `u16` adding "@ + decimal(lhs as nat)
                + " and "@ + decimal(rhs as nat),
            Error::OverflowUsize { left, right } => "Overflowed `usize` adding "@ + decimal(
                left as nat,
            ) + " and "@ + decimal(right as nat),
            Error::OutOfRange { start, end, len } => "Index "@ + decimal(start as nat) + ".."@
                + decimal(end as nat) + " out of range on `[u8]` of length "@ + decimal(
                len as nat,
            ),
            Error::IndexOutOfRange { index, len } => "Index "@ + decimal(index as nat)
                + " out of range on `[u8]` of length "@ + decimal(len as nat),
            Error::NotSynReceived =>
                "Attempted to insert a connection with a state other than SYN-RECEIVED"@,
            Error::NotSynAck =>
                "Attempted to create a new `ConnState` when sending something other than SYN-ACK"@,
            Error::RandomUnavailable => "Could not read a random initial sequence number"@,
            Error::UnaAfterNxt =>
                "`drain_transmittable` called with SND.UNA not preceding or equaling SND.NXT"@,
            Error::DeadlineOverflow { millis } => "Overflowed the clock adding "@ + decimal(
                millis as nat,
            ) + " ms to now"@,
            Error::InvalidLogLevel => "Log level must be a digit between 0 and 3 inclusive"@,
            Error::InvalidSetting { setting } => "Invalid value for "@ + setting.spec_name(),
            Error::TunNameDots => "TUN device name cannot be . or .."@,
            Error::TunNameEmpty => "TUN device name cannot be empty"@,
            Error::TunNameTooLong => "TUN device name too long"@,
            Error::TunNameChar { byte } => "TUN device name cannot contain the character '"@
                + seq![byte as char] + "'"@,
        }
    }

    /// The human-readable message of the error.
    pub fn message(&self) -> (s: String)
        ensures
            s@ == self.spec_message(),
    {
        let mut s = String::new();
        match *self {
            Error::TooShort { header, len } => {
                push_str(&mut s, "Too short for ");
                push_str(&mut s, header.name());
                push_str(&mut s, " header (");
                push_decimal(&mut s, len as u64);
                push_str(&mut s, " bytes)");
            },
            Error::Ipv6Packet => push_str(&mut s, "IPv6 packet"),
            Error::UnexpectedIpVersion { version } => {
                push_str(&mut s, "Unexpected IP version ");
                push_decimal(&mut s, version as u64);
            },
            Error::ShorterThanIhl => push_str(&mut s, "Data shorter than its IHL"),
            Error::UnsupportedProtocol { number } => {
                push_str(&mut s, "Unsupported protocol ");
                push_decimal(&mut s, number as u64);
            },
            Error::NotEchoRequest { message_type, message_code } => {
                push_str(&mut s, "Not an Echo Request: got type=");
                push_decimal(&mut s, message_type as u64);
                push_str(&mut s, ", code=");
                push_decimal(&mut s, message_code as u64);
            },
            Error::InvalidChecksum { protocol } => {
                push_str(&mut s, "Invalid ");
                push_str(&mut s, protocol.name());
                push_str(&mut s, " checksum");
            },
            Error::InvalidTcpFlags { bits } => {
                push_str(&mut s, "Invalid TCP flag combination: FIN=");
                push_bool(&mut s, bits & 0x01 != 0);
                push_str(&mut s, " SYN=");
                push_bool(&mut s, bits & 0x02 != 0);
                push_str(&mut s, " RST=");
                push_bool(&mut s, bits & 0x04 != 0);
                push_str(&mut s, " ACK=");
                push_bool(&mut s, bits & 0x10 != 0);
            },
            Error::PayloadTooLong => push_str(
                &mut s,
                "Attempted to create a `TcpPayload` from an iterator longer than `u16::MAX`",
            ),
            Error::IntConversion => push_str(
                &mut s,
                "out of range integral type conversion attempted",
            ),
            Error::OverflowU16 { lhs, rhs } => {
                push_str(&mut s, "Overflowed `u16` adding ");
                push_decimal(&mut s, lhs as u64);
                push_str(&mut s, " and ");
                push_decimal(&mut s, rhs as u64);
            },
            Error::OverflowUsize { left, right } => {
                push_str(&mut s, "Overflowed `usize` adding ");
                push_decimal(&mut s, left as u64);
                push_str(&mut s, " and ");
                push_decimal(&mut s, right as u64);
            },
            Error::OutOfRange { start, end, len } => {
                push_str(&mut s, "Index ");
                push_decimal(&mut s, start as u64);
                push_str(&mut s, "..");
                push_decimal(&mut s, end as u64);
                push_str(&mut s, " out of range on `[u8]` of length ");
                push_decimal(&mut s, len as u64);
            },
            Error::IndexOutOfRange { index, len } => {
                push_str(&mut s, "Index ");
                push_decimal(&mut s, index as u64);
                push_str(&mut s, " out of range on `[u8]` of length ");
                push_decimal(&mut s, len as u64);
            },
            Error::NotSynReceived => push_str(
                &mut s,
                "Attempted to insert a connection with a state other than SYN-RECEIVED",
            ),
            Error::NotSynAck => push_str(
                &mut s,
                "Attempted to create a new `ConnState` when sending something other than SYN-ACK",
            ),
            Error::RandomUnavailable => push_str(
                &mut s,
                "Could not read a random initial sequence number",
            ),
            Error::UnaAfterNxt => push_str(
                &mut s,
                "`drain_transmittable` called with SND.UNA not preceding or equaling SND.NXT",
            ),
            Error::DeadlineOverflow { millis } => {
                push_str(&mut s, "Overflowed the clock adding ");
                push_decimal(&mut s, millis);
                push_str(&mut s, " ms to now");
            },
            Error::InvalidLogLevel => push_str(
                &mut s,
                "Log level must be a digit between 0 and 3 inclusive",
            ),
            Error::InvalidSetting { setting } => {
                push_str(&mut s, "Invalid value for ");
                push_str(&mut s, setting.name());
            },
            Error::TunNameDots => push_str(&mut s, "TUN device name cannot be . or .."),
            Error::TunNameEmpty => push_str(&mut s, "TUN device name cannot be empty"),
            Error::TunNameTooLong => push_str(&mut s, "TUN device name too long"),
            Error::TunNameChar { byte } => {
                push_str(&mut s, "TUN device name cannot contain the character '");
                push_char(&mut s, byte as char);
                push_str(&mut s, "'");
            },
        }
        assert(s@ =~= self.spec_message());
        s
    }
}

} // verus!
