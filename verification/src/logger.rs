//! Logging: what each log level prints about the server and its packets, with a timestamp of the
//! time elapsed since the logger was created. The caller writes the returned text out.

use vstd::prelude::*;

use crate::display::{push_char, spec_pretty_payload, trim, trim_of, PrettyPayload, PrettyProtocol};
use crate::error::Error;
use crate::handler::{spec_handler_parse, spec_handler_payload, spec_handler_text, ProtocolHandler};
use crate::ipv4::{spec_ipv4_parse, Ipv4Header};
use crate::server::{Exit, Outcome};
use crate::text::{decimal, push_decimal, push_str};

verus! {

/// How much the server logs.
#[derive(Clone, Copy, Debug, PartialEq, Eq, PartialOrd, Ord, Structural)]
pub enum LogLevel {
    /// No output at all.
    Silent,
    /// Server startup and shutdown information, but nothing about individual packets.
    ServerInfo,
    /// Minimal indicators for each packet with no details.
    PacketQuiet,
    /// Full details for each packet: its headers and its payload content.
    PacketFull,
}

impl LogLevel {
    /// The number of the level, from 0 (silent) to 3 (full).
    pub open spec fn spec_number(self) -> u8 {
        match self {
            LogLevel::Silent => 0,
            LogLevel::ServerInfo => 1,
            LogLevel::PacketQuiet => 2,
            LogLevel::PacketFull => 3,
        }
    }

    /// The number of the level, from 0 (silent) to 3 (full).
    pub fn number(self) -> (n: u8)
        ensures
            n == self.spec_number(),
    {
        match self {
            LogLevel::Silent => 0,
            LogLevel::ServerInfo => 1,
            LogLevel::PacketQuiet => 2,
            LogLevel::PacketFull => 3,
        }
    }

    /// Whether `self` logs at least as much as `other`.
    pub fn at_least(self, other: LogLevel) -> (b: bool)
        ensures
            b == (self.spec_number() >= other.spec_number()),
    {
        self.number() >= other.number()
    }

    /// The level whose number is the single digit `t`, or an error.
    pub open spec fn spec_from_text(t: Seq<char>) -> Result<LogLevel, Error> {
        if t == seq!['0'] {
            Ok(LogLevel::Silent)
        } else if t == seq!['1'] {
            Ok(LogLevel::ServerInfo)
        } else if t == seq!['2'] {
            Ok(LogLevel::PacketQuiet)
        } else if t == seq!['3'] {
            Ok(LogLevel::PacketFull)
        } else {
            Err(Error::InvalidLogLevel)
        }
    }

    /// The level whose number is the text `t`, a single digit between 0 and 3, or an error.
    pub fn from_digit(t: &str) -> (r: Result<LogLevel, Error>)
        ensures
            r == LogLevel::spec_from_text(t@),
    {
        if t.unicode_len() != 1 {
            return Err(Error::InvalidLogLevel);
        }
        let c = t.get_char(0);
        let r = if c == '0' {
            Ok(LogLevel::Silent)
        } else if c == '1' {
            Ok(LogLevel::ServerInfo)
        } else if c == '2' {
            Ok(LogLevel::PacketQuiet)
        } else if c == '3' {
            Ok(LogLevel::PacketFull)
        } else {
            Err(Error::InvalidLogLevel)
        };
        proof {
            assert(t@ =~= seq![c]);
        }
        r
    }

    /// Parses a log level: a digit between 0 and 3, with surrounding whitespace ignored.
    pub fn from_str(s: &str) -> (r: Result<LogLevel, Error>)
        ensures
            r == LogLevel::spec_from_text(trim_of(s@)),
    {
        LogLevel::from_digit(trim(s))
    }
}

impl Default for LogLevel {
    /// Full packet details and content.
    fn default() -> (r: LogLevel)
        ensures
            r == LogLevel::PacketFull,
    {
        LogLevel::PacketFull
    }
}

/// `n` with at least two digits.
pub open spec fn pad2(n: nat) -> Seq<char> {
    if n < 10 {
        seq!['0'] + decimal(n)
    } else {
        decimal(n)
    }
}

/// `n` with at least three digits.
pub open spec fn pad3(n: nat) -> Seq<char> {
    if n < 10 {
        seq!['0', '0'] + decimal(n)
    } else if n < 100 {
        seq!['0'] + decimal(n)
    } else {
        decimal(n)
    }
}

/// `ms` milliseconds as `HH:MM:SS.mmm`.
pub open spec fn spec_timestamp(ms: nat) -> Seq<char> {
    let secs = ms / 1000;
    let mins = secs / 60;
    pad2(mins / 60) + ":"@ + pad2(mins % 60) + ":"@ + pad2(secs % 60) + "."@ + pad3(ms % 1000)
}

/// Appends `n` with at least two digits.
fn push_pad2(s: &mut String, n: u64)
    ensures
        final(s)@ == old(s)@ + pad2(n as nat),
{
    if n < 10 {
        push_char(s, '0');
    }
    push_decimal(s, n);
    assert(final(s)@ =~= old(s)@ + pad2(n as nat));
}

/// Appends `n` with at least three digits.
fn push_pad3(s: &mut String, n: u64)
    ensures
        final(s)@ == old(s)@ + pad3(n as nat),
{
    if n < 10 {
        push_char(s, '0');
        push_char(s, '0');
    } else if n < 100 {
        push_char(s, '0');
    }
    push_decimal(s, n);
    assert(final(s)@ =~= old(s)@ + pad3(n as nat));
}

/// Appends `ms` milliseconds as `HH:MM:SS.mmm`.
fn push_timestamp(s: &mut String, ms: u64)
    ensures
        final(s)@ == old(s)@ + spec_timestamp(ms as nat),
{
    let secs = ms / 1000;
    let mins = secs / 60;
    push_pad2(s, mins / 60);
    push_str(s, ":");
    push_pad2(s, mins % 60);
    push_str(s, ":");
    push_pad2(s, secs % 60);
    push_str(s, ".");
    push_pad3(s, ms % 1000);
    assert(final(s)@ =~= old(s)@ + spec_timestamp(ms as nat));
}

/// `ms` milliseconds as `HH:MM:SS.mmm`.
pub fn timestamp(ms: u64) -> (s: String)
    ensures
        s@ == spec_timestamp(ms as nat),
{
    let mut s = String::new();
    push_timestamp(&mut s, ms);
    assert(s@ =~= spec_timestamp(ms as nat));
    s
}

/// A line of server information: the timestamp, then `msg`.
pub open spec fn spec_info_line(ms: nat, msg: Seq<char>) -> Seq<char> {
    "["@ + spec_timestamp(ms) + "] "@ + msg + "\n"@
}

/// The divider printed between packets at the packet detail levels.
pub open spec fn spec_divider() -> Seq<char> {
    "\n"@ + Seq::new(80, |i: int| '=') + "\n\n"@
}

/// The details of a packet, or `None` if it does not parse: the timestamp, its IPv4 header, its
/// protocol handler and its payload (with its content if `include_content`).
pub open spec fn spec_packet_details(data: Seq<u8>, include_content: bool, ms: nat) -> Option<Seq<char>> {
    match spec_ipv4_parse(data) {
        Err(_) => None,
        Ok((hdr, payload)) => match spec_handler_parse(payload, hdr.protocol, hdr.ip_pair) {
            Err(_) => None,
            Ok(h) => Some(
                spec_timestamp(ms) + "\n"@ + hdr.spec_text() + "\n"@ + spec_handler_text(h) + "\n"@
                    + spec_pretty_payload(spec_handler_payload(h), include_content) + "\n"@,
            ),
        },
    }
}

/// What the log says about the outcome of a step of the server loop, and whether it goes to
/// the error stream.
pub open spec fn spec_outcome_text(outcome: Outcome) -> Option<(Seq<char>, bool)> {
    match outcome {
        Outcome::Skipped(e) => Some(("Skipping packet: "@ + e.spec_message(), true)),
        Outcome::ReplyFailed(e) => Some(("Error creating reply: "@ + e.spec_message(), true)),
        Outcome::NoReply => Some(("<no reply>"@, false)),
        Outcome::Draining { time_left } => Some(
            ("Draining connections, "@ + decimal(time_left as nat) + "ms left"@, false),
        ),
        Outcome::BeganDraining { .. } => Some(
            ("Shutdown signal received, closing established connections..."@, false),
        ),
        _ => None,
    }
}

/// What the log says when the server loop stops.
pub open spec fn spec_exit_text(exit: Exit) -> Seq<char> {
    match exit {
        Exit::NoConnections => "No established connections, exiting"@,
        Exit::GracePeriodElapsed { remaining } => "Grace period elapsed with "@ + decimal(
            remaining as nat,
        ) + " remaining connection(s), exiting"@,
        Exit::AllClosed => "All connections closed within grace period, exiting"@,
    }
}

/// Decides what to log at a given level.
#[derive(Clone, Copy, Debug, PartialEq, Eq)]
pub struct Logger {
    level: LogLevel,
}

impl Logger {
    /// The level of `self`.
    pub closed spec fn spec_level(self) -> LogLevel {
        self.level
    }

    /// A logger at `level`.
    pub fn new(level: LogLevel) -> (r: Logger)
        ensures
            r.spec_level() == level,
    {
        Logger { level }
    }

    /// The level of `self`.
    pub fn level(&self) -> (l: LogLevel)
        ensures
            l == self.spec_level(),
    {
        self.level
    }

    /// The visual divider between packets, if and how the level prints one: a space at the quiet
    /// level, a line of `=` at the full level.
    pub fn divider(&self) -> (r: Option<String>)
        ensures
            self.spec_level().spec_number() < 2 ==> r is None,
            self.spec_level() == LogLevel::PacketQuiet ==> (r matches Some(s) && s@ == " "@),
            self.spec_level().spec_number() > 2 ==> (r matches Some(s) && s@ == spec_divider()),
    {
        match self.level {
            LogLevel::Silent | LogLevel::ServerInfo => None,
            LogLevel::PacketQuiet => {
                let mut s = String::new();
                push_str(&mut s, " ");
                Some(s)
            },
            LogLevel::PacketFull => {
                let mut s = String::new();
                push_str(&mut s, "\n");
                let ghost start = s@;
                let mut i: usize = 0;
                while i < 80
                    invariant
                        i <= 80,
                        s@ == start + Seq::new(i as nat, |j: int| '='),
                    decreases 80 - i,
                {
                    push_char(&mut s, '=');
                    i = i + 1;
                    assert(s@ =~= start + Seq::new(i as nat, |j: int| '='));
                }
                push_str(&mut s, "\n\n");
                assert(s@ =~= spec_divider());
                Some(s)
            },
        }
    }

    /// A bare newline from the server, if the level prints server information.
    pub fn server_newline(&self) -> (r: Option<String>)
        ensures
            self.spec_level().spec_number() >= 1 ==> (r matches Some(s) && s@ == "\n"@),
            self.spec_level().spec_number() < 1 ==> r is None,
    {
        if self.level.at_least(LogLevel::ServerInfo) {
            let mut s = String::new();
            push_str(&mut s, "\n");
            Some(s)
        } else {
            None
        }
    }

    /// A line of information about the server at `ms` milliseconds since startup, if the level
    /// prints server information.
    pub fn server_info(&self, msg: &str, ms: u64) -> (r: Option<String>)
        ensures
            self.spec_level().spec_number() >= 1 ==> (r matches Some(s) && s@ == spec_info_line(
                ms as nat,
                msg@,
            )),
            self.spec_level().spec_number() < 1 ==> r is None,
    {
        if self.level.at_least(LogLevel::ServerInfo) {
            Some(info_line(msg, ms))
        } else {
            None
        }
    }

    /// The receipt (`is_in`) or transmission of the packet `data` at `ms` milliseconds since
    /// startup, if and how the level prints it: an arrow at the quiet level, the packet's
    /// details and payload content at the full level.
    pub fn packet(&self, is_in: bool, data: &[u8], ms: u64) -> (r: Option<String>)
        ensures
            self.spec_level().spec_number() < 2 ==> r is None,
            self.spec_level() == LogLevel::PacketQuiet ==> (r matches Some(s) && s@ == (if is_in {
                "↓"@
            } else {
                "↑"@
            })),
            self.spec_level().spec_number() > 2 ==> match spec_packet_details(
                data@,
                true,
                ms as nat,
            ) {
                Some(t) => r matches Some(s) && s@ == t,
                None => r is None,
            },
    {
        match self.level {
            LogLevel::Silent | LogLevel::ServerInfo => None,
            LogLevel::PacketQuiet => {
                let mut s = String::new();
                if is_in {
                    push_str(&mut s, "↓");
                } else {
                    push_str(&mut s, "↑");
                }
                Some(s)
            },
            LogLevel::PacketFull => {
                let (header, payload) = match Ipv4Header::parse(data) {
                    Ok(p) => p,
                    Err(_) => return None,
                };
                let handler = match ProtocolHandler::parse(payload, header.protocol, header.ip_pair) {
                    Ok(h) => h,
                    Err(_) => return None,
                };
                let include_content = true;
                let mut s = String::new();
                push_timestamp(&mut s, ms);
                push_str(&mut s, "\n");
                s.append(header.describe().as_str());
                push_str(&mut s, "\n");
                s.append(handler.describe().as_str());
                push_str(&mut s, "\n");
                let pretty: PrettyPayload = handler.pretty_payload(include_content);
                s.append(pretty.describe().as_str());
                push_str(&mut s, "\n");
                proof {
                    assert(s@ =~= spec_packet_details(data@, include_content, ms as nat)->0);
                }
                Some(s)
            },
        }
    }

    /// A line of packet-related information, if the level prints packet details.
    pub fn pkt_extra(&self, msg: &str) -> (r: Option<String>)
        ensures
            self.spec_level().spec_number() >= 3 ==> (r matches Some(s) && s@ == msg@ + "\n"@),
            self.spec_level().spec_number() < 3 ==> r is None,
    {
        if self.level.at_least(LogLevel::PacketFull) {
            let mut s = String::new();
            push_str(&mut s, msg);
            push_str(&mut s, "\n");
            Some(s)
        } else {
            None
        }
    }

    /// A line about an error handling a packet at `ms` milliseconds since startup, for the error
    /// stream, if the level prints packet details.
    pub fn pkt_err(&self, msg: &str, ms: u64) -> (r: Option<String>)
        ensures
            self.spec_level().spec_number() >= 3 ==> (r matches Some(s) && s@ == spec_info_line(
                ms as nat,
                msg@,
            )),
            self.spec_level().spec_number() < 3 ==> r is None,
    {
        if self.level.at_least(LogLevel::PacketFull) {
            Some(info_line(msg, ms))
        } else {
            None
        }
    }
}

/// A line with the timestamp of `ms` and `msg`.
fn info_line(msg: &str, ms: u64) -> (s: String)
    ensures
        s@ == spec_info_line(ms as nat, msg@),
{
    let mut s = String::new();
    push_str(&mut s, "[");
    push_timestamp(&mut s, ms);
    push_str(&mut s, "] ");
    push_str(&mut s, msg);
    push_str(&mut s, "\n");
    assert(s@ =~= spec_info_line(ms as nat, msg@));
    s
}

/// What the log says about the outcome of a step of the server loop, if anything, and whether
/// it goes to the error stream.
pub fn outcome_text(outcome: Outcome) -> (r: Option<(String, bool)>)
    ensures
        match spec_outcome_text(outcome) {
            Some((t, err)) => r matches Some((s, e)) && s@ == t && e == err,
            None => r is None,
        },
{
    let mut s = String::new();
    match outcome {
        Outcome::Skipped(e) => {
            push_str(&mut s, "Skipping packet: ");
            s.append(e.message().as_str());
            Some((s, true))
        },
        Outcome::ReplyFailed(e) => {
            push_str(&mut s, "Error creating reply: ");
            s.append(e.message().as_str());
            Some((s, true))
        },
        Outcome::NoReply => {
            push_str(&mut s, "<no reply>");
            Some((s, false))
        },
        Outcome::Draining { time_left } => {
            push_str(&mut s, "Draining connections, ");
            push_decimal(&mut s, time_left);
            push_str(&mut s, "ms left");
            Some((s, false))
        },
        Outcome::BeganDraining { .. } => {
            push_str(&mut s, "Shutdown signal received, closing established connections...");
            Some((s, false))
        },
        _ => None,
    }
}

/// What the log says when the server loop stops.
pub fn exit_text(exit: Exit) -> (s: String)
    ensures
        s@ == spec_exit_text(exit),
{
    let mut s = String::new();
    match exit {
        Exit::NoConnections => push_str(&mut s, "No established connections, exiting"),
        Exit::GracePeriodElapsed { remaining } => {
            push_str(&mut s, "Grace period elapsed with ");
            push_decimal(&mut s, remaining as u64);
            push_str(&mut s, " remaining connection(s), exiting");
        },
        Exit::AllClosed => push_str(&mut s, "All connections closed within grace period, exiting"),
    }
    s
}

} // verus!
