//! The settings of the server.

use vstd::prelude::*;

use crate::error::{Error, Setting};
use crate::display::trim_of;
use crate::logger::LogLevel;
use crate::text::push_str;

verus! {

/// The settings of the server. Times are in milliseconds.
#[derive(Debug)]
pub struct Config {
    /// The name of the TUN device to attach to.
    pub tun_name: String,
    /// The amount of time to wait for established TCP connections to finish closing after a
    /// shutdown signal before exiting unconditionally.
    pub grace_period: u64,
    /// The initial retransmission timeout, i.e. how long to wait before retransmitting an unacked
    /// TCP segment the first time before exponential backoff.
    pub initial_rto: u64,
    /// The number of times to retransmit an unacked TCP segment before giving up and dropping the
    /// connection.
    pub max_retransmits: u8,
    /// How much the server logs.
    pub log_level: LogLevel,
}

/// The name of the TUN device used when none is configured.
pub open spec fn default_tun_name() -> Seq<char> {
    "tun0"@
}

/// Whether `c` is an ASCII digit.
pub open spec fn is_digit(c: char) -> bool {
    48 <= (c as u32) <= 57
}

/// The number that the ASCII digits `s` write in decimal.
pub open spec fn digits_value(s: Seq<char>) -> nat
    decreases s.len(),
{
    if s.len() == 0 {
        0
    } else {
        digits_value(s.drop_last()) * 10 + ((s.last() as u32) - 48) as nat
    }
}

/// Whether every character of `s` is an ASCII digit.
pub open spec fn all_digits(s: Seq<char>) -> bool {
    forall|i: int| 0 <= i < s.len() ==> is_digit(#[trigger] s[i])
}

/// `s` without a leading `+`, if it has one.
pub open spec fn without_plus(s: Seq<char>) -> Seq<char> {
    if s.len() > 0 && s[0] == '+' {
        s.drop_first()
    } else {
        s
    }
}

/// The unsigned number written in decimal in `s` as Rust's integer parsing reads it: an optional
/// `+`, then one or more ASCII digits, nothing else.
pub open spec fn spec_decimal(s: Seq<char>) -> Option<nat> {
    let d = without_plus(s);
    if d.len() > 0 && all_digits(d) {
        Some(digits_value(d))
    } else {
        None
    }
}

/// The decimal number in `s` if it is at most `max`.
pub open spec fn spec_decimal_up_to(s: Seq<char>, max: nat) -> Option<nat> {
    match spec_decimal(s) {
        Some(n) => if n <= max {
            Some(n)
        } else {
            None
        },
        None => None,
    }
}

/// Parses the decimal number in `s` (see `spec_decimal`), if it fits in a `u64`.
pub fn parse_u64(s: &str) -> (r: Option<u64>)
    ensures
        r == match spec_decimal_up_to(s@, u64::MAX as nat) {
            Some(n) => Some(n as u64),
            None => None::<u64>,
        },
{
    let n = s.unicode_len();
    let start: usize = if n > 0 && s.get_char(0) == '+' {
        1
    } else {
        0
    };
    let ghost d = without_plus(s@);
    if start >= n {
        return None;
    }
    // `None` once the digits so far are too large for a `u64`
    let mut acc: Option<u64> = Some(0);
    let mut i: usize = start;
    while i < n
        invariant
            n == s@.len(),
            start <= i <= n,
            d == s@.subrange(start as int, n as int),
            d == without_plus(s@),
            forall|j: int| 0 <= j < i - start ==> is_digit(#[trigger] d[j]),
            acc == (if digits_value(d.take(i - start)) <= u64::MAX {
                Some(digits_value(d.take(i - start)) as u64)
            } else {
                None::<u64>
            }),
        decreases n - i,
    {
        let c = s.get_char(i);
        let code = c as u32;
        if !(48 <= code && code <= 57) {
            proof {
                assert(d[i - start] == c);
                assert(!is_digit(d[i - start]));
                assert(0 <= i - start < d.len());
                assert(!all_digits(d));
            }
            return None;
        }
        let digit: u64 = (code - 48) as u64;
        proof {
            assert(d.take(i + 1 - start).drop_last() =~= d.take(i - start));
            assert(d.take(i + 1 - start).last() == c);
        }
        acc = match acc {
            None => None,
            Some(v) => match v.checked_mul(10) {
                None => None,
                Some(w) => w.checked_add(digit),
            },
        };
        i = i + 1;
    }
    proof {
        assert(d.take(n - start) =~= d);
    }
    acc
}

/// The text of a setting, if it was given.
pub open spec fn text_of(v: Option<&str>) -> Option<Seq<char>> {
    match v {
        Some(s) => Some(s@),
        None => None,
    }
}

/// The value of a numeric setting: `default` when it is not given, otherwise the decimal number
/// given, if it is at most `max`.
pub open spec fn spec_setting(v: Option<Seq<char>>, default: nat, max: nat) -> Option<nat> {
    match v {
        None => Some(default),
        Some(t) => spec_decimal_up_to(t, max),
    }
}

/// The initial retransmission timeout (ms), the number of retransmissions, the grace period (ms)
/// and the log level that the given texts set, with the defaults 500 ms, 5, 5 s and full
/// logging; or the error for the first of them, in that order, that is invalid. The grace period
/// is given in seconds and must fit in a `u64` once in milliseconds.
pub open spec fn spec_settings(
    rto: Option<Seq<char>>,
    retransmits: Option<Seq<char>>,
    grace_secs: Option<Seq<char>>,
    level: Option<Seq<char>>,
) -> Result<(u64, u8, u64, LogLevel), Error> {
    match spec_setting(rto, 500, u64::MAX as nat) {
        None => Err(Error::InvalidSetting { setting: Setting::InitRtoMillis }),
        Some(r) => match spec_setting(retransmits, 5, u8::MAX as nat) {
            None => Err(Error::InvalidSetting { setting: Setting::MaxRetransmits }),
            Some(m) => match spec_setting(grace_secs, 5, (u64::MAX / 1000) as nat) {
                None => Err(Error::InvalidSetting { setting: Setting::GraceSecs }),
                Some(g) => match level {
                    None => Ok((r as u64, m as u8, (g * 1000) as u64, LogLevel::PacketFull)),
                    Some(l) => match LogLevel::spec_from_text(trim_of(l)) {
                        Err(e) => Err(e),
                        Ok(lv) => Ok((r as u64, m as u8, (g * 1000) as u64, lv)),
                    },
                },
            },
        },
    }
}

/// Parses an optional numeric setting, `default` when it is not given.
fn parse_setting(v: Option<&str>, default: u64, max: u64) -> (r: Option<u64>)
    ensures
        r == match spec_setting(text_of(v), default as nat, max as nat) {
            Some(n) => Some(n as u64),
            None => None::<u64>,
        },
{
    match v {
        None => Some(default),
        Some(s) => match parse_u64(s) {
            Some(n) => if n <= max {
                Some(n)
            } else {
                None
            },
            None => None,
        },
    }
}

impl Config {
    /// The settings that the environment gives: the TUN device `tun_name` (`tun0` if not given),
    /// and the texts of the initial retransmission timeout in milliseconds, the number of
    /// retransmissions, the grace period in seconds and the log level, each with its default when
    /// not given (see `spec_settings`). Fails on the first setting that is invalid.
    pub fn from_settings(
        tun_name: Option<String>,
        initial_rto_millis: Option<&str>,
        max_retransmits: Option<&str>,
        grace_secs: Option<&str>,
        log_level: Option<&str>,
    ) -> (r: Result<Config, Error>)
        ensures
            match spec_settings(
                text_of(initial_rto_millis),
                text_of(max_retransmits),
                text_of(grace_secs),
                text_of(log_level),
            ) {
                Ok((rto, m, g, lv)) => r matches Ok(c) && c.tun_name@ == match tun_name {
                    Some(n) => n@,
                    None => default_tun_name(),
                } && c.initial_rto == rto && c.max_retransmits == m && c.grace_period == g
                    && c.log_level == lv,
                Err(e) => r matches Err(e2) && e2 == e,
            },
    {
        let initial_rto = match parse_setting(initial_rto_millis, 500, u64::MAX) {
            Some(n) => n,
            None => return Err(Error::InvalidSetting { setting: Setting::InitRtoMillis }),
        };
        let retransmits = match parse_setting(max_retransmits, 5, 255) {
            Some(n) => n as u8,
            None => return Err(Error::InvalidSetting { setting: Setting::MaxRetransmits }),
        };
        let grace = match parse_setting(grace_secs, 5, u64::MAX / 1000) {
            Some(n) => n * 1000,
            None => return Err(Error::InvalidSetting { setting: Setting::GraceSecs }),
        };
        let level = match log_level {
            None => LogLevel::PacketFull,
            Some(l) => match LogLevel::from_str(l) {
                Ok(lv) => lv,
                Err(e) => return Err(e),
            },
        };
        let mut c = Config::with_tun_name(tun_name);
        c.initial_rto = initial_rto;
        c.max_retransmits = retransmits;
        c.grace_period = grace;
        c.log_level = level;
        Ok(c)
    }

    /// The settings with the TUN device `tun_name` if one is given (`tun0` otherwise), a grace
    /// period of 5 s, an initial retransmission timeout of 500 ms, 5 retransmissions and full
    /// logging.
    pub fn with_tun_name(tun_name: Option<String>) -> (c: Config)
        ensures
            c.tun_name@ == match tun_name {
                Some(n) => n@,
                None => default_tun_name(),
            },
            c.grace_period == 5000,
            c.initial_rto == 500,
            c.max_retransmits == 5,
            c.log_level == LogLevel::PacketFull,
    {
        let tun_name = match tun_name {
            Some(n) => n,
            None => {
                let mut s = String::new();
                push_str(&mut s, "tun0");
                s
            },
        };
        Config {
            tun_name,
            grace_period: 5000,
            initial_rto: 500,
            max_retransmits: 5,
            log_level: LogLevel::PacketFull,
        }
    }
}

impl Default for Config {
    /// The settings with every default.
    fn default() -> (c: Config)
        ensures
            c.tun_name@ == default_tun_name(),
            c.grace_period == 5000,
            c.initial_rto == 500,
            c.max_retransmits == 5,
            c.log_level == LogLevel::PacketFull,
    {
        Config::with_tun_name(None)
    }
}

} // verus!
