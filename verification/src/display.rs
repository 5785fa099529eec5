//! Printable representations of payloads: their length, and their content as escaped UTF-8 text
//! or as hexadecimal bytes.

use vstd::prelude::*;
use vstd::utf8::{decode_utf8, valid_utf8};

use crate::text::{decimal, hex_byte, push_decimal, push_hex_byte, push_str};

verus! {

/// The characters of `s` as `str::escape_debug` escapes them: control characters, quotes,
/// backslashes and characters that are not printable become escape sequences.
pub uninterp spec fn escape_debug_of(s: Seq<char>) -> Seq<char>;

/// `std::str::from_utf8`: the string whose UTF-8 encoding is `bytes`, if `bytes` is valid UTF-8.
/// Believed, not proved: `Some` exactly for valid UTF-8, holding the characters it encodes.
#[verifier::external_body]
fn str_from_utf8(bytes: &[u8]) -> (r: Option<&str>)
    ensures
        r is Some <==> valid_utf8(bytes@),
        r matches Some(s) ==> s@ == decode_utf8(bytes@),
{
    std::str::from_utf8(bytes).ok()
}

/// `str::escape_debug`, collected into a `String`. Believed, not proved: the result is the named
/// escaping of the characters of `s`, a function of them alone.
#[verifier::external_body]
fn escape_debug(s: &str) -> (r: String)
    ensures
        r@ == escape_debug_of(s@),
{
    s.escape_debug().to_string()
}

/// Whether `c` is whitespace by the Unicode `White_Space` property: the ASCII tab, line feed,
/// vertical tab, form feed, carriage return and space, and NEL, NO-BREAK SPACE, OGHAM SPACE MARK,
/// the spaces U+2000 to U+200A, LINE SEPARATOR, PARAGRAPH SEPARATOR, NARROW NO-BREAK SPACE,
/// MEDIUM MATHEMATICAL SPACE and IDEOGRAPHIC SPACE.
pub open spec fn is_white_space(c: char) -> bool {
    let n = c as u32;
    ||| 0x09 <= n <= 0x0D
    ||| n == 0x20
    ||| n == 0x85
    ||| n == 0xA0
    ||| n == 0x1680
    ||| 0x2000 <= n <= 0x200A
    ||| n == 0x2028
    ||| n == 0x2029
    ||| n == 0x202F
    ||| n == 0x205F
    ||| n == 0x3000
}

/// `s` without its leading whitespace.
pub open spec fn trim_start_of(s: Seq<char>) -> Seq<char>
    decreases s.len(),
{
    if s.len() > 0 && is_white_space(s[0]) {
        trim_start_of(s.drop_first())
    } else {
        s
    }
}

/// `s` without its trailing whitespace.
pub open spec fn trim_end_of(s: Seq<char>) -> Seq<char>
    decreases s.len(),
{
    if s.len() > 0 && is_white_space(s.last()) {
        trim_end_of(s.drop_last())
    } else {
        s
    }
}

/// `s` without its leading and trailing whitespace.
pub open spec fn trim_of(s: Seq<char>) -> Seq<char> {
    trim_end_of(trim_start_of(s))
}

/// `str::trim`. Believed, not proved: removes the leading and trailing whitespace, whitespace
/// being what the Unicode `White_Space` property says it is.
#[verifier::external_body]
pub(crate) fn trim(s: &str) -> (r: &str)
    ensures
        r@ == trim_of(s@),
{
    s.trim()
}

/// `String::push`. Believed, not proved: appends the character `c`.
#[verifier::external_body]
pub(crate) fn push_char(s: &mut String, c: char)
    ensures
        final(s)@ == old(s)@.push(c),
{
    s.push(c)
}

/// Whether `bytes` is valid UTF-8.
pub fn is_utf8(bytes: &[u8]) -> (b: bool)
    ensures
        b == valid_utf8(bytes@),
{
    str_from_utf8(bytes).is_some()
}

/// One byte of a hex dump of `total` bytes at position `i`: dumps of more than 16 bytes start a
/// new line every 16 bytes, and every other byte follows a space.
pub open spec fn hex_item(b: u8, i: int, total: nat) -> Seq<char> {
    if total <= 16 || i % 16 != 0 {
        seq![' '] + hex_byte(b)
    } else {
        seq!['\n'] + hex_byte(b)
    }
}

/// The hex dump of `data`, a prefix of a payload of `total` bytes.
pub open spec fn hex_dump(data: Seq<u8>, total: nat) -> Seq<char>
    decreases data.len(),
{
    if data.len() == 0 {
        Seq::empty()
    } else {
        hex_dump(data.drop_last(), total) + hex_item(data.last(), data.len() - 1, total)
    }
}

/// A byte of a payload as `<[u8]>::escape_ascii` shows it: `\t`, `\r`, `\n`, backslash and
/// quotes escaped with a backslash, other printable ASCII as itself, and the rest as `\xNN`.
pub open spec fn escape_ascii_byte(b: u8) -> Seq<char> {
    if b == 9 {
        seq!['\\', 't']
    } else if b == 13 {
        seq!['\\', 'r']
    } else if b == 10 {
        seq!['\\', 'n']
    } else if b == 0x5c || b == 0x27 || b == 0x22 {
        seq!['\\', b as char]
    } else if 0x20 <= b <= 0x7e {
        seq![b as char]
    } else {
        seq!['\\', 'x'] + hex_byte(b)
    }
}

/// The bytes of `data` as `<[u8]>::escape_ascii` shows them.
pub open spec fn escape_ascii(data: Seq<u8>) -> Seq<char>
    decreases data.len(),
{
    if data.len() == 0 {
        Seq::empty()
    } else {
        escape_ascii(data.drop_last()) + escape_ascii_byte(data.last())
    }
}

/// Appends `b` as `<[u8]>::escape_ascii` shows it.
fn push_escaped_ascii(s: &mut String, b: u8)
    ensures
        final(s)@ == old(s)@ + escape_ascii_byte(b),
{
    if b == 9 {
        push_char(s, '\\');
        push_char(s, 't');
    } else if b == 13 {
        push_char(s, '\\');
        push_char(s, 'r');
    } else if b == 10 {
        push_char(s, '\\');
        push_char(s, 'n');
    } else if b == 0x5c || b == 0x27 || b == 0x22 {
        push_char(s, '\\');
        push_char(s, b as char);
    } else if 0x20 <= b && b <= 0x7e {
        push_char(s, b as char);
    } else {
        push_char(s, '\\');
        push_char(s, 'x');
        push_hex_byte(s, b);
    }
    assert(final(s)@ =~= old(s)@ + escape_ascii_byte(b));
}

/// The text of a payload as the log shows it after a packet header: its length and content,
/// escaped if it is UTF-8 and escaped byte by byte otherwise.
pub open spec fn spec_payload_text(payload: Seq<u8>) -> Seq<char> {
    if valid_utf8(payload) {
        if payload.len() == 0 {
            "<no payload>"@
        } else {
            decimal(payload.len()) + "-byte payload: "@ + escape_debug_of(decode_utf8(payload))
        }
    } else {
        decimal(payload.len()) + "-byte non-UTF-8 payload: "@ + escape_ascii(payload)
    }
}

/// Converts raw payload bytes to a printable string representation of the payload's length and
/// content. Escapes control and non-printable characters.
pub fn payload_to_string(payload: &[u8]) -> (s: String)
    ensures
        s@ == spec_payload_text(payload@),
{
    let mut s = String::new();
    let len = payload.len();
    match str_from_utf8(payload) {
        Some(text) => {
            if len == 0 {
                push_str(&mut s, "<no payload>");
            } else {
                push_decimal(&mut s, len as u64);
                push_str(&mut s, "-byte payload: ");
                let escaped = escape_debug(text);
                s.append(escaped.as_str());
            }
        },
        None => {
            push_decimal(&mut s, len as u64);
            push_str(&mut s, "-byte non-UTF-8 payload: ");
            let ghost start = s@;
            let mut i: usize = 0;
            while i < len
                invariant
                    len == payload@.len(),
                    i <= len,
                    s@ == start + escape_ascii(payload@.take(i as int)),
                decreases len - i,
            {
                proof {
                    assert(payload@.take(i + 1).drop_last() =~= payload@.take(i as int));
                }
                push_escaped_ascii(&mut s, payload[i]);
                i = i + 1;
                proof {
                    assert(s@ =~= start + escape_ascii(payload@.take(i as int)));
                }
            }
            assert(payload@.take(len as int) =~= payload@);
        },
    }
    s
}

/// Raw payload bytes that may be UTF-8, non-UTF-8 or empty, printed as their length and, if
/// `include_content` is set, their content.
#[derive(Clone, Copy, Debug, PartialEq, Eq)]
pub struct PrettyPayload<'a> {
    pub data: &'a [u8],
    pub include_content: bool,
}

/// The text of `data` as a `PrettyPayload` prints it.
pub open spec fn spec_pretty_payload(data: Seq<u8>, include_content: bool) -> Seq<char> {
    if valid_utf8(data) {
        if data.len() == 0 {
            "<no payload>"@
        } else if include_content {
            decimal(data.len()) + "-byte UTF-8 payload: "@ + escape_debug_of(decode_utf8(data))
        } else {
            decimal(data.len()) + "-byte UTF-8 payload"@
        }
    } else if include_content {
        decimal(data.len()) + "-byte non-UTF-8 payload:"@ + hex_dump(data, data.len())
    } else {
        decimal(data.len()) + "-byte non-UTF-8 payload"@
    }
}

impl<'a> PrettyPayload<'a> {
    /// The printable representation of the payload.
    pub fn describe(&self) -> (s: String)
        ensures
            s@ == spec_pretty_payload(self.data@, self.include_content),
    {
        let data = self.data;
        let len = data.len();
        let mut s = String::new();
        match str_from_utf8(data) {
            Some(text) => {
                if len == 0 {
                    push_str(&mut s, "<no payload>");
                } else if self.include_content {
                    push_decimal(&mut s, len as u64);
                    push_str(&mut s, "-byte UTF-8 payload: ");
                    let escaped = escape_debug(text);
                    s.append(escaped.as_str());
                } else {
                    push_decimal(&mut s, len as u64);
                    push_str(&mut s, "-byte UTF-8 payload");
                }
            },
            None => {
                push_decimal(&mut s, len as u64);
                if self.include_content {
                    push_str(&mut s, "-byte non-UTF-8 payload:");
                    let ghost start = s@;
                    let mut i: usize = 0;
                    while i < len
                        invariant
                            len == data@.len(),
                            i <= len,
                            s@ == start + hex_dump(data@.take(i as int), len as nat),
                        decreases len - i,
                    {
                        proof {
                            assert(data@.take(i + 1).drop_last() =~= data@.take(i as int));
                        }
                        if len <= 16 || i % 16 != 0 {
                            push_char(&mut s, ' ');
                        } else {
                            push_char(&mut s, '\n');
                        }
                        push_hex_byte(&mut s, data[i]);
                        i = i + 1;
                        proof {
                            assert(s@ =~= start + hex_dump(data@.take(i as int), len as nat));
                        }
                    }
                    assert(data@.take(len as int) =~= data@);
                } else {
                    push_str(&mut s, "-byte non-UTF-8 payload");
                }
            },
        }
        s
    }
}

/// Protocol-handling types whose payload can be pretty printed.
pub trait PrettyProtocol {
    /// The payload bytes of `self`.
    spec fn payload_bytes(&self) -> Seq<u8>;

    /// Wraps the payload bytes, which may be UTF-8, non-UTF-8 or empty, in a `PrettyPayload` for
    /// pretty printing. If `include_content` is `false`, prints the length only.
    fn pretty_payload(&self, include_content: bool) -> (p: PrettyPayload<'_>)
        ensures
            p.data@ == self.payload_bytes(),
            p.include_content == include_content,
    ;
}

} // verus!
