use typenet::display::{payload_to_string, PrettyPayload};
use typenet::text::with_thousands_separators;

/// Removes commas from `s`, parses the result, and then adds commas back to that result.
fn comma_round_trip(s: &str) -> String {
    let parsed: u64 = s.replace(',', "").parse().unwrap();
    with_thousands_separators(parsed)
}

#[test]
fn separates_all_widths() {
    for s in ["65,535", "4,321", "321", "21", "1", "0"] {
        assert_eq!(s, comma_round_trip(s));
    }

    for s in [
        "4,294,967,295",
        "987,654,321",
        "87,654,321",
        "7,654,321",
        "654,321",
        "54,321",
        "4,321",
        "321",
        "21",
        "1",
        "0",
    ] {
        assert_eq!(s, comma_round_trip(s));
    }
}

#[test]
fn handles_trailing_and_internal_zeros() {
    for s in ["60,000", "60,001", "4,000", "4,001", "300", "301", "20"] {
        assert_eq!(s, comma_round_trip(s));
    }

    for s in [
        "4,000,000,000",
        "4,000,000,001",
        "900,000,000",
        "900,000,001",
        "80,000,000",
        "80,000,001",
        "4,000",
        "4,001",
        "300",
        "301",
        "20",
    ] {
        assert_eq!(s, comma_round_trip(s));
    }
}

#[test]
fn pretty_payload_of_empty_data() {
    let p = PrettyPayload { data: &[], include_content: true };
    assert_eq!(p.describe(), "<no payload>");
}

#[test]
fn pretty_payload_of_utf8_data_with_and_without_content() {
    let p = PrettyPayload { data: "tab\there".as_bytes(), include_content: true };
    assert_eq!(p.describe(), "8-byte UTF-8 payload: tab\\there");
    let p = PrettyPayload { data: "tab\there".as_bytes(), include_content: false };
    assert_eq!(p.describe(), "8-byte UTF-8 payload");
}

#[test]
fn pretty_payload_of_non_utf8_data_dumps_hex() {
    let p = PrettyPayload { data: &[0xff, 0x00, 0x10], include_content: true };
    assert_eq!(p.describe(), "3-byte non-UTF-8 payload: ff 00 10");
    let p = PrettyPayload { data: &[0xff, 0x00, 0x10], include_content: false };
    assert_eq!(p.describe(), "3-byte non-UTF-8 payload");
}

#[test]
fn long_hex_dump_breaks_lines_every_16_bytes() {
    let mut data = vec![0xffu8];
    data.extend(1u8..=17);
    let p = PrettyPayload { data: &data, include_content: true };
    assert_eq!(
        p.describe(),
        "18-byte non-UTF-8 payload:\nff 01 02 03 04 05 06 07 08 09 0a 0b 0c 0d 0e 0f\n10 11"
    );
}

#[test]
fn payload_to_string_escapes_text_and_bytes() {
    assert_eq!(payload_to_string(b""), "<no payload>");
    assert_eq!(payload_to_string(b"a\"b\n"), "4-byte payload: a\\\"b\\n");
    assert_eq!(
        payload_to_string(&[0xff, b'A', b'\\', 0x07]),
        "4-byte non-UTF-8 payload: \\xffA\\\\\\x07"
    );
}
