use typenet::error::Error;
use typenet::tun::{prepare_ifr_name, IFNAMSIZ};

#[test]
fn pads_short_name_with_nul_bytes() {
    assert_eq!(prepare_ifr_name("a"), Ok(*b"a\0\0\0\0\0\0\0\0\0\0\0\0\0\0\0"));
}

#[test]
fn allows_name_at_length_limit() {
    const NAME: &str = "abcdefghijklmno";
    assert_eq!(NAME.len(), IFNAMSIZ - 1);
    assert_eq!(prepare_ifr_name(NAME), Ok(*b"abcdefghijklmno\0"));
}

#[test]
fn errors_for_name_too_long() {
    const NAME: &str = "abcdefghijklmnop";
    assert_eq!(NAME.len(), IFNAMSIZ);
    assert_eq!(prepare_ifr_name(NAME), Err(Error::TunNameTooLong));
}

#[test]
fn errors_for_empty_name() {
    assert_eq!(prepare_ifr_name(""), Err(Error::TunNameEmpty));
}

#[test]
fn errors_for_dot_and_dot_dot_names() {
    for invalid_name in [".", ".."] {
        assert_eq!(prepare_ifr_name(invalid_name), Err(Error::TunNameDots));
    }
}

#[test]
fn errors_for_illegal_characters_in_name() {
    for invalid_name in [" tun", "\tun", "tu\n", "t:un", "/dev/null"] {
        assert!(matches!(prepare_ifr_name(invalid_name), Err(Error::TunNameChar { .. })));
    }
}

#[test]
fn the_first_illegal_character_is_reported() {
    let e = prepare_ifr_name("tu n:").unwrap_err();
    assert_eq!(e, Error::TunNameChar { byte: b' ' });
    assert_eq!(e.message(), "TUN device name cannot contain the character ' '");
    // The byte 0xA0 (a non-breaking space in Latin-1) is whitespace too
    assert_eq!(prepare_ifr_name("a\u{a0}"), Err(Error::TunNameChar { byte: 0xA0 }));
}

#[test]
fn dots_inside_longer_names_are_allowed() {
    assert_eq!(prepare_ifr_name("tun.0"), Ok(*b"tun.0\0\0\0\0\0\0\0\0\0\0\0"));
}
