use dpmaster_proto::decimal::{parse_decimal, write_decimal};
use dpmaster_proto::error::{DeserializationError, SyntaxKind};
use dpmaster_proto::grammar::ByteClass;
use dpmaster_proto::lexer::{
    bytes_equal, is_space, run_length, split, tag, take_while, take_while1,
};

#[test]
fn test_parse_decimal() {
    assert_eq!(parse_decimal(b"0"), Some(0));
    assert_eq!(parse_decimal(b"68"), Some(68));
    assert_eq!(parse_decimal(b"007"), Some(7));
    assert_eq!(parse_decimal(b"4294967295"), Some(4294967295));
    assert_eq!(parse_decimal(b"4294967296"), None);
    assert_eq!(parse_decimal(b"42949672950"), None);
    assert_eq!(parse_decimal(b"00000000004294967295"), Some(4294967295));
    assert_eq!(parse_decimal(b"18446744073709551616"), None);
    assert_eq!(parse_decimal(b"99999999999999999999999999999999999999999"), None);
    assert_eq!(parse_decimal(b""), None);
    assert_eq!(parse_decimal(b"+1"), None);
    assert_eq!(parse_decimal(b"-1"), None);
    assert_eq!(parse_decimal(b"1 "), None);
    assert_eq!(parse_decimal(b"12a"), None);
    assert_eq!(parse_decimal(b"99999999999a"), None);
}

#[test]
fn test_write_decimal() {
    for (number, text) in [
        (0u32, &b"0"[..]),
        (7, b"7"),
        (10, b"10"),
        (68, b"68"),
        (100, b"100"),
        (27960, b"27960"),
        (4294967295, b"4294967295"),
    ] {
        let mut out = b"x".to_vec();
        write_decimal(number, &mut out);
        assert_eq!(&out[1..], text);
        assert_eq!(out[0], b'x');
        assert_eq!(parse_decimal(&out[1..]), Some(number));
    }
}

#[test]
fn test_byte_classes() {
    for byte in 0..=255u8 {
        assert_eq!(ByteClass::Space.contains(byte), byte == b' ');
        assert_eq!(ByteClass::Newline.contains(byte), byte == b'\n');
        assert_eq!(ByteClass::NotNewline.contains(byte), byte != b'\n');
        assert_eq!(ByteClass::NotBackslash.contains(byte), byte != b'\\');
        assert_eq!(ByteClass::NotSpace.contains(byte), byte != b' ');
        assert_eq!(ByteClass::Digit.contains(byte), byte.is_ascii_digit());
        assert_eq!(
            ByteClass::NameByte.contains(byte),
            !byte.is_ascii_digit() && byte != b' '
        );
        assert_eq!(is_space(byte), byte == b' ');
    }
}

#[test]
fn test_tag() {
    assert_eq!(tag(b"getinfo x", b"getinfo"), Ok((&b" x"[..], &b"getinfo"[..])));
    assert_eq!(tag(b"getinfo", b"getinfo"), Ok((&b""[..], &b"getinfo"[..])));
    assert_eq!(tag(b"abc", b""), Ok((&b"abc"[..], &b""[..])));
    assert_eq!(
        tag(b"getinf", b"getinfo"),
        Err(DeserializationError::Nom(&b"getinf"[..], SyntaxKind::Tag))
    );
    assert_eq!(
        tag(b"getinfO", b"getinfo"),
        Err(DeserializationError::Nom(&b"getinfO"[..], SyntaxKind::Tag))
    );
}

#[test]
fn test_runs() {
    assert_eq!(run_length(b"   x ", ByteClass::Space), 3);
    assert_eq!(run_length(b"x", ByteClass::Space), 0);
    assert_eq!(run_length(b"", ByteClass::Space), 0);
    assert_eq!(run_length(b"123", ByteClass::Digit), 3);
    assert_eq!(take_while(b"12ab", ByteClass::Digit), (&b"ab"[..], &b"12"[..]));
    assert_eq!(take_while(b"ab", ByteClass::Digit), (&b"ab"[..], &b""[..]));
    assert_eq!(
        take_while1(b"12ab", ByteClass::Digit),
        Ok((&b"ab"[..], &b"12"[..]))
    );
    assert_eq!(
        take_while1(b"ab", ByteClass::Digit),
        Err(DeserializationError::Nom(&b"ab"[..], SyntaxKind::TakeWhile1))
    );
    assert_eq!(
        take_while1(b"", ByteClass::Digit),
        Err(DeserializationError::Nom(&b""[..], SyntaxKind::TakeWhile1))
    );
    assert_eq!(split(b"abcd", 1), (&b"bcd"[..], &b"a"[..]));
    assert_eq!(split(b"abcd", 4), (&b""[..], &b"abcd"[..]));
}

#[test]
fn test_bytes_equal() {
    assert!(bytes_equal(b"", b""));
    assert!(bytes_equal(b"abc", b"abc"));
    assert!(!bytes_equal(b"abc", b"abd"));
    assert!(!bytes_equal(b"abc", b"ab"));
    assert!(!bytes_equal(b"ab", b"abc"));
}
