use audiomultiverse::net::{read_octet, Ipv4Addr};
use audiomultiverse::text::{
    field_at, has_part, has_prefix, push_decimal, read_digits, read_number, same_bytes, scan_to,
    split_word, trim, word_at, Stop,
};

#[test]
fn address_is_written_as_dotted_quad() {
    assert_eq!(Ipv4Addr::new(239, 69, 1, 100).to_bytes(), b"239.69.1.100".to_vec());
    assert_eq!(Ipv4Addr::new(0, 0, 0, 0).to_bytes(), b"0.0.0.0".to_vec());
    assert_eq!(Ipv4Addr::new(255, 255, 255, 255).octets(), [255, 255, 255, 255]);
    let mut out = b"x=".to_vec();
    Ipv4Addr::new(10, 20, 30, 40).write(&mut out);
    assert_eq!(out, b"x=10.20.30.40".to_vec());
}

#[test]
fn address_round_trip() {
    for ip in [
        Ipv4Addr::new(0, 0, 0, 0),
        Ipv4Addr::new(1, 10, 100, 255),
        Ipv4Addr::new(224, 2, 127, 254),
        Ipv4Addr::new(255, 255, 255, 255),
    ] {
        assert_eq!(Ipv4Addr::parse(&ip.to_bytes()), Some(ip));
    }
}

#[test]
fn address_parse_is_strict() {
    assert_eq!(Ipv4Addr::parse(b"192.168.1.1"), Some(Ipv4Addr::new(192, 168, 1, 1)));
    for bad in [
        &b""[..], b"1.2.3", b"1.2.3.4.5", b"1.2.3.", b".1.2.3", b"1..2.3", b"256.1.1.1",
        b"1.2.3.04", b"1.2.3.4 ", b" 1.2.3.4", b"a.b.c.d", b"1.2.3.4/64", b"+1.2.3.4", b"1.2.3.0004",
    ] {
        assert_eq!(Ipv4Addr::parse(bad), None);
    }
    assert_eq!(read_octet(b"0"), Some(0));
    assert_eq!(read_octet(b"255"), Some(255));
    assert_eq!(read_octet(b"00"), None);
    assert_eq!(read_octet(b"256"), None);
}

#[test]
fn multicast_block() {
    assert!(Ipv4Addr::new(224, 0, 1, 129).is_multicast());
    assert!(Ipv4Addr::new(239, 255, 255, 255).is_multicast());
    assert!(!Ipv4Addr::new(223, 255, 255, 255).is_multicast());
    assert!(!Ipv4Addr::new(240, 0, 0, 0).is_multicast());
}

#[test]
fn scanning_and_trimming() {
    assert_eq!(scan_to(b"ab cd", 0, Stop::Space), 2);
    assert_eq!(scan_to(b"ab cd", 2, Stop::Text), 3);
    assert_eq!(scan_to(b"ab cd", 0, Stop::Byte(b'x')), 5);
    assert_eq!(scan_to(b"ab cd", 5, Stop::Space), 5);
    assert_eq!(trim(b"  a b\t\r\n"), b"a b");
    assert_eq!(trim(b" \t\x0b\x0c\r\n "), b"");
    assert_eq!(trim(b""), b"");
    assert_eq!(trim(b"x"), b"x");
}

#[test]
fn words_and_fields() {
    assert_eq!(split_word(b"  one two "), (&b"one"[..], &b" two "[..]));
    assert_eq!(word_at(b"a  bb\tccc", 0), b"a");
    assert_eq!(word_at(b"a  bb\tccc", 1), b"bb");
    assert_eq!(word_at(b"a  bb\tccc", 2), b"ccc");
    assert_eq!(word_at(b"a  bb\tccc", 3), b"");
    assert_eq!(field_at(b"a/b//c", b'/', 0), Some(&b"a"[..]));
    assert_eq!(field_at(b"a/b//c", b'/', 2), Some(&b""[..]));
    assert_eq!(field_at(b"a/b//c", b'/', 3), Some(&b"c"[..]));
    assert_eq!(field_at(b"a/b//c", b'/', 4), None);
    assert_eq!(field_at(b"", b'/', 0), Some(&b""[..]));
    assert_eq!(field_at(b"", b'/', 1), None);
}

#[test]
fn prefixes_and_parts() {
    assert!(has_prefix(b"m=audio 1", b"m=audio "));
    assert!(!has_prefix(b"m=audi", b"m=audio "));
    assert!(has_prefix(b"abc", b""));
    assert!(has_part(b"x L24/48000", b"L24/"));
    assert!(!has_part(b"x L16/48000", b"L24"));
    assert!(has_part(b"abc", b""));
    assert!(has_part(b"", b""));
    assert!(!has_part(b"ab", b"abc"));
    assert!(has_part(b"aab", b"ab"));
    assert!(same_bytes(b"abc", b"abc"));
    assert!(!same_bytes(b"abc", b"abd"));
    assert!(!same_bytes(b"abc", b"ab"));
}

#[test]
fn decimal_numbers() {
    let mut out = Vec::new();
    push_decimal(&mut out, 0);
    out.push(b' ');
    push_decimal(&mut out, 7);
    out.push(b' ');
    push_decimal(&mut out, 1234567890123);
    out.push(b' ');
    push_decimal(&mut out, u64::MAX);
    assert_eq!(out, b"0 7 1234567890123 18446744073709551615".to_vec());
    assert_eq!(read_digits(b"0", 255), Some(0));
    assert_eq!(read_digits(b"007", 255), Some(7));
    assert_eq!(read_digits(b"255", 255), Some(255));
    assert_eq!(read_digits(b"256", 255), None);
    assert_eq!(read_digits(b"", 255), None);
    assert_eq!(read_digits(b"12a", 255), None);
    assert_eq!(read_digits(b"4294967295", u32::MAX), Some(u32::MAX));
    assert_eq!(read_digits(b"4294967296", u32::MAX), None);
    assert_eq!(read_digits(b"99999999999999999999999999", u32::MAX), None);
    assert_eq!(read_number(b"+48000", u32::MAX), Some(48000));
    assert_eq!(read_number(b"48000", u32::MAX), Some(48000));
    assert_eq!(read_number(b"+", u32::MAX), None);
    assert_eq!(read_number(b"++1", u32::MAX), None);
    assert_eq!(read_number(b"-1", u32::MAX), None);
}
