use dnsmasq_stats::address::{parse_ip, IpAddress};
use dnsmasq_stats::text::{chars_of, decimal_string, digit_of, parse_u32, parse_u64, read_number};

#[test]
fn characters_of_a_text() {
    assert_eq!(chars_of(""), Vec::<char>::new());
    assert_eq!(chars_of("a\u{e9}z"), vec!['a', '\u{e9}', 'z']);
}

#[test]
fn digits() {
    assert_eq!(digit_of('7', false), Some(7));
    assert_eq!(digit_of('a', false), None);
    assert_eq!(digit_of('a', true), Some(10));
    assert_eq!(digit_of('F', true), Some(15));
    assert_eq!(digit_of('g', true), None);
    assert_eq!(digit_of('\u{661}', false), None);
}

#[test]
fn numbers_in_a_text() {
    let s: Vec<char> = "ab123:ff".chars().collect();
    assert_eq!(read_number(&s, 2, false, 3, 255), Some((123, 5)));
    assert_eq!(read_number(&s, 2, false, 2, 255), None);
    assert_eq!(read_number(&s, 2, false, 3, 122), None);
    assert_eq!(read_number(&s, 5, false, 3, 255), None);
    assert_eq!(read_number(&s, 6, true, 4, 0xffff), Some((0xff, 8)));
    assert_eq!(read_number(&s, 8, true, 4, 0xffff), None);
}

#[test]
fn unsigned_numbers() {
    let texts = [
        "0", "7", "007", "150", "+5", "+", "-5", "", " 5", "5 ", "4294967295", "4294967296",
        "18446744073709551615", "18446744073709551616", "99999999999999999999999", "1e3", "0x10",
        "\u{661}\u{662}", "++1", "1+",
    ];
    for t in texts {
        assert_eq!(parse_u64(t), t.parse::<u64>().ok(), "{:?}", t);
        assert_eq!(parse_u32(t), t.parse::<u32>().ok(), "{:?}", t);
    }
    assert_eq!(parse_u64("150"), Some(150));
    assert_eq!(parse_u32("4294967295"), Some(u32::MAX));
    assert_eq!(parse_u32("4294967296"), None);
}

#[test]
fn ipv4_addresses() {
    assert_eq!(parse_ip("127.0.0.1"), Some(IpAddress::V4(127, 0, 0, 1)));
    assert_eq!(parse_ip("255.255.255.255"), Some(IpAddress::V4(255, 255, 255, 255)));
    assert_eq!(parse_ip("0.0.0.0"), Some(IpAddress::V4(0, 0, 0, 0)));
    assert_eq!(parse_ip("256.0.0.1"), None);
    assert_eq!(parse_ip("1.2.3"), None);
    assert_eq!(parse_ip("1.2.3.4.5"), None);
    assert_eq!(parse_ip("01.2.3.4"), None);
    assert_eq!(parse_ip("1.2.3.4 "), None);
    assert_eq!(parse_ip("NXDOMAIN"), None);
    assert_eq!(parse_ip(""), None);
}

#[test]
fn ipv6_addresses() {
    assert_eq!(parse_ip("::"), Some(IpAddress::V6(0, 0, 0, 0, 0, 0, 0, 0)));
    assert_eq!(parse_ip("::1"), Some(IpAddress::V6(0, 0, 0, 0, 0, 0, 0, 1)));
    assert_eq!(parse_ip("fe80::1:2"), Some(IpAddress::V6(0xfe80, 0, 0, 0, 0, 0, 1, 2)));
    assert_eq!(parse_ip("1:2:3:4:5:6:7:8"), Some(IpAddress::V6(1, 2, 3, 4, 5, 6, 7, 8)));
    assert_eq!(parse_ip("1:2:3:4:5:6:7::"), Some(IpAddress::V6(1, 2, 3, 4, 5, 6, 7, 0)));
    assert_eq!(
        parse_ip("::ffff:192.168.1.2"),
        Some(IpAddress::V6(0, 0, 0, 0, 0, 0xffff, 0xc0a8, 0x0102))
    );
    assert_eq!(
        parse_ip("1:2:3:4:5:6:7.8.9.10"),
        Some(IpAddress::V6(1, 2, 3, 4, 5, 6, 0x0708, 0x090a))
    );
    assert_eq!(parse_ip("1:2:3:4:5:6:7"), None);
    assert_eq!(parse_ip("1:2:3:4:5:6:7:8:9"), None);
    assert_eq!(parse_ip("1::2::3"), None);
    assert_eq!(parse_ip("12345::"), None);
    assert_eq!(parse_ip("1.2.3.4::"), None);
    assert_eq!(parse_ip(":::"), None);
}

#[test]
fn texts_that_write_an_address() {
    let v6 = IpAddress::V6;
    let cases = [
        ("1.2.3.4", IpAddress::V4(1, 2, 3, 4)),
        ("1::", v6(1, 0, 0, 0, 0, 0, 0, 0)),
        ("::2:3:4:5:6:7:8", v6(0, 2, 3, 4, 5, 6, 7, 8)),
        ("1::3:4:5:6:7:8", v6(1, 0, 3, 4, 5, 6, 7, 8)),
        ("1:2:3:4:5:6::8", v6(1, 2, 3, 4, 5, 6, 0, 8)),
        ("fe80::1", v6(0xfe80, 0, 0, 0, 0, 0, 0, 1)),
        ("FE80::ABCD", v6(0xfe80, 0, 0, 0, 0, 0, 0, 0xabcd)),
        ("1234::", v6(0x1234, 0, 0, 0, 0, 0, 0, 0)),
        ("0000::", v6(0, 0, 0, 0, 0, 0, 0, 0)),
        ("::ffff:1.2.3.4", v6(0, 0, 0, 0, 0, 0xffff, 0x0102, 0x0304)),
        ("::1.2.3.4", v6(0, 0, 0, 0, 0, 0, 0x0102, 0x0304)),
        ("::0.0.0.0", v6(0, 0, 0, 0, 0, 0, 0, 0)),
        ("::255.255.255.255", v6(0, 0, 0, 0, 0, 0, 0xffff, 0xffff)),
        ("1:2:3:4:5:6:1.2.3.4", v6(1, 2, 3, 4, 5, 6, 0x0102, 0x0304)),
        ("1:2:3:4:5:6:255.255.255.255", v6(1, 2, 3, 4, 5, 6, 0xffff, 0xffff)),
        ("1:2:3:4:5::1.2.3.4", v6(1, 2, 3, 4, 5, 0, 0x0102, 0x0304)),
        ("::ffff:0:0", v6(0, 0, 0, 0, 0, 0xffff, 0, 0)),
        ("0:0:0:0:0:0:0:0", v6(0, 0, 0, 0, 0, 0, 0, 0)),
        ("a:b:c:d:e:f:0:1", v6(0xa, 0xb, 0xc, 0xd, 0xe, 0xf, 0, 1)),
        ("::1:2:3:4:5:6:7", v6(0, 1, 2, 3, 4, 5, 6, 7)),
        (
            "ffff:ffff:ffff:ffff:ffff:ffff:ffff:ffff",
            v6(0xffff, 0xffff, 0xffff, 0xffff, 0xffff, 0xffff, 0xffff, 0xffff),
        ),
    ];
    for (text, address) in cases {
        assert_eq!(parse_ip(text), Some(address), "{:?}", text);
    }
}

#[test]
fn texts_that_write_no_address() {
    let texts = [
        "256.1.1.1", "1.2.3", "1.2.3.4.5", "01.2.3.4", "1.02.3.4", "00.0.0.0", "1..2.3", ".1.2.3.4", "1.2.3.4.",
        "1.2.3.-4", "+1.2.3.4", "1.2.3.0004", ":", ":::", "::::", "1:2:3:4:5:6:7:8:9", "1:2:3:4:5:6:7",
        "1:2:3:4:5:6:7::8", "::1:2:3:4:5:6:7:8", "fe80::1%eth0", "12345::", "g::", "::g", "1.2.3.4::",
        "::1.2.3.4:5", "1:2:3:4:5:6:7:1.2.3.4", "1:2:3:4:5:1.2.3.4", "1:2:3:4:5:6::1.2.3.4", "::1.2.3",
        "::1.2.3.456", "::01.2.3.4", "1::2::3", "1:::2", "1:2:", ":1:2", "00000::", "[::1]", " ::1", "::1 ",
        "1.2.3.4:80", "NXDOMAIN", "NODATA-IPv6", "<CNAME>", "", "1:2:3:4:5:6:7:8::", "1:2:3:4::5:6:7:8",
        "1:2:3::4:5:6:7:8", "1.2.3.4.5::", "::256.1.1.1", "\u{661}.2.3.4", "::\u{ff11}",
    ];
    for text in texts {
        assert_eq!(parse_ip(text), None, "{:?}", text);
    }
}

#[test]
fn numbers_written_in_decimal() {
    assert_eq!(decimal_string(0), "0");
    assert_eq!(decimal_string(7), "7");
    assert_eq!(decimal_string(10), "10");
    assert_eq!(decimal_string(5353), "5353");
    assert_eq!(decimal_string(usize::MAX), usize::MAX.to_string());
    for n in [0usize, 9, 10, 99, 100, 255, 65535, 1_000_000] {
        assert_eq!(parse_u64(&decimal_string(n)), Some(n as u64));
    }
}
