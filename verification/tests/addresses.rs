use usque::addr::{
    format_ip, ip_string, parse_ip, parse_socket, scoped_string, socket_string, IpAddress,
    SocketAddress,
};
use usque::text::{decimal_string, find_char, is_blank, parse_plain, parse_unsigned};

fn v6_one() -> IpAddress {
    let mut octets = [0u8; 16];
    octets[15] = 1;
    IpAddress::V6(octets)
}

#[test]
fn numbers_are_written_and_read_in_decimal() {
    assert_eq!(decimal_string(0), "0");
    assert_eq!(decimal_string(65535), "65535");
    assert_eq!(parse_unsigned("65535", 65535), Some(65535));
    assert_eq!(parse_unsigned("65536", 65535), None);
    assert_eq!(parse_unsigned("+7", 65535), Some(7));
    assert_eq!(parse_unsigned("", 65535), None);
    assert_eq!(parse_unsigned("1x", 65535), None);
    assert_eq!(parse_plain("+7", 65535), None);
    assert_eq!(parse_plain("007", 65535), Some(7));
}

#[test]
fn blank_texts_hold_white_space_only() {
    assert!(is_blank(""));
    assert!(is_blank(" \t\n\u{a0}"));
    assert!(!is_blank(" x "));
    let chars: Vec<char> = "a:b:".chars().collect();
    assert_eq!(find_char(&chars, ':', 2), 3);
    assert_eq!(find_char(&chars, '/', 0), 4);
}

#[test]
fn addresses_are_written_and_read() {
    assert_eq!(parse_ip("192.0.2.1"), Some(IpAddress::V4([192, 0, 2, 1])));
    assert_eq!(parse_ip("192.0.2.01"), None);
    assert_eq!(parse_ip("::1"), Some(v6_one()));
    assert_eq!(parse_ip("nonsense"), None);
    assert_eq!(ip_string(IpAddress::V4([10, 0, 0, 1])), "10.0.0.1");
    assert_eq!(ip_string(v6_one()), "::1");
    assert_eq!(format_ip(v6_one()), "[::1]");
    assert_eq!(socket_string(SocketAddress { ip: v6_one(), port: 443 }), "[::1]:443");
    assert_eq!(
        socket_string(SocketAddress { ip: IpAddress::V4([1, 2, 3, 4]), port: 80 }),
        "1.2.3.4:80"
    );
}

#[test]
fn sockets_are_read_with_their_ports_and_links() {
    let read = [
        ("1.2.3.4:80", "1.2.3.4:80"),
        ("1.2.3.4:080", "1.2.3.4:80"),
        ("[::1]:443", "[::1]:443"),
        ("[fe80::1%3]:443", "[fe80::1%3]:443"),
        ("[fe80::1%0]:443", "[fe80::1]:443"),
        ("[::ffff:1.2.3.4]:8", "[::ffff:1.2.3.4]:8"),
    ];
    for (text, shown) in read.iter() {
        assert_eq!(scoped_string(parse_socket(text).expect("a socket")), *shown);
    }
    let refused = [
        "1.2.3.4:+80",
        "1.2.3.4:65536",
        "1.2.3.4:",
        "1.2.3.4",
        ":80",
        "[fe80::1%]:443",
        "[fe80::1%x]:443",
        "[::1]443",
        "[::1]:",
        "::1:443",
        "[1.2.3.4]:80",
        "1.2.3.4:80 ",
        "",
        "[",
        "[]:1",
    ];
    for text in refused.iter() {
        assert!(parse_socket(text).is_none(), "{}", text);
    }
}
