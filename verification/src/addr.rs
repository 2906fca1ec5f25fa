//! IP addresses and their text.

use crate::text::{
    chars_of, decimal, decimal_parses_back, decimal_reads_back, find_char, index_of, is_digit,
    parse_plain, plain_number, push_decimal, string_of, the_first_is_found,
};
use vstd::prelude::*;

verus! {

/// An IP address, as its bytes in network order.
#[derive(Debug, Clone, Copy, Eq)]
pub enum IpAddress {
    V4([u8; 4]),
    V6([u8; 16]),
}

/// An IP address and a port.
#[derive(Debug, Clone, Copy, Eq)]
pub struct SocketAddress {
    pub ip: IpAddress,
    pub port: u16,
}

fn same_bytes<const N: usize>(a: &[u8; N], b: &[u8; N]) -> (res: bool)
    ensures
        res == (*a == *b),
{
    let mut i: usize = 0;
    while i < N
        invariant
            i <= N,
            a@.len() == N,
            b@.len() == N,
            forall|k: int| 0 <= k < i ==> a@[k] == b@[k],
        decreases N - i,
    {
        if a[i] != b[i] {
            return false;
        }
        i += 1;
    }
    assert(*a =~= *b);
    true
}

impl PartialEq for IpAddress {
    fn eq(&self, other: &Self) -> (res: bool) {
        match (self, other) {
            (IpAddress::V4(a), IpAddress::V4(b)) => same_bytes(a, b),
            (IpAddress::V6(a), IpAddress::V6(b)) => same_bytes(a, b),
            _ => false,
        }
    }
}

impl vstd::std_specs::cmp::PartialEqSpecImpl for IpAddress {
    open spec fn obeys_eq_spec() -> bool {
        true
    }

    open spec fn eq_spec(&self, other: &Self) -> bool {
        *self == *other
    }
}

impl PartialEq for SocketAddress {
    fn eq(&self, other: &Self) -> (res: bool) {
        self.ip == other.ip && self.port == other.port
    }
}

impl vstd::std_specs::cmp::PartialEqSpecImpl for SocketAddress {
    open spec fn obeys_eq_spec() -> bool {
        true
    }

    open spec fn eq_spec(&self, other: &Self) -> bool {
        *self == *other
    }
}

/// The text of an IPv6 address, as `Ipv6Address` of smoltcp, which is that of core, displays
/// it.
pub uninterp spec fn ipv6_text(octets: Seq<u8>) -> Seq<char>;

/// The text of an IPv4 address: its four bytes in decimal, with dots between them.
pub open spec fn ipv4_text(octets: Seq<u8>) -> Seq<char> {
    decimal(octets[0] as nat) + seq!['.'] + decimal(octets[1] as nat) + seq!['.'] + decimal(
        octets[2] as nat,
    ) + seq!['.'] + decimal(octets[3] as nat)
}

/// The text of an IP address.
pub open spec fn ip_text(ip: IpAddress) -> Seq<char> {
    match ip {
        IpAddress::V4(octets) => ipv4_text(octets@),
        IpAddress::V6(octets) => ipv6_text(octets@),
    }
}

/// The text of an IP address and a port; an IPv6 address stands in square brackets.
pub open spec fn socket_text(addr: SocketAddress) -> Seq<char> {
    match addr.ip {
        IpAddress::V4(octets) => ipv4_text(octets@) + seq![':'] + decimal(addr.port as nat),
        IpAddress::V6(octets) => seq!['['] + ipv6_text(octets@) + seq![']', ':'] + decimal(
            addr.port as nat,
        ),
    }
}

/// `to_string` of smoltcp's `Ipv6Address`, which is that of core: the text is a function of
/// the sixteen bytes alone.
#[verifier::external_body]
pub(crate) fn ipv6_string(octets: [u8; 16]) -> (text: String)
    ensures
        text@ == ipv6_text(octets@),
{
    smoltcp::wire::Ipv6Address::from(octets).to_string()
}

/// The address that a text stands for, as smoltcp's `Ipv6Address`, which is that of core,
/// parses it.
pub uninterp spec fn ipv6_parsed(text: Seq<char>) -> Option<Seq<u8>>;

/// Whether a text is that of an IPv4 address.
pub open spec fn is_ipv4_text(text: Seq<char>) -> bool {
    exists|octets: Seq<u8>| octets.len() == 4 && text == #[trigger] ipv4_text(octets)
}

/// `parse` of smoltcp's `Ipv4Address`, which is that of core: it takes four decimal numbers
/// without leading zeros, with dots between them, and nothing else.
#[verifier::external_body]
pub(crate) fn parse_ipv4(text: &str) -> (res: Option<[u8; 4]>)
    ensures
        match res {
            Some(octets) => text@ == ipv4_text(octets@),
            None => !is_ipv4_text(text@),
        },
{
    text.parse::<smoltcp::wire::Ipv4Address>().ok().map(|ip| ip.octets())
}

/// `parse` of smoltcp's `Ipv6Address`, which is that of core: the result is a function of the
/// text.
#[verifier::external_body]
pub(crate) fn parse_ipv6(text: &str) -> (res: Option<[u8; 16]>)
    ensures
        match res {
            Some(octets) => ipv6_parsed(text@) == Some(octets@),
            None => ipv6_parsed(text@) is None,
        },
{
    text.parse::<smoltcp::wire::Ipv6Address>().ok().map(|ip| ip.octets())
}

/// Whether `ip` is the address that a text stands for: an IPv4 address is tried first.
pub open spec fn reads_as(text: Seq<char>, ip: Option<IpAddress>) -> bool {
    match ip {
        Some(IpAddress::V4(octets)) => text == ipv4_text(octets@),
        Some(IpAddress::V6(octets)) => !is_ipv4_text(text) && ipv6_parsed(text) == Some(octets@),
        None => !is_ipv4_text(text) && ipv6_parsed(text) is None,
    }
}

/// The address that a text stands for.
pub fn parse_ip(text: &str) -> (res: Option<IpAddress>)
    ensures
        reads_as(text@, res),
{
    match parse_ipv4(text) {
        Some(octets) => Some(IpAddress::V4(octets)),
        None => match parse_ipv6(text) {
            Some(octets) => Some(IpAddress::V6(octets)),
            None => None,
        },
    }
}

/// The text of an IP address.
pub fn ip_string(ip: IpAddress) -> (text: String)
    ensures
        text@ == ip_text(ip),
{
    match ip {
        IpAddress::V4(o) => {
            let mut text: String = String::new();
            push_decimal(&mut text, o[0] as u64);
            text.push('.');
            push_decimal(&mut text, o[1] as u64);
            text.push('.');
            push_decimal(&mut text, o[2] as u64);
            text.push('.');
            push_decimal(&mut text, o[3] as u64);
            assert(text@ =~= ipv4_text(o@));
            text
        },
        IpAddress::V6(o) => ipv6_string(o),
    }
}

/// The text of an IP address in messages: an IPv6 address stands in square brackets.
pub fn format_ip(ip: IpAddress) -> (text: String)
    ensures
        text@ == match ip {
            IpAddress::V4(octets) => ipv4_text(octets@),
            IpAddress::V6(octets) => seq!['['] + ipv6_text(octets@) + seq![']'],
        },
{
    match ip {
        IpAddress::V4(_) => ip_string(ip),
        IpAddress::V6(octets) => {
            let mut text: String = String::new();
            text.push('[');
            text.append(ipv6_string(octets).as_str());
            text.push(']');
            assert(text@ =~= seq!['['] + ipv6_text(octets@) + seq![']']);
            text
        },
    }
}

/// The text of an IP address and a port.
pub fn socket_string(addr: SocketAddress) -> (text: String)
    ensures
        text@ == socket_text(addr),
{
    let ip = ip_string(addr.ip);
    match addr.ip {
        IpAddress::V4(_) => {
            let mut text: String = ip;
            text.push(':');
            push_decimal(&mut text, addr.port as u64);
            assert(text@ =~= socket_text(addr));
            text
        },
        IpAddress::V6(_) => {
            let mut text: String = String::new();
            text.push('[');
            text.append(ip.as_str());
            text.push(']');
            text.push(':');
            push_decimal(&mut text, addr.port as u64);
            assert(text@ =~= socket_text(addr));
            text
        },
    }
}

/// An IP address and a port, and of a link-local IPv6 address the number of the link.
#[derive(Debug, Clone, Copy)]
pub struct ScopedSocket {
    pub address: SocketAddress,
    pub scope: u32,
}

/// The text of an IP address, a port and the number of a link, which only an IPv6 address has.
pub open spec fn scoped_text(socket: ScopedSocket) -> Seq<char> {
    match socket.address.ip {
        IpAddress::V6(octets) if socket.scope != 0 => seq!['['] + ipv6_text(octets@) + seq!['%']
            + decimal(socket.scope as nat) + seq![']', ':'] + decimal(socket.address.port as nat),
        _ => socket_text(socket.address),
    }
}

/// The text of an IP address, a port and the number of a link.
pub fn scoped_string(socket: ScopedSocket) -> (text: String)
    ensures
        text@ == scoped_text(socket),
{
    match socket.address.ip {
        IpAddress::V6(octets) if socket.scope != 0 => {
            let mut text: String = String::new();
            text.push('[');
            text.append(ipv6_string(octets).as_str());
            text.push('%');
            push_decimal(&mut text, socket.scope as u64);
            text.push(']');
            text.push(':');
            push_decimal(&mut text, socket.address.port as u64);
            assert(text@ =~= scoped_text(socket));
            text
        },
        _ => socket_string(socket.address),
    }
}

/// What stands before the first colon and behind it.
pub open spec fn v4_parts(text: Seq<char>) -> Option<(Seq<char>, Seq<char>)> {
    let colon = index_of(text, ':', 0);
    if colon < text.len() {
        Some((text.subrange(0, colon), text.subrange(colon + 1, text.len() as int)))
    } else {
        None
    }
}

/// What stands in the square brackets that a text starts with, and behind the colon that follows
/// them.
pub open spec fn v6_parts(text: Seq<char>) -> Option<(Seq<char>, Seq<char>)> {
    let close = index_of(text, ']', 0);
    if close + 1 < text.len() && text[0] == '[' && text[close + 1] == ':' {
        Some((text.subrange(1, close), text.subrange(close + 2, text.len() as int)))
    } else {
        None
    }
}

/// An IPv6 address before a percent sign.
pub open spec fn host_part(host: Seq<char>) -> Seq<char> {
    host.subrange(0, index_of(host, '%', 0))
}

/// The number of a link: behind a percent sign, or zero where there is none.
pub open spec fn scope_part(host: Seq<char>) -> Option<nat> {
    let percent = index_of(host, '%', 0);
    if percent < host.len() {
        plain_number(host.subrange(percent + 1, host.len() as int), u32::MAX as nat)
    } else {
        Some(0)
    }
}

/// Whether a text is an IPv4 address and a port.
pub open spec fn is_v4_socket(text: Seq<char>) -> bool {
    v4_parts(text) matches Some((host, port)) && is_ipv4_text(host) && plain_number(
        port,
        65535,
    ) is Some
}

/// Whether a text is an IPv6 address in square brackets and a port.
pub open spec fn is_v6_socket(text: Seq<char>) -> bool {
    v6_parts(text) matches Some((host, port)) && ipv6_parsed(host_part(host)) is Some
        && scope_part(host) is Some && plain_number(port, 65535) is Some
}

/// Whether `socket` is the address and port that a text stands for.
pub open spec fn reads_as_socket(text: Seq<char>, socket: Option<ScopedSocket>) -> bool {
    match socket {
        Some(socket) => match socket.address.ip {
            IpAddress::V4(octets) => {
                &&& socket.scope == 0
                &&& v4_parts(text) matches Some((host, port)) && host == ipv4_text(octets@)
                    && plain_number(port, 65535) == Some(socket.address.port as nat)
            },
            IpAddress::V6(octets) => {
                &&& !is_v4_socket(text)
                &&& v6_parts(text) matches Some((host, port)) && ipv6_parsed(host_part(host))
                    == Some(octets@) && scope_part(host) == Some(socket.scope as nat)
                    && plain_number(port, 65535) == Some(socket.address.port as nat)
            },
        },
        None => !is_v4_socket(text) && !is_v6_socket(text),
    }
}

fn parse_v4_socket(text: &str) -> (res: Option<ScopedSocket>)
    ensures
        match res {
            Some(socket) => socket.address.ip is V4 && reads_as_socket(text@, res),
            None => !is_v4_socket(text@),
        },
{
    let chars = chars_of(text);
    let colon: usize = find_char(&chars, ':', 0);
    if colon == chars.len() {
        return None;
    }
    let host = string_of(&chars, 0, colon);
    let port = string_of(&chars, colon + 1, chars.len());
    let octets: [u8; 4] = match parse_ipv4(host.as_str()) {
        Some(octets) => octets,
        None => {
            return None;
        },
    };
    match parse_plain(port.as_str(), 65535) {
        Some(port) => Some(
            ScopedSocket {
                address: SocketAddress { ip: IpAddress::V4(octets), port: port as u16 },
                scope: 0,
            },
        ),
        None => None,
    }
}

fn parse_scope(host: &Vec<char>, percent: usize) -> (res: Option<u32>)
    requires
        percent == index_of(host@, '%', 0),
        percent <= host@.len(),
    ensures
        match res {
            Some(scope) => scope_part(host@) == Some(scope as nat),
            None => scope_part(host@) is None,
        },
{
    if percent == host.len() {
        return Some(0);
    }
    let scope = string_of(host, percent + 1, host.len());
    match parse_plain(scope.as_str(), 4294967295) {
        Some(scope) => Some(scope as u32),
        None => None,
    }
}

fn parse_v6_socket(text: &str) -> (res: Option<ScopedSocket>)
    requires
        !is_v4_socket(text@),
    ensures
        match res {
            Some(socket) => socket.address.ip is V6 && reads_as_socket(text@, res),
            None => !is_v6_socket(text@),
        },
{
    let chars = chars_of(text);
    let close: usize = find_char(&chars, ']', 0);
    if close == chars.len() || close + 1 == chars.len() || chars[0] != '[' || chars[close + 1]
        != ':' {
        return None;
    }
    let host_text = string_of(&chars, 1, close);
    let host = chars_of(host_text.as_str());
    let port = string_of(&chars, close + 2, chars.len());
    let percent: usize = find_char(&host, '%', 0);
    let ip = string_of(&host, 0, percent);
    let octets: [u8; 16] = match parse_ipv6(ip.as_str()) {
        Some(octets) => octets,
        None => {
            return None;
        },
    };
    let scope: u32 = match parse_scope(&host, percent) {
        Some(scope) => scope,
        None => {
            return None;
        },
    };
    match parse_plain(port.as_str(), 65535) {
        Some(port) => Some(
            ScopedSocket {
                address: SocketAddress { ip: IpAddress::V6(octets), port: port as u16 },
                scope,
            },
        ),
        None => None,
    }
}

/// The IP address and port that a text stands for.
pub fn parse_socket(text: &str) -> (res: Option<ScopedSocket>)
    ensures
        reads_as_socket(text@, res),
{
    match parse_v4_socket(text) {
        Some(socket) => Some(socket),
        None => parse_v6_socket(text),
    }
}

proof fn split_at_dot(a: Seq<char>, b: Seq<char>, c: Seq<char>, d: Seq<char>)
    requires
        !a.contains('.'),
        !c.contains('.'),
        a + seq!['.'] + b == c + seq!['.'] + d,
    ensures
        a == c,
        b == d,
{
    let left = a + seq!['.'] + b;
    let right = c + seq!['.'] + d;
    assert(left.len() == a.len() + 1 + b.len());
    assert(right.len() == c.len() + 1 + d.len());
    if a.len() < c.len() {
        assert(left[a.len() as int] == '.');
        assert(right[a.len() as int] == c[a.len() as int]);
        assert(c.contains('.'));
    } else if c.len() < a.len() {
        assert(right[c.len() as int] == '.');
        assert(left[c.len() as int] == a[c.len() as int]);
        assert(a.contains('.'));
    } else {
        assert forall|i: int| 0 <= i < a.len() implies a[i] == c[i] by {
            assert(left[i] == a[i]);
            assert(right[i] == c[i]);
        }
        assert(a =~= c);
        assert(b.len() == d.len());
        assert forall|i: int| 0 <= i < b.len() implies b[i] == d[i] by {
            assert(left[a.len() + 1 + i] == b[i]);
            assert(right[a.len() + 1 + i] == d[i]);
        }
        assert(b =~= d);
    }
}

proof fn decimal_has_no_dot(n: nat)
    ensures
        !decimal(n).contains('.'),
{
    decimal_reads_back(n);
    if decimal(n).contains('.') {
        let i = choose|i: int| 0 <= i < decimal(n).len() && decimal(n)[i] == '.';
        assert(is_digit(decimal(n)[i]));
    }
}

proof fn regroup(a: Seq<char>, b: Seq<char>, c: Seq<char>, d: Seq<char>)
    ensures
        a + seq!['.'] + b + seq!['.'] + c + seq!['.'] + d == a + seq!['.'] + (b + seq!['.'] + (c
            + seq!['.'] + d)),
{
    assert(a + seq!['.'] + b + seq!['.'] + c + seq!['.'] + d =~= a + seq!['.'] + (b + seq!['.'] + (c
        + seq!['.'] + d)));
}

proof fn same_decimal(a: u8, b: u8)
    requires
        decimal(a as nat) == decimal(b as nat),
    ensures
        a == b,
{
    decimal_reads_back(a as nat);
    decimal_reads_back(b as nat);
}

proof fn same_parts(
    a: Seq<char>,
    b: Seq<char>,
    c: Seq<char>,
    d: Seq<char>,
    e: Seq<char>,
    f: Seq<char>,
    g: Seq<char>,
    h: Seq<char>,
)
    requires
        !a.contains('.'),
        !b.contains('.'),
        !c.contains('.'),
        !e.contains('.'),
        !f.contains('.'),
        !g.contains('.'),
        a + seq!['.'] + b + seq!['.'] + c + seq!['.'] + d == e + seq!['.'] + f + seq!['.'] + g
            + seq!['.'] + h,
    ensures
        a == e,
        b == f,
        c == g,
        d == h,
{
    regroup(a, b, c, d);
    regroup(e, f, g, h);
    split_at_dot(a, b + seq!['.'] + (c + seq!['.'] + d), e, f + seq!['.'] + (g + seq!['.'] + h));
    split_at_dot(b, c + seq!['.'] + d, f, g + seq!['.'] + h);
    split_at_dot(c, d, g, h);
}

/// Two IPv4 addresses with the same text are the same address.
pub proof fn ipv4_text_is_unique(a: Seq<u8>, b: Seq<u8>)
    requires
        a.len() == 4,
        b.len() == 4,
        ipv4_text(a) == ipv4_text(b),
    ensures
        a == b,
{
    decimal_has_no_dot(a[0] as nat);
    decimal_has_no_dot(a[1] as nat);
    decimal_has_no_dot(a[2] as nat);
    decimal_has_no_dot(b[0] as nat);
    decimal_has_no_dot(b[1] as nat);
    decimal_has_no_dot(b[2] as nat);
    same_parts(
        decimal(a[0] as nat),
        decimal(a[1] as nat),
        decimal(a[2] as nat),
        decimal(a[3] as nat),
        decimal(b[0] as nat),
        decimal(b[1] as nat),
        decimal(b[2] as nat),
        decimal(b[3] as nat),
    );
    same_decimal(a[0], b[0]);
    same_decimal(a[1], b[1]);
    same_decimal(a[2], b[2]);
    same_decimal(a[3], b[3]);
    assert(a =~= b);
}

/// A text stands for at most one address.
pub proof fn address_is_unique(text: Seq<char>, a: Option<IpAddress>, b: Option<IpAddress>)
    requires
        reads_as(text, a),
        reads_as(text, b),
    ensures
        a == b,
{
    match (a, b) {
        (Some(IpAddress::V4(x)), Some(IpAddress::V4(y))) => {
            ipv4_text_is_unique(x@, y@);
            assert(x =~= y);
        },
        (Some(IpAddress::V6(x)), Some(IpAddress::V6(y))) => {
            assert(x@ == y@);
            assert(x =~= y);
        },
        (Some(IpAddress::V4(x)), _) => {
            assert(is_ipv4_text(text));
        },
        (_, Some(IpAddress::V4(y))) => {
            assert(is_ipv4_text(text));
        },
        _ => {},
    }
}

/// A text stands for at most one address and port.
pub proof fn socket_is_unique(text: Seq<char>, a: Option<ScopedSocket>, b: Option<ScopedSocket>)
    requires
        reads_as_socket(text, a),
        reads_as_socket(text, b),
    ensures
        a == b,
{
    match (a, b) {
        (Some(a), Some(b)) => {
            match (a.address.ip, b.address.ip) {
                (IpAddress::V4(x), IpAddress::V4(y)) => {
                    ipv4_text_is_unique(x@, y@);
                    assert(x =~= y);
                },
                (IpAddress::V6(x), IpAddress::V6(y)) => {
                    assert(x@ == y@);
                    assert(x =~= y);
                },
                (IpAddress::V4(x), IpAddress::V6(_)) => {
                    assert(is_v4_socket(text));
                },
                (IpAddress::V6(_), IpAddress::V4(y)) => {
                    assert(is_v4_socket(text));
                },
            }
        },
        (Some(a), None) => {
            if let IpAddress::V4(x) = a.address.ip {
                assert(is_v4_socket(text));
            }
        },
        (None, Some(b)) => {
            if let IpAddress::V4(y) = b.address.ip {
                assert(is_v4_socket(text));
            }
        },
        _ => {},
    }
}

proof fn mark_is_at(s: Seq<char>, c: char, from: int, at: int)
    requires
        0 <= from <= at <= s.len(),
        forall|i: int| from <= i < at ==> #[trigger] s[i] != c,
        at < s.len() ==> s[at] == c,
    ensures
        index_of(s, c, from) == at,
    decreases at - from,
{
    if from < at {
        mark_is_at(s, c, from + 1, at);
    }
}

/// The text of an IPv4 server reads back as its address and its port.
pub proof fn an_ipv4_server_reads_back(octets: [u8; 4], port: u16)
    ensures
        reads_as_socket(
            socket_text(SocketAddress { ip: IpAddress::V4(octets), port }),
            Some(
                ScopedSocket {
                    address: SocketAddress { ip: IpAddress::V4(octets), port },
                    scope: 0,
                },
            ),
        ),
        reads_as(ip_text(IpAddress::V4(octets)), Some(IpAddress::V4(octets))),
{
    let host = ipv4_text(octets@);
    let text = socket_text(SocketAddress { ip: IpAddress::V4(octets), port });
    decimal_reads_back(octets@[0] as nat);
    decimal_reads_back(octets@[1] as nat);
    decimal_reads_back(octets@[2] as nat);
    decimal_reads_back(octets@[3] as nat);
    decimal_reads_back(port as nat);
    assert forall|i: int| 0 <= i < host.len() implies #[trigger] host[i] != ':' by {
        let a = decimal(octets@[0] as nat);
        let b = decimal(octets@[1] as nat);
        let c = decimal(octets@[2] as nat);
        let d = decimal(octets@[3] as nat);
        let n = a.len() as int;
        let m = n + 1 + b.len();
        let k = m + 1 + c.len();
        if i < n {
            assert(host[i] == a[i]);
            assert(is_digit(a[i]));
        } else if n < i < m {
            assert(host[i] == b[i - n - 1]);
            assert(is_digit(b[i - n - 1]));
        } else if m < i < k {
            assert(host[i] == c[i - m - 1]);
            assert(is_digit(c[i - m - 1]));
        } else if k < i {
            assert(host[i] == d[i - k - 1]);
            assert(is_digit(d[i - k - 1]));
        }
    }
    mark_is_at(text, ':', 0, host.len() as int);
    assert(text.subrange(0, host.len() as int) =~= host);
    assert(text.subrange(host.len() as int + 1, text.len() as int) =~= decimal(port as nat));
    decimal_parses_back(port as nat, 65535);
    assert(is_digit(decimal(port as nat)[0]));
}

/// The parts of an IPv6 server: what stands in the brackets, and the port behind them; and in the
/// brackets the address, and behind a percent sign the scope.
pub proof fn an_ipv6_server_has_parts(host: Seq<char>, scope: u32, port: Seq<char>)
    requires
        forall|i: int| 0 <= i < host.len() ==> #[trigger] host[i] != ']' && host[i] != '%',
    ensures
        v6_parts(seq!['['] + host + seq![']', ':'] + port) == Some((host, port)),
        host_part(host) == host,
        scope_part(host) == Some(0nat),
        host_part(host + seq!['%'] + decimal(scope as nat)) == host,
        scope_part(host + seq!['%'] + decimal(scope as nat)) == Some(scope as nat),
{
    let text = seq!['['] + host + seq![']', ':'] + port;
    let n = host.len() as int;
    assert forall|i: int| 0 <= i < n + 1 implies #[trigger] text[i] != ']' by {
        if i > 0 {
            assert(text[i] == host[i - 1]);
        }
    }
    mark_is_at(text, ']', 0, n + 1);
    assert(text.subrange(1, n + 1) =~= host);
    assert(text.subrange(n + 3, text.len() as int) =~= port);
    mark_is_at(host, '%', 0, n);
    assert(host.subrange(0, n) =~= host);
    let scoped = host + seq!['%'] + decimal(scope as nat);
    mark_is_at(scoped, '%', 0, n);
    assert(scoped.subrange(0, n) =~= host);
    assert(scoped.subrange(n + 1, scoped.len() as int) =~= decimal(scope as nat));
    decimal_reads_back(scope as nat);
    decimal_parses_back(scope as nat, u32::MAX as nat);
    assert(is_digit(decimal(scope as nat)[0]));
}

/// The text of an IPv6 server: the address in brackets, with the scope only where there is one, and
/// the port.
pub proof fn texts_of_ipv6_servers(octets: [u8; 16], scope: u32, port: u16)
    ensures
        scoped_text(
            ScopedSocket {
                address: SocketAddress { ip: IpAddress::V6(octets), port },
                scope,
            },
        ) == seq!['['] + ipv6_text(octets@) + (if scope == 0 {
            Seq::empty()
        } else {
            seq!['%'] + decimal(scope as nat)
        }) + seq![']', ':'] + decimal(port as nat),
{
    let ip = ipv6_text(octets@);
    assert(seq!['['] + ip + Seq::<char>::empty() =~= seq!['['] + ip);
    assert(seq!['['] + ip + seq!['%'] + decimal(scope as nat) =~= seq!['['] + ip + (seq!['%']
        + decimal(scope as nat)));
}

/// An IPv6 address in brackets with a port behind it is read as that address, scope and port, if what
/// stands in the brackets is read as the address.
pub proof fn an_ipv6_server_is_read(host: Seq<char>, octets: [u8; 16], scope: u32, port: u16)
    requires
        forall|i: int| 0 <= i < host.len() ==> #[trigger] host[i] != ']' && host[i] != '%',
        ipv6_parsed(host) == Some(octets@),
    ensures
        reads_as_socket(
            seq!['['] + host + seq![']', ':'] + decimal(port as nat),
            Some(
                ScopedSocket {
                    address: SocketAddress { ip: IpAddress::V6(octets), port },
                    scope: 0,
                },
            ),
        ),
        reads_as_socket(
            seq!['['] + (host + seq!['%'] + decimal(scope as nat)) + seq![']', ':'] + decimal(
                port as nat,
            ),
            Some(
                ScopedSocket { address: SocketAddress { ip: IpAddress::V6(octets), port }, scope },
            ),
        ),
{
    let digits = decimal(port as nat);
    decimal_reads_back(port as nat);
    decimal_parses_back(port as nat, 65535);
    assert(is_digit(digits[0]));
    an_ipv6_server_has_parts(host, scope, digits);
    let plain = seq!['['] + host + seq![']', ':'] + digits;
    brackets_are_no_ipv4(plain);
    let inner = host + seq!['%'] + decimal(scope as nat);
    decimal_reads_back(scope as nat);
    assert forall|i: int| 0 <= i < inner.len() implies #[trigger] inner[i] != ']' by {
        let n = host.len() as int;
        if i < n {
            assert(inner[i] == host[i]);
        } else if i > n {
            assert(inner[i] == decimal(scope as nat)[i - n - 1]);
            assert(is_digit(decimal(scope as nat)[i - n - 1]));
        }
    }
    let text = seq!['['] + inner + seq![']', ':'] + digits;
    let n = inner.len() as int;
    assert forall|i: int| 0 <= i < n + 1 implies #[trigger] text[i] != ']' by {
        if i > 0 {
            assert(text[i] == inner[i - 1]);
        }
    }
    mark_is_at(text, ']', 0, n + 1);
    assert(text.subrange(1, n + 1) =~= inner);
    assert(text.subrange(n + 3, text.len() as int) =~= digits);
    brackets_are_no_ipv4(text);
}

proof fn brackets_are_no_ipv4(text: Seq<char>)
    requires
        text.len() > 0,
        text[0] == '[',
    ensures
        !is_v4_socket(text),
{
    if is_v4_socket(text) {
        the_first_is_found(text, ':', 0);
        let (host, _) = v4_parts(text)->0;
        let octets = choose|octets: Seq<u8>| octets.len() == 4 && host == #[trigger] ipv4_text(octets);
        decimal_reads_back(octets[0] as nat);
        assert(is_digit(decimal(octets[0] as nat)[0]));
        assert(host[0] == decimal(octets[0] as nat)[0]);
        assert(host[0] == text[0]);
    }
}

} // verus!
