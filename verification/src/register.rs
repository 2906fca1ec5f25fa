//! What a device keeps of its registration.

use crate::addr::{
    ipv6_parsed, ipv6_text, parse_ip, parse_ipv6, parse_socket, reads_as, reads_as_socket, scoped_string,
    scoped_text, socket_string, socket_text, IpAddress, ScopedSocket, SocketAddress,
};
use crate::api::{AccountData, Peer};
use crate::codec::{base64_decoded, base64_encode, base64_text};
use crate::config::{Config, WgConfig};
use crate::crypto::{
    generate_ec_key_pair, key_ders, private_number, public_key, public_key_of, tells_why,
    CryptoError, EcKeyPair,
};
use crate::text::{blank, chars_of, decimal, is_blank, string_of};
use vstd::prelude::*;

verus! {

impl AccountData {
    /// The first server that the reply names.
    pub open spec fn first_peer(&self) -> Option<Peer> {
        match self.config.peers {
            Some(peers) => if peers@.len() > 0 {
                Some(peers@[0])
            } else {
                None
            },
            None => None,
        }
    }

    /// The IPv4 address of the server.
    pub open spec fn peer_v4(&self) -> Option<Seq<char>> {
        match self.first_peer() {
            Some(peer) => match peer.endpoint {
                Some(endpoint) => match endpoint.v4 {
                    Some(v4) => Some(v4@),
                    None => None,
                },
                None => None,
            },
            None => None,
        }
    }

    /// The IPv6 address of the server.
    pub open spec fn peer_v6(&self) -> Option<Seq<char>> {
        match self.first_peer() {
            Some(peer) => match peer.endpoint {
                Some(endpoint) => match endpoint.v6 {
                    Some(v6) => Some(v6@),
                    None => None,
                },
                None => None,
            },
            None => None,
        }
    }

    /// The public key of the server.
    pub open spec fn peer_key(&self) -> Option<Seq<char>> {
        match self.first_peer() {
            Some(peer) => Some(peer.public_key@),
            None => None,
        }
    }

    /// Whether the reply has the addresses of the device.
    pub open spec fn has_addresses(&self) -> bool {
        self.config.interface_config matches Some(interface) && interface.addresses is Some
    }

    /// The IPv4 address of the device.
    pub open spec fn own_v4(&self) -> Option<Seq<char>> {
        match self.config.interface_config {
            Some(interface) => match interface.addresses {
                Some(addresses) => match addresses.v4 {
                    Some(v4) => Some(v4@),
                    None => None,
                },
                None => None,
            },
            None => None,
        }
    }

    /// The IPv6 address of the device.
    pub open spec fn own_v6(&self) -> Option<Seq<char>> {
        match self.config.interface_config {
            Some(interface) => match interface.addresses {
                Some(addresses) => match addresses.v6 {
                    Some(v6) => Some(v6@),
                    None => None,
                },
                None => None,
            },
            None => None,
        }
    }

    /// The license of the account.
    pub open spec fn license(&self) -> Option<Seq<char>> {
        match self.account.license {
            Some(license) => Some(license@),
            None => None,
        }
    }

    fn get_first_peer(&self) -> (peer: Option<&Peer>)
        ensures
            match peer {
                Some(peer) => self.first_peer() == Some(*peer),
                None => self.first_peer() is None,
            },
    {
        match &self.config.peers {
            Some(peers) => if peers.len() > 0 {
                Some(&peers[0])
            } else {
                None
            },
            None => None,
        }
    }

    fn get_peer_v4(&self) -> (v4: Option<String>)
        ensures
            shown(v4) == self.peer_v4(),
    {
        match self.get_first_peer() {
            Some(peer) => match &peer.endpoint {
                Some(endpoint) => copied(&endpoint.v4),
                None => None,
            },
            None => None,
        }
    }

    fn get_peer_v6(&self) -> (v6: Option<String>)
        ensures
            shown(v6) == self.peer_v6(),
    {
        match self.get_first_peer() {
            Some(peer) => match &peer.endpoint {
                Some(endpoint) => copied(&endpoint.v6),
                None => None,
            },
            None => None,
        }
    }

    fn get_peer_key(&self) -> (key: Option<String>)
        ensures
            shown(key) == self.peer_key(),
    {
        match self.get_first_peer() {
            Some(peer) => Some(peer.public_key.clone()),
            None => None,
        }
    }

    fn get_own_v4(&self) -> (v4: Option<String>)
        ensures
            shown(v4) == self.own_v4(),
    {
        match &self.config.interface_config {
            Some(interface) => match &interface.addresses {
                Some(addresses) => copied(&addresses.v4),
                None => None,
            },
            None => None,
        }
    }

    fn get_own_v6(&self) -> (v6: Option<String>)
        ensures
            shown(v6) == self.own_v6(),
    {
        match &self.config.interface_config {
            Some(interface) => match &interface.addresses {
                Some(addresses) => copied(&addresses.v6),
                None => None,
            },
            None => None,
        }
    }
}

/// An optional text as values.
pub open spec fn shown(text: Option<String>) -> Option<Seq<char>> {
    match text {
        Some(text) => Some(text@),
        None => None,
    }
}

/// A text, or nothing.
pub open spec fn or_empty(text: Option<Seq<char>>) -> Seq<char> {
    match text {
        Some(text) => text,
        None => Seq::empty(),
    }
}

/// A text, or the one that was there before.
pub open spec fn or_kept(text: Option<Seq<char>>, kept: Seq<char>) -> Seq<char> {
    match text {
        Some(text) => text,
        None => kept,
    }
}

fn copied(text: &Option<String>) -> (copy: Option<String>)
    ensures
        shown(copy) == shown(*text),
{
    match text {
        Some(text) => Some(text.clone()),
        None => None,
    }
}

fn unwrap_or_empty(text: Option<String>) -> (out: String)
    ensures
        out@ == or_empty(shown(text)),
{
    match text {
        Some(text) => text,
        None => String::new(),
    }
}

fn unwrap_or_kept(text: Option<String>, kept: &String) -> (out: String)
    ensures
        out@ == or_kept(shown(text), kept@),
{
    match text {
        Some(text) => text,
        None => kept.clone(),
    }
}

fn is_empty(text: &String) -> (res: bool)
    ensures
        res == (text@.len() == 0),
{
    let chars = chars_of(text.as_str());
    chars.len() == 0
}

/// The token of a new device.
pub fn account_token(account: &AccountData) -> (res: Result<String, String>)
    ensures
        match account.token {
            Some(token) => res matches Ok(found) && found@ == token@,
            None => res matches Err(why) && why@ == "No token in response"@,
        },
{
    match &account.token {
        Some(token) => Ok(token.clone()),
        None => Err(String::from_str("No token in response")),
    }
}

/// The name that a new device gets.
pub fn enroll_name<'a>(name: Option<&'a str>) -> (out: &'a str)
    ensures
        out@ == match name {
            Some(name) => name@,
            None => "usque-rs"@,
        },
{
    match name {
        Some(name) => name,
        None => "usque-rs",
    }
}

/// What is missing in the reply to a new device's MASQUE key.
pub open spec fn enrollment_gap(updated: AccountData) -> Option<Seq<char>> {
    if or_empty(updated.peer_v4()).len() == 0 && or_empty(updated.peer_v6()).len() == 0 {
        Some("No endpoint info in response"@)
    } else if blank(or_empty(updated.peer_key())) {
        Some("No endpoint public key in response"@)
    } else if or_empty(updated.own_v4()).len() == 0 && or_empty(updated.own_v6()).len() == 0 {
        Some("No interface addresses in response"@)
    } else {
        None
    }
}

/// The configuration of a new MASQUE device.
pub fn masque_config(token: String, private_key_der: &[u8], updated: &AccountData) -> (res: Result<
    Config,
    String,
>)
    ensures
        match res {
            Ok(config) => {
                &&& enrollment_gap(*updated) is None
                &&& config.private_key@ == base64_text(private_key_der@)
                &&& base64_decoded(config.private_key@) == Ok::<Seq<u8>, Seq<char>>(
                    private_key_der@,
                )
                &&& config.endpoint_v4@ == or_empty(updated.peer_v4())
                &&& config.endpoint_v6@ == or_empty(updated.peer_v6())
                &&& config.endpoint_pub_key@ == or_empty(updated.peer_key())
                &&& config.license@ == or_empty(updated.license())
                &&& config.id@ == updated.id@
                &&& config.access_token@ == token@
                &&& config.ipv4@ == or_empty(updated.own_v4())
                &&& config.ipv6@ == or_empty(updated.own_v6())
            },
            Err(why) => enrollment_gap(*updated) == Some(why@),
        },
{
    let endpoint_v4 = unwrap_or_empty(updated.get_peer_v4());
    let endpoint_v6 = unwrap_or_empty(updated.get_peer_v6());
    if is_empty(&endpoint_v4) && is_empty(&endpoint_v6) {
        return Err(String::from_str("No endpoint info in response"));
    }
    let endpoint_pub_key = unwrap_or_empty(updated.get_peer_key());
    if is_blank(endpoint_pub_key.as_str()) {
        return Err(String::from_str("No endpoint public key in response"));
    }
    let ipv4 = unwrap_or_empty(updated.get_own_v4());
    let ipv6 = unwrap_or_empty(updated.get_own_v6());
    if is_empty(&ipv4) && is_empty(&ipv6) {
        return Err(String::from_str("No interface addresses in response"));
    }
    Ok(
        Config {
            private_key: base64_encode(private_key_der),
            endpoint_v4,
            endpoint_v6,
            endpoint_pub_key,
            license: unwrap_or_empty(copied(&updated.account.license)),
            id: updated.id.clone(),
            access_token: token,
            ipv4,
            ipv6,
        },
    )
}

/// What is missing both in the reply to a device's new key and in its configuration.
pub open spec fn renewal_gap(kept: Config, updated: AccountData) -> Option<Seq<char>> {
    if blank(or_kept(updated.peer_v4(), kept.endpoint_v4@)) && blank(
        or_kept(updated.peer_v6(), kept.endpoint_v6@),
    ) {
        Some("No endpoint info in response or existing config"@)
    } else if blank(or_kept(updated.peer_key(), kept.endpoint_pub_key@)) {
        Some("No endpoint public key in response or existing config"@)
    } else if blank(or_kept(updated.own_v4(), kept.ipv4@)) && blank(
        or_kept(updated.own_v6(), kept.ipv6@),
    ) {
        Some("No interface addresses in response or existing config"@)
    } else {
        None
    }
}

/// The configuration of a MASQUE device after its key was enrolled again. What the reply does not
/// say stays as it was.
pub fn enrolled_config(kept: &Config, private_key_der: &[u8], updated: &AccountData) -> (res:
    Result<Config, String>)
    ensures
        match res {
            Ok(config) => {
                &&& renewal_gap(*kept, *updated) is None
                &&& config.private_key@ == base64_text(private_key_der@)
                &&& base64_decoded(config.private_key@) == Ok::<Seq<u8>, Seq<char>>(
                    private_key_der@,
                )
                &&& config.endpoint_v4@ == or_kept(updated.peer_v4(), kept.endpoint_v4@)
                &&& config.endpoint_v6@ == or_kept(updated.peer_v6(), kept.endpoint_v6@)
                &&& config.endpoint_pub_key@ == or_kept(updated.peer_key(), kept.endpoint_pub_key@)
                &&& config.license@ == or_kept(updated.license(), kept.license@)
                &&& config.id@ == updated.id@
                &&& config.access_token@ == kept.access_token@
                &&& config.ipv4@ == or_kept(updated.own_v4(), kept.ipv4@)
                &&& config.ipv6@ == or_kept(updated.own_v6(), kept.ipv6@)
            },
            Err(why) => renewal_gap(*kept, *updated) == Some(why@),
        },
{
    let license = unwrap_or_kept(copied(&updated.account.license), &kept.license);
    let endpoint_v4 = unwrap_or_kept(updated.get_peer_v4(), &kept.endpoint_v4);
    let endpoint_v6 = unwrap_or_kept(updated.get_peer_v6(), &kept.endpoint_v6);
    if is_blank(endpoint_v4.as_str()) && is_blank(endpoint_v6.as_str()) {
        return Err(String::from_str("No endpoint info in response or existing config"));
    }
    let endpoint_pub_key = unwrap_or_kept(updated.get_peer_key(), &kept.endpoint_pub_key);
    if is_blank(endpoint_pub_key.as_str()) {
        return Err(String::from_str("No endpoint public key in response or existing config"));
    }
    let ipv4 = unwrap_or_kept(updated.get_own_v4(), &kept.ipv4);
    let ipv6 = unwrap_or_kept(updated.get_own_v6(), &kept.ipv6);
    if is_blank(ipv4.as_str()) && is_blank(ipv6.as_str()) {
        return Err(String::from_str("No interface addresses in response or existing config"));
    }
    Ok(
        Config {
            private_key: base64_encode(private_key_der),
            endpoint_v4,
            endpoint_v6,
            endpoint_pub_key,
            license,
            id: updated.id.clone(),
            access_token: kept.access_token.clone(),
            ipv4,
            ipv6,
        },
    )
}

/// A private and a public key in DER.
#[derive(Debug)]
pub struct EnrollKeys {
    pub private_key_der: Vec<u8>,
    pub public_key_der: Vec<u8>,
}

/// The keys that are enrolled when the device keeps the key that it has: the private key as it
/// stands in the configuration, and the public key for the number in it.
pub fn kept_keys(kept: &Config) -> (res: Result<EnrollKeys, String>)
    ensures
        match res {
            Ok(keys) => {
                &&& base64_decoded(kept.private_key@) == Ok::<Seq<u8>, Seq<char>>(
                    keys.private_key_der@,
                )
                &&& private_number(keys.private_key_der@) matches Ok(scalar) && public_key_of(
                    scalar,
                ) == Ok::<Seq<u8>, Seq<char>>(keys.public_key_der@)
            },
            Err(why) => why@ == match base64_decoded(kept.private_key@) {
                Err(reason) => "failed to parse config file: "@ + ("failed to decode private key: "@
                    + reason),
                Ok(der) => match private_number(der) {
                    Err(reason) => "crypto error: "@ + reason,
                    Ok(scalar) => match public_key_of(scalar) {
                        Err(reason) => "Failed to encode public key: "@ + reason,
                        Ok(_) => why@,
                    },
                },
            } && !(base64_decoded(kept.private_key@) matches Ok(der) && (private_number(
                der,
            ) matches Ok(scalar) && public_key_of(scalar) is Ok)),
        },
{
    let scalar: Vec<u8> = match kept.get_signing_key() {
        Ok(scalar) => scalar,
        Err(e) => {
            return Err(e.text());
        },
    };
    let public_key_der: Vec<u8> = match public_key(scalar.as_slice()) {
        Ok(der) => der,
        Err(why) => {
            return Err(String::from_str("Failed to encode public key: ").concat(why.as_str()));
        },
    };
    match kept.get_private_key_der() {
        Ok(private_key_der) => Ok(EnrollKeys { private_key_der, public_key_der }),
        Err(e) => Err(e.text()),
    }
}

/// The keys of a pair that was made for the device, or why there is none.
pub fn keys_to_enroll(made: Result<EcKeyPair, CryptoError>) -> (res: Result<EnrollKeys, String>)
    ensures
        match made {
            Ok(pair) => res matches Ok(keys) && keys.private_key_der == pair.private_key_der
                && keys.public_key_der == pair.public_key_der,
            Err(CryptoError::KeyGenError(why)) => res matches Err(told) && told@
                == "failed to generate key: "@ + why@,
            Err(CryptoError::EncodeError(why)) => res matches Err(told) && told@
                == "failed to encode key: "@ + why@,
            Err(CryptoError::RandomError(why)) => res matches Err(told) && told@
                == "random generation failed: "@ + why@,
        },
{
    match made {
        Ok(pair) => Ok(
            EnrollKeys {
                private_key_der: pair.private_key_der,
                public_key_der: pair.public_key_der,
            },
        ),
        Err(e) => Err(e.text()),
    }
}

/// Whether these are the keys of a private number, of which the private one is read back to the
/// number, or this is why there are none.
pub open spec fn keys_of_number(scalar: Seq<u8>, res: Result<EnrollKeys, String>) -> bool {
    match res {
        Ok(keys) => {
            &&& key_ders(scalar) == Ok::<(Seq<u8>, Seq<u8>), Seq<char>>(
                (keys.private_key_der@, keys.public_key_der@),
            )
            &&& private_number(keys.private_key_der@) == Ok::<Seq<u8>, Seq<char>>(scalar)
        },
        Err(told) => key_ders(scalar) matches Err(why) && told@ == "failed to encode key: "@ + why,
    }
}

/// The keys that are enrolled when the device gets a new key: those of some private number of 32
/// bytes. There are none only where p256 cannot write the keys of that number.
pub fn new_keys() -> (res: Result<EnrollKeys, String>)
    ensures
        exists|scalar: Seq<u8>| scalar.len() == 32 && #[trigger] keys_of_number(scalar, res),
{
    let made = generate_ec_key_pair();
    let ghost number = if made is Ok {
        (made->Ok_0).scalar@
    } else {
        choose|scalar: Seq<u8>| scalar.len() == 32 && #[trigger] tells_why(made->Err_0, scalar)
    };
    let res = keys_to_enroll(made);
    assert(keys_of_number(number, res));
    res
}

/// The port of a WireGuard server that names none.
pub const WG_PORT: u16 = 2408;

/// An IPv4 server as it stands in a configuration, given what its text stands for: the port is
/// filled in where it is missing or zero.
pub open spec fn v4_server(
    text: Seq<char>,
    socket: Option<ScopedSocket>,
    ip: Option<IpAddress>,
) -> Seq<char> {
    match socket {
        Some(socket) => if socket.address.port == 0 {
            socket_text(SocketAddress { ip: socket.address.ip, port: WG_PORT })
        } else {
            text
        },
        None => match ip {
            Some(ip) => socket_text(SocketAddress { ip, port: WG_PORT }),
            None => text + ":2408"@,
        },
    }
}

/// An IPv4 server as it stands in a configuration.
pub fn v4_server_text(text: &str) -> (server: String)
    ensures
        is_v4_server(text@, server@),
{
    let socket: Option<ScopedSocket> = parse_socket(text);
    let ip: Option<IpAddress> = parse_ip(text);
    assert(reads_as_socket(text@, socket) && reads_as(text@, ip));
    match socket {
        Some(socket) => if socket.address.port == 0 {
            socket_string(SocketAddress { ip: socket.address.ip, port: WG_PORT })
        } else {
            String::from_str(text)
        },
        None => match ip {
            Some(ip) => socket_string(SocketAddress { ip, port: WG_PORT }),
            None => String::from_str(text).concat(":2408"),
        },
    }
}

/// A square bracket.
pub open spec fn is_bracket(c: char) -> bool {
    c == '[' || c == ']'
}

/// A text without the square brackets at its ends.
pub open spec fn unbracketed(s: Seq<char>) -> Seq<char>
    decreases s.len(),
{
    if s.len() > 0 && is_bracket(s[0]) {
        unbracketed(s.subrange(1, s.len() as int))
    } else if s.len() > 0 && is_bracket(s.last()) {
        unbracketed(s.drop_last())
    } else {
        s
    }
}

/// Where `]:` stands first, at `from` or behind it; the length of the text if it does not.
pub open spec fn port_mark(s: Seq<char>, from: int) -> int
    decreases s.len() - from,
{
    if 0 <= from < s.len() && !(s[from] == ']' && from + 1 < s.len() && s[from + 1] == ':') {
        port_mark(s, from + 1)
    } else {
        from
    }
}

/// What stands before `]:`.
pub open spec fn before_port_mark(s: Seq<char>) -> Seq<char> {
    s.subrange(0, port_mark(s, 0))
}

fn unbracket(text: &str) -> (out: String)
    ensures
        out@ == unbracketed(text@),
{
    let chars = chars_of(text);
    let mut from: usize = 0;
    let mut to: usize = chars.len();
    assert(text@.subrange(0, to as int) =~= text@);
    while from < to && (chars[from] == '[' || chars[from] == ']')
        invariant
            chars@ == text@,
            from <= to == chars@.len(),
            unbracketed(text@) == unbracketed(text@.subrange(from as int, to as int)),
        decreases to - from,
    {
        assert(text@.subrange(from as int, to as int).subrange(1, to - from) =~= text@.subrange(
            from + 1,
            to as int,
        ));
        from += 1;
    }
    while from < to && (chars[to - 1] == '[' || chars[to - 1] == ']')
        invariant
            chars@ == text@,
            from <= to <= chars@.len(),
            from < to ==> !is_bracket(text@[from as int]),
            unbracketed(text@) == unbracketed(text@.subrange(from as int, to as int)),
        decreases to - from,
    {
        assert(text@.subrange(from as int, to as int).drop_last() =~= text@.subrange(
            from as int,
            to - 1,
        ));
        to -= 1;
    }
    string_of(&chars, from, to)
}

fn cut_port_mark(text: &str) -> (out: String)
    ensures
        out@ == before_port_mark(text@),
{
    let chars = chars_of(text);
    let mut at: usize = 0;
    while at < chars.len() && !(chars[at] == ']' && at + 1 < chars.len() && chars[at + 1] == ':')
        invariant
            chars@ == text@,
            at <= chars@.len(),
            port_mark(text@, 0) == port_mark(text@, at as int),
        decreases chars@.len() - at,
    {
        at += 1;
    }
    string_of(&chars, 0, at)
}

/// An IPv6 server as it stands in a configuration, given what its text stands for, without the
/// brackets at its ends (`bare`) and with them (`whole`).
pub open spec fn v6_server(
    text: Seq<char>,
    bare: Option<ScopedSocket>,
    whole: Option<ScopedSocket>,
) -> Seq<char> {
    let socket = if bare is Some {
        bare
    } else {
        whole
    };
    match socket {
        Some(socket) => if socket.address.port == 0 {
            socket_text(SocketAddress { ip: socket.address.ip, port: WG_PORT })
        } else {
            scoped_text(socket)
        },
        None => {
            let host = before_port_mark(unbracketed(text));
            match ipv6_parsed(host) {
                Some(octets) => seq!['['] + ipv6_text(octets) + seq![']', ':']
                    + decimal(WG_PORT as nat),
                None => "["@ + host + "]:2408"@,
            }
        },
    }
}

/// An IPv6 server as it stands in a configuration.
pub fn v6_server_text(text: &str) -> (server: String)
    ensures
        is_v6_server(text@, server@),
{
    let trimmed = unbracket(text);
    let bare: Option<ScopedSocket> = parse_socket(trimmed.as_str());
    let whole: Option<ScopedSocket> = parse_socket(text);
    assert(reads_as_socket(unbracketed(text@), bare) && reads_as_socket(text@, whole));
    let socket: Option<ScopedSocket> = match bare {
        Some(socket) => Some(socket),
        None => whole,
    };
    match socket {
        Some(socket) => if socket.address.port == 0 {
            socket_string(SocketAddress { ip: socket.address.ip, port: WG_PORT })
        } else {
            scoped_string(socket)
        },
        None => {
            let host = cut_port_mark(trimmed.as_str());
            match parse_ipv6(host.as_str()) {
                Some(octets) => socket_string(
                    SocketAddress { ip: IpAddress::V6(octets), port: WG_PORT },
                ),
                None => String::from_str("[").concat(host.as_str()).concat("]:2408"),
            }
        },
    }
}

/// What is missing in the reply to a new WireGuard device.
pub open spec fn wg_gap(account: AccountData) -> Option<Seq<char>> {
    if account.token is None {
        Some("No token in response"@)
    } else if account.first_peer() is None {
        Some("No peer info in response"@)
    } else if !account.has_addresses() {
        Some("No interface addresses in response"@)
    } else if account.config.client_id is None {
        Some("No client_id in response"@)
    } else if or_empty(account.peer_v4()).len() == 0 {
        Some("No endpoint v4 in response"@)
    } else if or_empty(account.own_v4()).len() == 0 {
        Some("No IPv4 address in response"@)
    } else {
        None
    }
}

/// Whether a text is the IPv4 server of a configuration.
pub open spec fn is_v4_server(text: Seq<char>, server: Seq<char>) -> bool {
    exists|socket: Option<ScopedSocket>, ip: Option<IpAddress>| #[trigger]
        reads_as_socket(text, socket) && #[trigger] reads_as(text, ip) && server == v4_server(
            text,
            socket,
            ip,
        )
}

/// Whether a text is the IPv6 server of a configuration.
pub open spec fn is_v6_server(text: Seq<char>, server: Seq<char>) -> bool {
    exists|bare: Option<ScopedSocket>, whole: Option<ScopedSocket>| #[trigger]
        reads_as_socket(unbracketed(text), bare) && #[trigger] reads_as_socket(text, whole)
            && server == v6_server(text, bare, whole)
}

/// The configuration of a new WireGuard device.
pub fn wg_config(private_key: &[u8], account: &AccountData) -> (res: Result<WgConfig, String>)
    ensures
        match res {
            Ok(config) => {
                &&& wg_gap(*account) is None
                &&& config.device_id@ == account.id@
                &&& config.private_key@ == base64_text(private_key@)
                &&& base64_decoded(config.private_key@) == Ok::<Seq<u8>, Seq<char>>(private_key@)
                &&& Some(config.token@) == shown(account.token)
                &&& Some(config.client_id@) == shown(account.config.client_id)
                &&& config.account_type@ == "free"@
                &&& config.mtu == 1280
                &&& Some(config.peer_public_key@) == account.peer_key()
                &&& is_v4_server(or_empty(account.peer_v4()), config.endpoint@)
                &&& match account.peer_v6() {
                    Some(text) => config.endpoint6 matches Some(server) && is_v6_server(
                        text,
                        server@,
                    ),
                    None => config.endpoint6 is None,
                }
                &&& config.keepalive == 30
                &&& config.address@ == or_empty(account.own_v4()) + "/32"@
                &&& shown(config.address6) == match account.own_v6() {
                    Some(v6) => Some(v6 + "/128"@),
                    None => None,
                }
                &&& config.dns@ == "1.1.1.1"@
            },
            Err(why) => wg_gap(*account) == Some(why@),
        },
{
    let token: String = match account_token(account) {
        Ok(token) => token,
        Err(why) => {
            return Err(why);
        },
    };
    let peer_public_key: String = match account.get_peer_key() {
        Some(key) => key,
        None => {
            return Err(String::from_str("No peer info in response"));
        },
    };
    let addressed: bool = match &account.config.interface_config {
        Some(interface) => interface.addresses.is_some(),
        None => false,
    };
    if !addressed {
        return Err(String::from_str("No interface addresses in response"));
    }
    let client_id: String = match copied(&account.config.client_id) {
        Some(client_id) => client_id,
        None => {
            return Err(String::from_str("No client_id in response"));
        },
    };
    let endpoint_v4 = unwrap_or_empty(account.get_peer_v4());
    if is_empty(&endpoint_v4) {
        return Err(String::from_str("No endpoint v4 in response"));
    }
    let ipv4 = unwrap_or_empty(account.get_own_v4());
    if is_empty(&ipv4) {
        return Err(String::from_str("No IPv4 address in response"));
    }
    let endpoint6: Option<String> = match account.get_peer_v6() {
        Some(text) => Some(v6_server_text(text.as_str())),
        None => None,
    };
    let address6: Option<String> = match account.get_own_v6() {
        Some(v6) => Some(v6.concat("/128")),
        None => None,
    };
    Ok(
        WgConfig {
            device_id: account.id.clone(),
            private_key: base64_encode(private_key),
            token,
            client_id,
            account_type: String::from_str("free"),
            mtu: 1280,
            peer_public_key,
            endpoint: v4_server_text(endpoint_v4.as_str()),
            endpoint6,
            keepalive: 30,
            address: ipv4.concat("/32"),
            address6,
            dns: String::from_str("1.1.1.1"),
        },
    )
}

/// What a reply says of the server is what its first peer says, whatever else it names.
pub proof fn the_first_peer_counts(account: AccountData, text: Seq<char>)
    ensures
        account.peer_v4() == Some(text) <==> {
            &&& account.config.peers is Some
            &&& account.config.peers->0@.len() > 0
            &&& account.config.peers->0@[0].endpoint is Some
            &&& account.config.peers->0@[0].endpoint->0.v4 is Some
            &&& account.config.peers->0@[0].endpoint->0.v4->0@ == text
        },
        account.peer_v6() == Some(text) <==> {
            &&& account.config.peers is Some
            &&& account.config.peers->0@.len() > 0
            &&& account.config.peers->0@[0].endpoint is Some
            &&& account.config.peers->0@[0].endpoint->0.v6 is Some
            &&& account.config.peers->0@[0].endpoint->0.v6->0@ == text
        },
        account.peer_key() == Some(text) <==> {
            &&& account.config.peers is Some
            &&& account.config.peers->0@.len() > 0
            &&& account.config.peers->0@[0].public_key@ == text
        },
{
}

/// What a reply says of the device is what its interface says.
pub proof fn the_interface_counts(account: AccountData, text: Seq<char>)
    ensures
        account.own_v4() == Some(text) <==> {
            &&& account.config.interface_config is Some
            &&& account.config.interface_config->0.addresses is Some
            &&& account.config.interface_config->0.addresses->0.v4 is Some
            &&& account.config.interface_config->0.addresses->0.v4->0@ == text
        },
        account.own_v6() == Some(text) <==> {
            &&& account.config.interface_config is Some
            &&& account.config.interface_config->0.addresses is Some
            &&& account.config.interface_config->0.addresses->0.v6 is Some
            &&& account.config.interface_config->0.addresses->0.v6->0@ == text
        },
        account.license() == Some(text) <==> account.account.license is Some
            && account.account.license->0@ == text,
        account.has_addresses() <==> account.config.interface_config is Some
            && account.config.interface_config->0.addresses is Some,
{
}

/// A new enrollment takes every value that the reply names, whatever the old configuration held:
/// the server's address and key from the first peer, the device's addresses from the interface, and
/// the license. Only where the reply names none does the old value stay.
pub proof fn enrollment_follows_the_reply(kept: Config, updated: AccountData, config: Config)
    requires
        config.endpoint_v4@ == or_kept(updated.peer_v4(), kept.endpoint_v4@),
        config.endpoint_v6@ == or_kept(updated.peer_v6(), kept.endpoint_v6@),
        config.endpoint_pub_key@ == or_kept(updated.peer_key(), kept.endpoint_pub_key@),
        config.license@ == or_kept(updated.license(), kept.license@),
        config.ipv4@ == or_kept(updated.own_v4(), kept.ipv4@),
        config.ipv6@ == or_kept(updated.own_v6(), kept.ipv6@),
    ensures
        match updated.config.peers {
            Some(peers) if peers@.len() > 0 => {
                &&& config.endpoint_pub_key@ == peers@[0].public_key@
                &&& match peers@[0].endpoint {
                    Some(endpoint) => {
                        &&& endpoint.v4 is Some ==> config.endpoint_v4@ == endpoint.v4->0@
                        &&& endpoint.v4 is None ==> config.endpoint_v4@ == kept.endpoint_v4@
                        &&& endpoint.v6 is Some ==> config.endpoint_v6@ == endpoint.v6->0@
                        &&& endpoint.v6 is None ==> config.endpoint_v6@ == kept.endpoint_v6@
                    },
                    None => config.endpoint_v4@ == kept.endpoint_v4@ && config.endpoint_v6@
                        == kept.endpoint_v6@,
                }
            },
            _ => {
                &&& config.endpoint_pub_key@ == kept.endpoint_pub_key@
                &&& config.endpoint_v4@ == kept.endpoint_v4@
                &&& config.endpoint_v6@ == kept.endpoint_v6@
            },
        },
        match updated.config.interface_config {
            Some(interface) if interface.addresses is Some => {
                let own = interface.addresses->0;
                &&& own.v4 is Some ==> config.ipv4@ == own.v4->0@
                &&& own.v4 is None ==> config.ipv4@ == kept.ipv4@
                &&& own.v6 is Some ==> config.ipv6@ == own.v6->0@
                &&& own.v6 is None ==> config.ipv6@ == kept.ipv6@
            },
            _ => config.ipv4@ == kept.ipv4@ && config.ipv6@ == kept.ipv6@,
        },
        updated.account.license is Some ==> config.license@ == updated.account.license->0@,
        updated.account.license is None ==> config.license@ == kept.license@,
{
}

/// A new enrollment is refused if and only if the new configuration would have no server, no key of
/// the server or no address of its own: nothing but white space.
pub proof fn enrollment_needs_all_parts(kept: Config, updated: AccountData, config: Config)
    requires
        config.endpoint_v4@ == or_kept(updated.peer_v4(), kept.endpoint_v4@),
        config.endpoint_v6@ == or_kept(updated.peer_v6(), kept.endpoint_v6@),
        config.endpoint_pub_key@ == or_kept(updated.peer_key(), kept.endpoint_pub_key@),
        config.ipv4@ == or_kept(updated.own_v4(), kept.ipv4@),
        config.ipv6@ == or_kept(updated.own_v6(), kept.ipv6@),
    ensures
        renewal_gap(kept, updated) is None <==> {
            &&& !blank(config.endpoint_v4@) || !blank(config.endpoint_v6@)
            &&& !blank(config.endpoint_pub_key@)
            &&& !blank(config.ipv4@) || !blank(config.ipv6@)
        },
        blank(config.endpoint_v4@) && blank(config.endpoint_v6@) ==> renewal_gap(kept, updated)
            == Some("No endpoint info in response or existing config"@),
        (!blank(config.endpoint_v4@) || !blank(config.endpoint_v6@)) && blank(
            config.endpoint_pub_key@,
        ) ==> renewal_gap(kept, updated) == Some(
            "No endpoint public key in response or existing config"@,
        ),
        (!blank(config.endpoint_v4@) || !blank(config.endpoint_v6@)) && !blank(
            config.endpoint_pub_key@,
        ) && blank(config.ipv4@) && blank(config.ipv6@) ==> renewal_gap(kept, updated) == Some(
            "No interface addresses in response or existing config"@,
        ),
{
}

/// A new device's configuration has what the reply says, and an empty text where it says nothing. A
/// reply without a server, without a key of the server or without an address for the device is
/// refused, in this order.
pub proof fn registration_follows_the_reply(updated: AccountData, config: Config)
    requires
        config.endpoint_v4@ == or_empty(updated.peer_v4()),
        config.endpoint_v6@ == or_empty(updated.peer_v6()),
        config.endpoint_pub_key@ == or_empty(updated.peer_key()),
        config.license@ == or_empty(updated.license()),
        config.ipv4@ == or_empty(updated.own_v4()),
        config.ipv6@ == or_empty(updated.own_v6()),
    ensures
        match updated.config.peers {
            Some(peers) if peers@.len() > 0 => {
                &&& config.endpoint_pub_key@ == peers@[0].public_key@
                &&& match peers@[0].endpoint {
                    Some(endpoint) => {
                        &&& endpoint.v4 is Some ==> config.endpoint_v4@ == endpoint.v4->0@
                        &&& endpoint.v4 is None ==> config.endpoint_v4@.len() == 0
                        &&& endpoint.v6 is Some ==> config.endpoint_v6@ == endpoint.v6->0@
                        &&& endpoint.v6 is None ==> config.endpoint_v6@.len() == 0
                    },
                    None => config.endpoint_v4@.len() == 0 && config.endpoint_v6@.len() == 0,
                }
            },
            _ => {
                &&& config.endpoint_pub_key@.len() == 0
                &&& config.endpoint_v4@.len() == 0
                &&& config.endpoint_v6@.len() == 0
            },
        },
        match updated.config.interface_config {
            Some(interface) if interface.addresses is Some => {
                let own = interface.addresses->0;
                &&& own.v4 is Some ==> config.ipv4@ == own.v4->0@
                &&& own.v4 is None ==> config.ipv4@.len() == 0
                &&& own.v6 is Some ==> config.ipv6@ == own.v6->0@
                &&& own.v6 is None ==> config.ipv6@.len() == 0
            },
            _ => config.ipv4@.len() == 0 && config.ipv6@.len() == 0,
        },
        updated.account.license is Some ==> config.license@ == updated.account.license->0@,
        updated.account.license is None ==> config.license@.len() == 0,
        enrollment_gap(updated) is None <==> {
            &&& config.endpoint_v4@.len() > 0 || config.endpoint_v6@.len() > 0
            &&& !blank(config.endpoint_pub_key@)
            &&& config.ipv4@.len() > 0 || config.ipv6@.len() > 0
        },
        config.endpoint_v4@.len() == 0 && config.endpoint_v6@.len() == 0 ==> enrollment_gap(updated)
            == Some("No endpoint info in response"@),
        (config.endpoint_v4@.len() > 0 || config.endpoint_v6@.len() > 0) && blank(
            config.endpoint_pub_key@,
        ) ==> enrollment_gap(updated) == Some("No endpoint public key in response"@),
        (config.endpoint_v4@.len() > 0 || config.endpoint_v6@.len() > 0) && !blank(
            config.endpoint_pub_key@,
        ) && config.ipv4@.len() == 0 && config.ipv6@.len() == 0 ==> enrollment_gap(updated) == Some(
            "No interface addresses in response"@,
        ),
{
}

/// A reply makes a WireGuard device if and only if it has a token, a first peer with an IPv4 server,
/// an IPv4 address for the device, and a client number.
pub proof fn a_wg_reply_needs_all_parts(account: AccountData)
    ensures
        wg_gap(account) is None <==> {
            &&& account.token is Some
            &&& account.config.client_id is Some
            &&& account.config.peers is Some
            &&& account.config.peers->0@.len() > 0
            &&& account.config.peers->0@[0].endpoint is Some
            &&& account.config.peers->0@[0].endpoint->0.v4 is Some
            &&& account.config.peers->0@[0].endpoint->0.v4->0@.len() > 0
            &&& account.config.interface_config is Some
            &&& account.config.interface_config->0.addresses is Some
            &&& account.config.interface_config->0.addresses->0.v4 is Some
            &&& account.config.interface_config->0.addresses->0.v4->0@.len() > 0
        },
        account.token is None ==> wg_gap(account) == Some("No token in response"@),
        ({
            let peer = account.config.peers is Some && account.config.peers->0@.len() > 0;
            let own = account.config.interface_config is Some
                && account.config.interface_config->0.addresses is Some;
            let id = account.config.client_id is Some;
            let server = peer && account.config.peers->0@[0].endpoint is Some
                && account.config.peers->0@[0].endpoint->0.v4 is Some
                && account.config.peers->0@[0].endpoint->0.v4->0@.len() > 0;
            &&& account.token is Some && !peer ==> wg_gap(account) == Some(
                "No peer info in response"@,
            )
            &&& account.token is Some && peer && !own ==> wg_gap(account) == Some(
                "No interface addresses in response"@,
            )
            &&& account.token is Some && peer && own && !id ==> wg_gap(account) == Some(
                "No client_id in response"@,
            )
            &&& account.token is Some && peer && own && id && !server ==> wg_gap(account) == Some(
                "No endpoint v4 in response"@,
            )
            &&& account.token is Some && own && id && server && !(
            account.config.interface_config->0.addresses->0.v4 is Some
                && account.config.interface_config->0.addresses->0.v4->0@.len() > 0) ==> wg_gap(
                account,
            ) == Some("No IPv4 address in response"@)
        }),
{
}

/// The server's port stays if it is named and is not zero; otherwise it is 2408. Its address stays
/// in any case. A text that stands for no address stays too, with the port behind it.
pub proof fn a_wg_server_gets_a_port(
    text: Seq<char>,
    socket: Option<ScopedSocket>,
    ip: Option<IpAddress>,
)
    ensures
        socket matches Some(at) ==> at.address.port != 0 ==> v4_server(text, socket, ip) == text,
        socket matches Some(at) ==> at.address.port == 0 ==> v4_server(text, socket, ip)
            == socket_text(SocketAddress { ip: at.address.ip, port: 2408 }),
        socket is None && ip is Some ==> v4_server(text, socket, ip) == socket_text(
            SocketAddress { ip: ip->0, port: 2408 },
        ),
        socket is None && ip is None ==> v4_server(text, socket, ip) == text + seq![
            ':',
            '2',
            '4',
            '0',
            '8',
        ],
{
    reveal_strlit(":2408");
    assert(":2408"@ =~= seq![':', '2', '4', '0', '8']);
}

/// The same of an IPv6 server, whose text may stand in brackets: what it stands for without them
/// comes first.
pub proof fn a_wg_server_of_ipv6_gets_a_port(
    text: Seq<char>,
    bare: Option<ScopedSocket>,
    whole: Option<ScopedSocket>,
)
    ensures
        bare matches Some(at) ==> v6_server(text, bare, whole) == if at.address.port == 0 {
            socket_text(SocketAddress { ip: at.address.ip, port: 2408 })
        } else {
            scoped_text(at)
        },
        bare is None ==> (whole matches Some(at) ==> v6_server(text, bare, whole)
            == if at.address.port == 0 {
            socket_text(SocketAddress { ip: at.address.ip, port: 2408 })
        } else {
            scoped_text(at)
        }),
        bare is None && whole is None ==> {
            let host = before_port_mark(unbracketed(text));
            v6_server(text, bare, whole) == seq!['['] + (match ipv6_parsed(host) {
                Some(octets) => ipv6_text(octets),
                None => host,
            }) + seq![']', ':', '2', '4', '0', '8']
        },
{
    reveal_strlit("[");
    reveal_strlit("]:2408");
    assert("["@ =~= seq!['[']);
    assert("]:2408"@ =~= seq![']', ':', '2', '4', '0', '8']);
    let host = before_port_mark(unbracketed(text));
    assert(decimal(2408) =~= seq!['2', '4', '0', '8']) by {
        reveal_with_fuel(decimal, 5);
    }
    if ipv6_parsed(host) is Some {
        let ip = ipv6_text(ipv6_parsed(host)->0);
        assert(seq!['['] + ip + seq![']', ':'] + decimal(2408) =~= seq!['['] + ip + seq![
            ']',
            ':',
            '2',
            '4',
            '0',
            '8',
        ]);
    }
}

proof fn bracket_ends(s: Seq<char>) -> (ends: (int, int))
    ensures
        0 <= ends.0 <= ends.1 <= s.len(),
        unbracketed(s) == s.subrange(ends.0, ends.1),
        forall|i: int| 0 <= i < ends.0 ==> is_bracket(#[trigger] s[i]),
        forall|i: int| ends.1 <= i < s.len() ==> is_bracket(#[trigger] s[i]),
        ends.0 < ends.1 ==> !is_bracket(s[ends.0]) && !is_bracket(s[ends.1 - 1]),
    decreases s.len(),
{
    if s.len() > 0 && is_bracket(s[0]) {
        let shorter = s.subrange(1, s.len() as int);
        let ends = bracket_ends(shorter);
        assert(s.subrange(ends.0 + 1, ends.1 + 1) =~= shorter.subrange(ends.0, ends.1));
        assert forall|i: int| 0 <= i < ends.0 + 1 implies is_bracket(#[trigger] s[i]) by {
            if i > 0 {
                assert(s[i] == shorter[i - 1]);
            }
        }
        assert forall|i: int| ends.1 + 1 <= i < s.len() implies is_bracket(#[trigger] s[i]) by {
            assert(s[i] == shorter[i - 1]);
        }
        (ends.0 + 1, ends.1 + 1)
    } else if s.len() > 0 && is_bracket(s.last()) {
        let shorter = s.drop_last();
        let ends = bracket_ends(shorter);
        assert(s.subrange(ends.0, ends.1) =~= shorter.subrange(ends.0, ends.1));
        assert forall|i: int| 0 <= i < ends.0 implies is_bracket(#[trigger] s[i]) by {
            assert(s[i] == shorter[i]);
        }
        assert forall|i: int| ends.1 <= i < s.len() implies is_bracket(#[trigger] s[i]) by {
            if i < shorter.len() {
                assert(s[i] == shorter[i]);
            }
        }
        ends
    } else {
        assert(s.subrange(0, s.len() as int) =~= s);
        (0, s.len() as int)
    }
}

/// Brackets at the ends of a text are taken off, all of them and nothing else.
pub proof fn brackets_are_taken_off(s: Seq<char>)
    ensures
        exists|from: int, to: int|
            #![trigger s.subrange(from, to)]
            {
                &&& 0 <= from <= to <= s.len()
                &&& unbracketed(s) == s.subrange(from, to)
                &&& forall|i: int| 0 <= i < from ==> #[trigger] s[i] == '[' || s[i] == ']'
                &&& forall|i: int| to <= i < s.len() ==> #[trigger] s[i] == '[' || s[i] == ']'
                &&& from < to ==> s[from] != '[' && s[from] != ']' && s[to - 1] != '[' && s[to - 1]
                    != ']'
            },
{
    let ends = bracket_ends(s);
    assert(unbracketed(s) == s.subrange(ends.0, ends.1));
}

/// The host ends before the first `]:`; without that mark it is the whole text.
pub proof fn the_host_ends_before_its_port(s: Seq<char>)
    ensures
        before_port_mark(s).len() <= s.len(),
        before_port_mark(s) == s.take(before_port_mark(s).len() as int),
        before_port_mark(s).len() < s.len() ==> {
            let n = before_port_mark(s).len() as int;
            n + 1 < s.len() && s[n] == ']' && s[n + 1] == ':'
        },
        forall|i: int|
            0 <= i < before_port_mark(s).len() && i + 1 < s.len() ==> !(#[trigger] s[i] == ']'
                && s[i + 1] == ':'),
{
    port_mark_is_first(s, 0);
    assert(s.subrange(0, port_mark(s, 0)) =~= s.take(port_mark(s, 0)));
}

proof fn port_mark_is_first(s: Seq<char>, from: int)
    requires
        0 <= from <= s.len(),
    ensures
        from <= port_mark(s, from) <= s.len(),
        port_mark(s, from) < s.len() ==> port_mark(s, from) + 1 < s.len() && s[port_mark(s, from)]
            == ']' && s[port_mark(s, from) + 1] == ':',
        forall|i: int|
            from <= i < port_mark(s, from) && i + 1 < s.len() ==> !(#[trigger] s[i] == ']' && s[i
                + 1] == ':'),
    decreases s.len() - from,
{
    if from < s.len() && !(s[from] == ']' && from + 1 < s.len() && s[from + 1] == ':') {
        port_mark_is_first(s, from + 1);
    }
}

/// A server that names a port other than zero is kept as it stands; one that is a bare address gets
/// the port 2408.
pub proof fn a_named_port_is_kept(
    text: Seq<char>,
    server: Seq<char>,
    socket: ScopedSocket,
    ip: IpAddress,
)
    requires
        is_v4_server(text, server),
    ensures
        reads_as_socket(text, Some(socket)) && socket.address.port != 0 ==> server == text,
        reads_as_socket(text, Some(socket)) && socket.address.port == 0 ==> server == socket_text(
            SocketAddress { ip: socket.address.ip, port: 2408 },
        ),
        reads_as_socket(text, None) && reads_as(text, Some(ip)) ==> server == socket_text(
            SocketAddress { ip, port: 2408 },
        ),
{
    let (found, own) = choose|found: Option<ScopedSocket>, own: Option<IpAddress>| #[trigger]
        reads_as_socket(text, found) && #[trigger] reads_as(text, own) && server == v4_server(
            text,
            found,
            own,
        );
    if reads_as_socket(text, Some(socket)) {
        crate::addr::socket_is_unique(text, found, Some(socket));
    }
    if reads_as_socket(text, None) {
        crate::addr::socket_is_unique(text, found, None);
    }
    if reads_as(text, Some(ip)) {
        crate::addr::address_is_unique(text, own, Some(ip));
    }
}

} // verus!
