//! The messages of SOCKS5.

use crate::addr::{IpAddress, SocketAddress};
use crate::proxy::Socks5Error;
use futures::FutureExt;
use vstd::prelude::*;
use vstd::slice::slice_subrange;
use vstd::utf8::{decode_utf8, valid_utf8};

verus! {

pub const SOCKS5_VERSION: u8 = 5;

pub const AUTH_NO_AUTH: u8 = 0;

pub const CMD_CONNECT: u8 = 1;

pub const CMD_UDP_ASSOCIATE: u8 = 3;

pub const ATYP_IPV4: u8 = 1;

pub const ATYP_DOMAIN: u8 = 3;

pub const ATYP_IPV6: u8 = 4;

pub const REP_SUCCESS: u8 = 0;

pub const REP_GENERAL_FAILURE: u8 = 1;

pub const REP_CMD_NOT_SUPPORTED: u8 = 7;

/// Where a client wants to go.
#[derive(Debug)]
pub enum SocksTarget {
    Ip(SocketAddress),
    Domain(String, u16),
}

/// A target as values.
pub enum TargetView {
    Ip(SocketAddress),
    Domain(Seq<char>, u16),
}

impl View for SocksTarget {
    type V = TargetView;

    open spec fn view(&self) -> TargetView {
        match self {
            SocksTarget::Ip(address) => TargetView::Ip(*address),
            SocksTarget::Domain(name, port) => TargetView::Domain(name@, *port),
        }
    }
}

/// A 16-bit number in network order.
pub open spec fn be16(n: u16) -> Seq<u8> {
    seq![(n / 256) as u8, (n % 256) as u8]
}

/// The number that two bytes in network order stand for.
pub open spec fn be16_at(data: Seq<u8>, at: int) -> int {
    data[at] * 256 + data[at + 1]
}

/// The bytes of an IP address.
pub open spec fn octets_of(ip: IpAddress) -> Seq<u8> {
    match ip {
        IpAddress::V4(octets) => octets@,
        IpAddress::V6(octets) => octets@,
    }
}

/// The number of an IP address's kind.
pub open spec fn kind_of(ip: IpAddress) -> u8 {
    match ip {
        IpAddress::V4(_) => ATYP_IPV4,
        IpAddress::V6(_) => ATYP_IPV6,
    }
}

/// An address and a port as they stand in a message.
pub open spec fn address_bytes(address: SocketAddress) -> Seq<u8> {
    seq![kind_of(address.ip)] + octets_of(address.ip) + be16(address.port)
}

fn push_address(out: &mut Vec<u8>, address: SocketAddress)
    ensures
        final(out)@ == old(out)@ + address_bytes(address),
{
    match address.ip {
        IpAddress::V4(octets) => {
            out.push(ATYP_IPV4);
            out.extend_from_slice(octets.as_slice());
        },
        IpAddress::V6(octets) => {
            out.push(ATYP_IPV6);
            out.extend_from_slice(octets.as_slice());
        },
    }
    out.push((address.port / 256) as u8);
    out.push((address.port % 256) as u8);
    assert(out@ =~= old(out)@ + address_bytes(address));
}

/// A reply of the proxy.
pub open spec fn reply_message(rep: u8, address: SocketAddress) -> Seq<u8> {
    seq![SOCKS5_VERSION, rep, 0] + address_bytes(address)
}

/// The reply that says where the proxy listens, or who has connected.
pub fn build_bind_reply(address: SocketAddress) -> (reply: Vec<u8>)
    ensures
        reply@ == reply_message(REP_SUCCESS, address),
{
    let mut reply: Vec<u8> = Vec::new();
    reply.push(SOCKS5_VERSION);
    reply.push(REP_SUCCESS);
    reply.push(0);
    push_address(&mut reply, address);
    assert(reply@ =~= reply_message(REP_SUCCESS, address));
    reply
}

/// The reply that refuses a request.
pub fn error_response(rep: u8) -> (reply: Vec<u8>)
    ensures
        reply@ == seq![SOCKS5_VERSION, rep, 0, ATYP_IPV4, 0, 0, 0, 0, 0, 0],
{
    vec![SOCKS5_VERSION, rep, 0, ATYP_IPV4, 0, 0, 0, 0, 0, 0]
}

/// The packet that brings data from a remote to the client.
pub open spec fn relayed(remote: SocketAddress, data: Seq<u8>) -> Seq<u8> {
    seq![0u8, 0, 0] + address_bytes(remote) + data
}

/// The packet that brings data from a remote to the client.
pub fn build_udp_packet(remote: SocketAddress, data: &[u8]) -> (packet: Vec<u8>)
    ensures
        packet@ == relayed(remote, data@),
{
    let mut packet: Vec<u8> = vec![0, 0, 0];
    push_address(&mut packet, remote);
    packet.extend_from_slice(data);
    assert(packet@ =~= relayed(remote, data@));
    packet
}

/// Whether a header is that of a packet from a remote.
pub open spec fn heads(res: Result<Vec<u8>, String>, remote: SocketAddress) -> bool {
    res matches Ok(header) && header@ == relayed(remote, Seq::empty())
}

/// `new_udp_header` of fast-socks5, for an IP address: three zeros, then the address and the port.
/// It does not fail for an IP address.
#[verifier::external_body]
fn udp_header(remote: SocketAddress) -> (res: Result<Vec<u8>, String>)
    ensures
        heads(res, remote),
{
    let header = match remote.ip {
        IpAddress::V4(o) => fast_socks5::new_udp_header((smoltcp::wire::Ipv4Address::from(o), remote.port)),
        IpAddress::V6(o) => fast_socks5::new_udp_header((smoltcp::wire::Ipv6Address::from(o), remote.port)),
    };
    header.map_err(|e| format!("{:?}", e))
}

/// The packet that brings data from a remote to the client.
pub fn build_udp_response(remote: SocketAddress, data: &[u8]) -> (res: Result<Vec<u8>, Socks5Error>)
    ensures
        res matches Ok(packet) && packet@ == relayed(remote, data@),
{
    match udp_header(remote) {
        Ok(header) => {
            let mut packet: Vec<u8> = header;
            packet.extend_from_slice(data);
            assert(packet@ =~= relayed(remote, data@));
            Ok(packet)
        },
        Err(why) => Err(
            Socks5Error::ProtocolError(
                String::from_str("Failed to build UDP header: ").concat(why.as_str()),
            ),
        ),
    }
}

/// Where a packet from the client is to go, and what it carries.
#[derive(Debug)]
pub struct UdpRequest {
    pub frag: u8,
    pub target: SocksTarget,
    pub payload: Vec<u8>,
}

/// A packet from the client as values.
pub struct UdpRequestView {
    pub frag: u8,
    pub target: TargetView,
    pub payload: Seq<u8>,
}

impl View for UdpRequest {
    type V = UdpRequestView;

    open spec fn view(&self) -> UdpRequestView {
        UdpRequestView { frag: self.frag, target: self.target@, payload: self.payload@ }
    }
}

/// Whether a target stands in a message from `at` on, after the number of its kind, and ends before
/// `end`.
pub open spec fn target_at(data: Seq<u8>, at: int, target: TargetView, end: int) -> bool {
    &&& 0 <= at < data.len()
    &&& at < end <= data.len()
    &&& match target {
        TargetView::Ip(address) => {
            &&& data[at] == kind_of(address.ip)
            &&& end == at + 3 + octets_of(address.ip).len()
            &&& data.subrange(at + 1, end - 2) == octets_of(address.ip)
            &&& be16_at(data, end - 2) == address.port
        },
        TargetView::Domain(name, port) => {
            &&& data[at] == ATYP_DOMAIN
            &&& at + 1 < data.len()
            &&& end == at + 4 + data[at + 1]
            &&& valid_utf8(data.subrange(at + 2, end - 2))
            &&& name == decode_utf8(data.subrange(at + 2, end - 2))
            &&& be16_at(data, end - 2) == port
        },
    }
}

/// Where a target that starts at `at` ends, if one does.
pub open spec fn target_end(data: Seq<u8>, at: int) -> Option<int> {
    if !(0 <= at < data.len()) {
        None
    } else if data[at] == ATYP_IPV4 && data.len() >= at + 7 {
        Some(at + 7)
    } else if data[at] == ATYP_IPV6 && data.len() >= at + 19 {
        Some(at + 19)
    } else if data[at] == ATYP_DOMAIN && data.len() >= at + 2 && data.len() >= at + 4 + data[at + 1]
        && valid_utf8(data.subrange(at + 2, at + 2 + data[at + 1])) {
        Some(at + 4 + data[at + 1])
    } else {
        None
    }
}

/// Where the target of a packet from the client ends, if the packet is one: two zeros, the number
/// of the fragment, and the target.
pub open spec fn request_end(data: Seq<u8>) -> Option<int> {
    if data.len() >= 4 && data[0] == 0 && data[1] == 0 {
        target_end(data, 3)
    } else {
        None
    }
}

/// Whether a packet from the client was read.
pub open spec fn reads_request(data: Seq<u8>, res: Option<UdpRequest>) -> bool {
    match res {
        Some(request) => {
            &&& request_end(data) matches Some(end) && target_at(data, 3, request.target@, end)
                && request.payload@ == data.subrange(end, data.len() as int)
            &&& request.frag == data[2]
        },
        None => request_end(data) is None,
    }
}

/// `parse_udp_request` of fast-socks5, which reads from memory and so never waits: two zeros, the
/// number of the fragment, the target, and what follows it.
#[verifier::external_body]
pub(crate) fn read_udp_request(data: &[u8]) -> (res: Option<UdpRequest>)
    ensures
        reads_request(data@, res),
{
    let (frag, target, rest) = fast_socks5::parse_udp_request(data).now_or_never()?.ok()?;
    let target = match target {
        fast_socks5::util::target_addr::TargetAddr::Domain(name, port) => SocksTarget::Domain(name, port),
        fast_socks5::util::target_addr::TargetAddr::Ip(addr) => SocksTarget::Ip(SocketAddress {
            ip: match smoltcp::wire::IpAddress::from(addr.ip()) {
                smoltcp::wire::IpAddress::Ipv4(ip) => IpAddress::V4(ip.octets()),
                smoltcp::wire::IpAddress::Ipv6(ip) => IpAddress::V6(ip.octets()),
            },
            port: addr.port(),
        }),
    };
    Some(UdpRequest { frag, target, payload: rest.to_vec() })
}

/// What a packet from the client says, if it is whole and names an IP address.
pub open spec fn direct_request(data: Seq<u8>) -> Option<(SocketAddress, Seq<u8>)> {
    if data.len() >= 10 && data[2] == 0 && data[3] == ATYP_IPV4 {
        Some(
            (
                SocketAddress {
                    ip: IpAddress::V4([data[4], data[5], data[6], data[7]]),
                    port: be16_at(data, 8) as u16,
                },
                data.subrange(10, data.len() as int),
            ),
        )
    } else if data.len() >= 22 && data[2] == 0 && data[3] == ATYP_IPV6 {
        Some(
            (
                SocketAddress {
                    ip: IpAddress::V6(
                        [
                            data[4],
                            data[5],
                            data[6],
                            data[7],
                            data[8],
                            data[9],
                            data[10],
                            data[11],
                            data[12],
                            data[13],
                            data[14],
                            data[15],
                            data[16],
                            data[17],
                            data[18],
                            data[19],
                        ],
                    ),
                    port: be16_at(data, 20) as u16,
                },
                data.subrange(22, data.len() as int),
            ),
        )
    } else {
        None
    }
}

fn be16_of(high: u8, low: u8) -> (n: u16)
    ensures
        n == high * 256 + low,
{
    high as u16 * 256 + low as u16
}

fn rest_of(data: &[u8], from: usize) -> (rest: Vec<u8>)
    requires
        from <= data@.len(),
    ensures
        rest@ == data@.subrange(from as int, data@.len() as int),
{
    let mut rest: Vec<u8> = Vec::new();
    rest.extend_from_slice(slice_subrange(data, from, data.len()));
    assert(rest@ =~= data@.subrange(from as int, data@.len() as int));
    rest
}

/// What a packet from the client says, if it is whole and names an IP address: a fragment or a
/// domain is not taken.
pub fn parse_udp_request(data: &[u8]) -> (res: Option<(SocketAddress, Vec<u8>)>)
    ensures
        match res {
            Some((remote, payload)) => direct_request(data@) == Some((remote, payload@)),
            None => direct_request(data@) is None,
        },
{
    if data.len() < 10 || data[2] != 0 {
        return None;
    }
    if data[3] == ATYP_IPV4 {
        let remote = SocketAddress {
            ip: IpAddress::V4([data[4], data[5], data[6], data[7]]),
            port: be16_of(data[8], data[9]),
        };
        Some((remote, rest_of(data, 10)))
    } else if data[3] == ATYP_IPV6 && data.len() >= 22 {
        let remote = SocketAddress {
            ip: IpAddress::V6(
                [
                    data[4],
                    data[5],
                    data[6],
                    data[7],
                    data[8],
                    data[9],
                    data[10],
                    data[11],
                    data[12],
                    data[13],
                    data[14],
                    data[15],
                    data[16],
                    data[17],
                    data[18],
                    data[19],
                ],
            ),
            port: be16_of(data[20], data[21]),
        };
        Some((remote, rest_of(data, 22)))
    } else {
        None
    }
}

/// A packet for the client is read back to the remote that it names and the data that it carries.
pub proof fn relayed_packet_reads_back(remote: SocketAddress, data: Seq<u8>)
    ensures
        direct_request(relayed(remote, data)) == Some((remote, data)),
{
    let packet = relayed(remote, data);
    match remote.ip {
        IpAddress::V4(octets) => {
            assert([packet[4], packet[5], packet[6], packet[7]] =~= octets);
            assert(packet.subrange(10, packet.len() as int) =~= data);
        },
        IpAddress::V6(octets) => {
            assert([
                packet[4],
                packet[5],
                packet[6],
                packet[7],
                packet[8],
                packet[9],
                packet[10],
                packet[11],
                packet[12],
                packet[13],
                packet[14],
                packet[15],
                packet[16],
                packet[17],
                packet[18],
                packet[19],
            ] =~= octets);
            assert(packet.subrange(22, packet.len() as int) =~= data);
        },
    }
}

/// A packet that names an IP address is read the same, whether or not fragments are taken.
pub proof fn readers_agree(data: Seq<u8>, request: UdpRequest)
    requires
        reads_request(data, Some(request)),
        request.frag == 0,
        request.target is Ip,
    ensures
        direct_request(data) == Some((request.target->Ip_0, request.payload@)),
{
    let address = request.target->Ip_0;
    let end = request_end(data).unwrap();
    let octets = data.subrange(4, end - 2);
    match address.ip {
        IpAddress::V4(o) => {
            assert(o@ =~= octets);
            assert(octets[0] == data[4] && octets[1] == data[5] && octets[2] == data[6] && octets[3]
                == data[7]);
            assert([data[4], data[5], data[6], data[7]] =~= o);
        },
        IpAddress::V6(o) => {
            assert(o@ =~= octets);
            assert forall|i: int| 0 <= i < 16 implies #[trigger] o@[i] == data[4 + i] by {
                assert(octets[i] == data[4 + i]);
            }
            assert([
                data[4],
                data[5],
                data[6],
                data[7],
                data[8],
                data[9],
                data[10],
                data[11],
                data[12],
                data[13],
                data[14],
                data[15],
                data[16],
                data[17],
                data[18],
                data[19],
            ] =~= o);
        },
    }
}

/// The text that bytes stand for, as `String::from_utf8_lossy` reads them: what is not UTF-8 is
/// replaced.
pub uninterp spec fn utf8_lossy(bytes: Seq<u8>) -> Seq<char>;

/// `String::from_utf8_lossy`: a function of the bytes. Valid UTF-8 is read as it is.
#[verifier::external_body]
fn lossy_string(bytes: &[u8]) -> (text: String)
    ensures
        text@ == utf8_lossy(bytes@),
        valid_utf8(bytes@) ==> text@ == decode_utf8(bytes@),
{
    String::from_utf8_lossy(bytes).to_string()
}

/// How many bytes an address and its port take, as far as the first of them, `start`, tell. For a
/// domain the first byte says how long it is.
pub open spec fn address_size(atyp: u8, start: Seq<u8>) -> Option<int> {
    if atyp == ATYP_IPV4 {
        Some(6)
    } else if atyp == ATYP_IPV6 {
        Some(18)
    } else if atyp == ATYP_DOMAIN {
        if start.len() == 0 {
            Some(1)
        } else {
            Some(3 + start[0])
        }
    } else {
        None
    }
}

/// What is said of an address of a kind that is not known.
pub open spec fn unknown_address(e: Socks5Error) -> bool {
    e matches Socks5Error::ProtocolError(text) && text@ == "Unknown address type"@
}

/// How many bytes an address and its port take, as far as the first of them tell.
pub fn address_len(atyp: u8, start: &[u8]) -> (res: Result<usize, Socks5Error>)
    ensures
        match res {
            Ok(len) => address_size(atyp, start@) == Some(len as int),
            Err(e) => address_size(atyp, start@) is None && unknown_address(e),
        },
{
    if atyp == ATYP_IPV4 {
        Ok(6)
    } else if atyp == ATYP_IPV6 {
        Ok(18)
    } else if atyp == ATYP_DOMAIN {
        if start.len() == 0 {
            Ok(1)
        } else {
            Ok(3 + start[0] as usize)
        }
    } else {
        Err(Socks5Error::ProtocolError(String::from_str("Unknown address type")))
    }
}

/// The target of a request, given the bytes of its address and port.
pub fn read_address(atyp: u8, bytes: &[u8]) -> (res: Result<SocksTarget, Socks5Error>)
    requires
        bytes@.len() > 0,
        address_size(atyp, bytes@) matches Some(len) ==> bytes@.len() == len,
    ensures
        match res {
            Ok(target) => match target@ {
                TargetView::Ip(address) => atyp == kind_of(address.ip) && atyp != ATYP_DOMAIN
                    && bytes@ == octets_of(address.ip) + be16(address.port),
                TargetView::Domain(name, port) => atyp == ATYP_DOMAIN && name == utf8_lossy(
                    bytes@.subrange(1, bytes@.len() - 2),
                ) && port == be16_at(bytes@, bytes@.len() - 2),
            },
            Err(e) => address_size(atyp, bytes@) is None && unknown_address(e),
        },
{
    if atyp == ATYP_IPV4 {
        let address = SocketAddress {
            ip: IpAddress::V4([bytes[0], bytes[1], bytes[2], bytes[3]]),
            port: be16_of(bytes[4], bytes[5]),
        };
        assert(bytes@ =~= octets_of(address.ip) + be16(address.port));
        Ok(SocksTarget::Ip(address))
    } else if atyp == ATYP_IPV6 {
        let address = SocketAddress {
            ip: IpAddress::V6(
                [
                    bytes[0],
                    bytes[1],
                    bytes[2],
                    bytes[3],
                    bytes[4],
                    bytes[5],
                    bytes[6],
                    bytes[7],
                    bytes[8],
                    bytes[9],
                    bytes[10],
                    bytes[11],
                    bytes[12],
                    bytes[13],
                    bytes[14],
                    bytes[15],
                ],
            ),
            port: be16_of(bytes[16], bytes[17]),
        };
        assert(bytes@ =~= octets_of(address.ip) + be16(address.port));
        Ok(SocksTarget::Ip(address))
    } else if atyp == ATYP_DOMAIN {
        let n: usize = bytes.len();
        let name = lossy_string(slice_subrange(bytes, 1, n - 2));
        Ok(SocksTarget::Domain(name, be16_of(bytes[n - 2], bytes[n - 1])))
    } else {
        Err(Socks5Error::ProtocolError(String::from_str("Unknown address type")))
    }
}

/// What a client asks for.
#[derive(Debug, Clone, Copy, PartialEq, Eq, Structural)]
pub enum SocksCommand {
    Connect,
    UdpAssociate,
    Unsupported,
}

/// The command with this number.
pub fn command_of(cmd: u8) -> (command: SocksCommand)
    ensures
        command == if cmd == CMD_CONNECT {
            SocksCommand::Connect
        } else if cmd == CMD_UDP_ASSOCIATE {
            SocksCommand::UdpAssociate
        } else {
            SocksCommand::Unsupported
        },
{
    if cmd == CMD_CONNECT {
        SocksCommand::Connect
    } else if cmd == CMD_UDP_ASSOCIATE {
        SocksCommand::UdpAssociate
    } else {
        SocksCommand::Unsupported
    }
}

/// What is said of a client that speaks another version.
pub open spec fn wrong_version(e: Socks5Error) -> bool {
    e matches Socks5Error::ProtocolError(text) && text@ == "Invalid SOCKS version"@
}

/// How many methods follow the start of a client's greeting.
pub fn check_greeting(start: [u8; 2]) -> (res: Result<usize, Socks5Error>)
    ensures
        match res {
            Ok(methods) => start@[0] == SOCKS5_VERSION && methods == start@[1],
            Err(e) => start@[0] != SOCKS5_VERSION && wrong_version(e),
        },
{
    if start[0] != SOCKS5_VERSION {
        return Err(Socks5Error::ProtocolError(String::from_str("Invalid SOCKS version")));
    }
    Ok(start[1] as usize)
}

/// The reply to a greeting: the client need not say who it is.
pub fn greeting_reply() -> (reply: Vec<u8>)
    ensures
        reply@ == seq![SOCKS5_VERSION, AUTH_NO_AUTH],
{
    vec![SOCKS5_VERSION, AUTH_NO_AUTH]
}

/// The command of a request and the kind of its address.
pub fn check_request(header: [u8; 4]) -> (res: Result<(SocksCommand, u8), Socks5Error>)
    ensures
        match res {
            Ok((command, atyp)) => {
                &&& header@[0] == SOCKS5_VERSION
                &&& command is Connect <==> header@[1] == CMD_CONNECT
                &&& command is UdpAssociate <==> header@[1] == CMD_UDP_ASSOCIATE
                &&& atyp == header@[3]
            },
            Err(e) => header@[0] != SOCKS5_VERSION && wrong_version(e),
        },
{
    if header[0] != SOCKS5_VERSION {
        return Err(Socks5Error::ProtocolError(String::from_str("Invalid SOCKS version")));
    }
    Ok((command_of(header[1]), header[3]))
}

/// An address stands in a message by its kind (1 for IPv4, 4 for IPv6), its bytes and its port, the
/// high byte first; replies start with the version 5, datagrams with three zero bytes.
pub proof fn messages_byte_by_byte(rep: u8, address: SocketAddress, data: Seq<u8>)
    ensures
        ({
            let reply = reply_message(rep, address);
            let packet = relayed(address, data);
            let n = match address.ip {
                IpAddress::V4(_) => 4int,
                IpAddress::V6(_) => 16int,
            };
            &&& reply.len() == 6 + n
            &&& reply[0] == 5 && reply[1] == rep && reply[2] == 0
            &&& reply[3] == if address.ip is V4 {
                1u8
            } else {
                4u8
            }
            &&& forall|i: int|
                0 <= i < n ==> #[trigger] reply[4 + i] == match address.ip {
                    IpAddress::V4(octets) => octets@[i],
                    IpAddress::V6(octets) => octets@[i],
                }
            &&& reply[4 + n] * 256 + reply[5 + n] == address.port
            &&& packet == seq![0u8, 0, 0] + reply.skip(3) + data
        }),
{
    assert(reply_message(rep, address).skip(3) =~= address_bytes(address));
}

/// A request with a name is read whatever the name, its length, its port and its payload: the
/// payload starts right behind the port.
pub proof fn a_request_with_a_name_is_read(
    frag: u8,
    name: Seq<u8>,
    port: u16,
    payload: Seq<u8>,
)
    requires
        name.len() <= 255,
        valid_utf8(name),
    ensures
        ({
            let data = seq![0u8, 0, frag, 3, name.len() as u8] + name + seq![
                (port / 256) as u8,
                (port % 256) as u8,
            ] + payload;
            &&& request_end(data) == Some((7 + name.len()) as int)
            &&& data.skip(7 + name.len() as int) == payload
            &&& target_at(
                data,
                3,
                TargetView::Domain(decode_utf8(name), port),
                (7 + name.len()) as int,
            )
        }),
{
    let data = seq![0u8, 0, frag, 3, name.len() as u8] + name + seq![
        (port / 256) as u8,
        (port % 256) as u8,
    ] + payload;
    assert(data.subrange(5, 5 + name.len() as int) =~= name);
    assert(data.skip(7 + name.len() as int) =~= payload);
}

/// A request with an address is read whatever the address, its port and its payload.
pub proof fn a_request_with_an_address_is_read(frag: u8, address: SocketAddress, payload: Seq<u8>)
    ensures
        ({
            let octets = match address.ip {
                IpAddress::V4(octets) => octets@,
                IpAddress::V6(octets) => octets@,
            };
            let kind: u8 = if address.ip is V4 {
                1
            } else {
                4
            };
            let data = seq![0u8, 0, frag, kind] + octets + seq![
                (address.port / 256) as u8,
                (address.port % 256) as u8,
            ] + payload;
            let end = 6 + octets.len() as int;
            &&& request_end(data) == Some(end)
            &&& data.skip(end) == payload
            &&& target_at(data, 3, TargetView::Ip(address), end)
            &&& frag != 0 ==> direct_request(data) is None
            &&& frag == 0 ==> direct_request(data) == Some((address, payload))
        }),
{
    let octets = match address.ip {
        IpAddress::V4(octets) => octets@,
        IpAddress::V6(octets) => octets@,
    };
    let kind: u8 = if address.ip is V4 {
        1
    } else {
        4
    };
    let data = seq![0u8, 0, frag, kind] + octets + seq![
        (address.port / 256) as u8,
        (address.port % 256) as u8,
    ] + payload;
    let end = 6 + octets.len() as int;
    assert(data.skip(end) =~= payload);
    assert(data.subrange(4, end - 2) =~= octets);
    if frag == 0 {
        relayed_packet_reads_back(address, payload);
        assert(data =~= relayed(address, payload));
    }
}

/// What is no request: less than four bytes, a start other than two zero bytes, an unknown kind of
/// address, or less than the address and the port take.
pub proof fn what_is_no_request(data: Seq<u8>)
    ensures
        data.len() < 4 ==> request_end(data) is None,
        data.len() >= 4 && (data[0] != 0 || data[1] != 0) ==> request_end(data) is None,
        data.len() >= 4 && data[3] != 1 && data[3] != 3 && data[3] != 4 ==> request_end(data)
            is None,
        data.len() >= 4 && data[3] == 1 && data.len() < 10 ==> request_end(data) is None,
        data.len() >= 4 && data[3] == 4 && data.len() < 22 ==> request_end(data) is None,
        data.len() >= 5 && data[3] == 3 && data.len() < 7 + data[4] ==> request_end(data) is None,
{
}

/// How many bytes an address takes behind its kind, with its port: six for IPv4, eighteen for IPv6,
/// and for a name its length and three more.
pub proof fn sizes_of_addresses(atyp: u8, start: Seq<u8>)
    ensures
        address_size(1, start) == Some(6int),
        address_size(4, start) == Some(18int),
        start.len() > 0 ==> address_size(3, start) == Some(3 + start[0]),
        address_size(3, Seq::empty()) == Some(1int),
        atyp != 1 && atyp != 3 && atyp != 4 ==> address_size(atyp, start) is None,
{
}

/// The numbers of the protocol.
pub proof fn numbers_of_the_protocol()
    ensures
        SOCKS5_VERSION == 5,
        AUTH_NO_AUTH == 0,
        CMD_CONNECT == 1,
        CMD_UDP_ASSOCIATE == 3,
        ATYP_IPV4 == 1,
        ATYP_DOMAIN == 3,
        ATYP_IPV6 == 4,
        REP_SUCCESS == 0,
        REP_GENERAL_FAILURE == 1,
        REP_CMD_NOT_SUPPORTED == 7,
{
}

} // verus!
