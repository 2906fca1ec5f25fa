//! The SOCKS5 proxy in front of the tunnel.

pub mod connect;
pub mod fragments;
pub mod relay;
pub mod tunables;
pub mod wire;

use crate::addr::{ip_string, ip_text, IpAddress};
use crate::manager::{manager_fault_text, ManagerError, ManagerFault};
use crate::proxy::wire::{SocksTarget, TargetView};
use crate::text::{decimal, push_decimal, same_text};
use vstd::prelude::*;

verus! {

/// Why a client of the proxy was not served.
#[derive(Debug)]
pub enum Socks5Error {
    IoError(String),
    ProtocolError(String),
    ConnectionFailed(String),
    Timeout,
    ChannelError(String),
    TunnelError(ManagerError),
    SocksError(String),
    SocksServerError(String),
}

/// How an error of the proxy reads.
pub open spec fn socks5_error_text(e: Socks5Error) -> Seq<char> {
    match e {
        Socks5Error::IoError(why) => "IO error: "@ + why@,
        Socks5Error::ProtocolError(why) => "protocol error: "@ + why@,
        Socks5Error::ConnectionFailed(why) => "connection failed: "@ + why@,
        Socks5Error::Timeout => "timeout"@,
        Socks5Error::ChannelError(why) => "channel error: "@ + why@,
        Socks5Error::TunnelError(e) => "tunnel error: "@ + manager_fault_text(e@),
        Socks5Error::SocksError(why) => "socks error: "@ + why@,
        Socks5Error::SocksServerError(why) => "socks server error: "@ + why@,
    }
}

impl Socks5Error {
    /// How the error reads.
    pub fn text(&self) -> (text: String)
        ensures
            text@ == socks5_error_text(*self),
    {
        match self {
            Socks5Error::IoError(why) => String::from_str("IO error: ").concat(why.as_str()),
            Socks5Error::ProtocolError(why) => String::from_str("protocol error: ").concat(
                why.as_str(),
            ),
            Socks5Error::ConnectionFailed(why) => String::from_str("connection failed: ").concat(
                why.as_str(),
            ),
            Socks5Error::Timeout => String::from_str("timeout"),
            Socks5Error::ChannelError(why) => String::from_str("channel error: ").concat(
                why.as_str(),
            ),
            Socks5Error::TunnelError(e) => String::from_str("tunnel error: ").concat(
                e.text().as_str(),
            ),
            Socks5Error::SocksError(why) => String::from_str("socks error: ").concat(why.as_str()),
            Socks5Error::SocksServerError(why) => String::from_str("socks server error: ").concat(
                why.as_str(),
            ),
        }
    }
}

/// Who may use the proxy.
#[derive(Debug)]
pub struct AuthConfig {
    pub username: String,
    pub password: String,
}

impl AuthConfig {
    /// Whether a client is the one that may use the proxy.
    pub fn accepts(&self, username: &str, password: &str) -> (res: bool)
        ensures
            res == (username@ == self.username@ && password@ == self.password@),
    {
        same_text(username, self.username.as_str()) && same_text(password, self.password.as_str())
    }
}

/// What the proxy tells a client that it does not serve.
#[derive(Debug, Clone, Copy, PartialEq, Eq, Structural)]
pub enum SocksReply {
    GeneralFailure,
    HostUnreachable,
    ConnectionTimeout,
}

/// What a client is told of a manager's error.
pub open spec fn manager_reply(fault: ManagerFault) -> SocksReply {
    match fault {
        ManagerFault::Dns(_) => SocksReply::HostUnreachable,
        _ => SocksReply::GeneralFailure,
    }
}

/// What a client is told when its connection failed.
pub open spec fn connect_reply(e: Socks5Error) -> SocksReply {
    match e {
        Socks5Error::Timeout => SocksReply::ConnectionTimeout,
        Socks5Error::ConnectionFailed(_) => SocksReply::HostUnreachable,
        Socks5Error::TunnelError(e) => manager_reply(e@),
        _ => SocksReply::GeneralFailure,
    }
}

/// What a client is told of a manager's error.
pub fn map_manager_error_to_reply(err: &ManagerError) -> (reply: SocksReply)
    ensures
        reply == manager_reply(err@),
{
    match err {
        ManagerError::Dns(_) => SocksReply::HostUnreachable,
        _ => SocksReply::GeneralFailure,
    }
}

/// What a client is told when its connection failed.
pub fn map_connect_error_to_reply(err: &Socks5Error) -> (reply: SocksReply)
    ensures
        reply == connect_reply(*err),
{
    match err {
        Socks5Error::Timeout => SocksReply::ConnectionTimeout,
        Socks5Error::ConnectionFailed(_) => SocksReply::HostUnreachable,
        Socks5Error::TunnelError(inner) => map_manager_error_to_reply(inner),
        _ => SocksReply::GeneralFailure,
    }
}

/// Whether an IPv6 address stands for an IPv4 address: ten zeros, two bytes of ones, and the
/// address.
pub open spec fn is_mapped(octets: Seq<u8>) -> bool {
    &&& forall|i: int| 0 <= i < 10 ==> #[trigger] octets[i] == 0
    &&& octets[10] == 255
    &&& octets[11] == 255
}

/// An address, where one that stands for an IPv4 address becomes that address.
pub open spec fn unmapped(ip: IpAddress) -> IpAddress {
    match ip {
        IpAddress::V6(o) if is_mapped(o@) => IpAddress::V4([o@[12], o@[13], o@[14], o@[15]]),
        _ => ip,
    }
}

/// The address of a target in the tunnel.
pub fn tunnel_address(ip: IpAddress) -> (out: IpAddress)
    ensures
        out == unmapped(ip),
{
    match ip {
        IpAddress::V4(_) => ip,
        IpAddress::V6(o) => {
            let mut i: usize = 0;
            while i < 10
                invariant
                    i <= 10,
                    ip == IpAddress::V6(o),
                    forall|k: int| 0 <= k < i ==> #[trigger] o@[k] == 0,
                decreases 10 - i,
            {
                if o[i] != 0 {
                    assert(!is_mapped(o@));
                    return ip;
                }
                i += 1;
            }
            if o[10] == 255 && o[11] == 255 {
                IpAddress::V4([o[12], o[13], o[14], o[15]])
            } else {
                ip
            }
        },
    }
}

/// How a target reads: an address that stands for an IPv4 address reads as that.
pub open spec fn target_text(target: TargetView) -> Seq<char> {
    match target {
        TargetView::Ip(address) => ip_text(unmapped(address.ip)) + seq![':'] + decimal(
            address.port as nat,
        ),
        TargetView::Domain(name, port) => name + seq![':'] + decimal(port as nat),
    }
}

/// How a target reads.
pub fn format_target_addr(target: &SocksTarget) -> (text: String)
    ensures
        text@ == target_text(target@),
{
    match target {
        SocksTarget::Ip(address) => {
            let mut text = ip_string(tunnel_address(address.ip));
            text.push(':');
            push_decimal(&mut text, address.port as u64);
            assert(text@ =~= target_text(target@));
            text
        },
        SocksTarget::Domain(name, port) => {
            let mut text = name.clone();
            text.push(':');
            push_decimal(&mut text, *port as u64);
            assert(text@ =~= target_text(target@));
            text
        },
    }
}

/// The first of the ports that connections leave from.
pub const PORT_RANGE_START: u16 = 49152;

/// How many ports connections leave from.
pub const PORT_RANGE_SIZE: u16 = 16384;

/// The port of the next connection. `counter` counts the connections.
pub fn get_local_port(counter: &mut u16) -> (port: u16)
    ensures
        port == PORT_RANGE_START + *old(counter) % PORT_RANGE_SIZE,
        port >= PORT_RANGE_START,
        *final(counter) == old(counter).wrapping_add(1),
{
    let offset: u16 = *counter % PORT_RANGE_SIZE;
    *counter = counter.wrapping_add(1);
    PORT_RANGE_START + offset
}

/// Two connections leave from the same port only if a multiple of all the ports lies between them.
pub proof fn ports_repeat_late(a: u16, b: u16)
    requires
        a % PORT_RANGE_SIZE == b % PORT_RANGE_SIZE,
        a < b,
    ensures
        b - a >= PORT_RANGE_SIZE,
{
}

/// What a client is told: of a time that ran out as such, of a name that was not resolved and of a
/// connection that failed that the host cannot be reached, and of all else that something failed.
pub proof fn what_a_client_is_told(e: Socks5Error, fault: ManagerFault)
    ensures
        manager_reply(fault) == SocksReply::HostUnreachable <==> fault is Dns,
        manager_reply(fault) == SocksReply::GeneralFailure <==> !(fault is Dns),
        connect_reply(e) == SocksReply::ConnectionTimeout <==> e is Timeout,
        connect_reply(e) == SocksReply::HostUnreachable <==> e is ConnectionFailed || (
        e is TunnelError && e->TunnelError_0@ is Dns),
        connect_reply(e) == SocksReply::GeneralFailure <==> !(e is Timeout || e is ConnectionFailed
            || (e is TunnelError && e->TunnelError_0@ is Dns)),
{
}

/// An IPv4 address that stands in an IPv6 address, behind ten bytes of zero and two of 255, is taken
/// out of it. Every other address stays.
pub proof fn mapped_addresses_are_taken_out(ip: IpAddress)
    ensures
        ip is V4 ==> unmapped(ip) == ip,
        ip is V6 ==> {
            let o = ip->V6_0@;
            let mapped = o.take(10) == seq![0u8, 0, 0, 0, 0, 0, 0, 0, 0, 0] && o[10] == 255 && o[11]
                == 255;
            &&& mapped ==> unmapped(ip) is V4 && unmapped(ip)->V4_0@ == o.subrange(12, 16)
            &&& !mapped ==> unmapped(ip) == ip
        },
{
    if ip is V6 {
        let o = ip->V6_0@;
        let zeros = seq![0u8, 0, 0, 0, 0, 0, 0, 0, 0, 0];
        if is_mapped(o) {
            assert(o.take(10) =~= zeros);
            assert(unmapped(ip)->V4_0@ =~= o.subrange(12, 16));
        }
        if o.take(10) == zeros {
            assert forall|i: int| 0 <= i < 10 implies #[trigger] o[i] == 0 by {
                assert(o[i] == o.take(10)[i]);
                assert(zeros[i] == 0);
            }
        }
    }
}

/// A target reads as its address or its name, a colon and its port.
pub proof fn targets_name_host_and_port(target: TargetView)
    ensures
        target matches TargetView::Domain(name, port) ==> target_text(target) == name.push(':')
            + decimal(port as nat),
        target matches TargetView::Ip(address) ==> (address.ip is V4 ==> target_text(target)
            == ip_text(address.ip).push(':') + decimal(address.port as nat)),
{
    if target is Domain {
        assert(target->Domain_0 + seq![':'] =~= target->Domain_0.push(':'));
    } else if target->Ip_0.ip is V4 {
        assert(ip_text(target->Ip_0.ip) + seq![':'] =~= ip_text(target->Ip_0.ip).push(':'));
    }
}

/// Local ports are those from 49152 on, and each of them comes round.
pub proof fn local_ports_are_dynamic(counter: u16, port: u16)
    requires
        port >= 49152,
    ensures
        PORT_RANGE_START == 49152,
        PORT_RANGE_START + PORT_RANGE_SIZE == 65536,
        49152 <= PORT_RANGE_START + counter % PORT_RANGE_SIZE <= 65535,
        PORT_RANGE_START + ((port - 49152) as u16) % PORT_RANGE_SIZE == port,
{
}

/// Each kind of error reads with its own words before its reason.
pub proof fn how_proxy_errors_read(e: Socks5Error)
    ensures
        e matches Socks5Error::IoError(why) ==> socks5_error_text(e) == "IO error: "@ + why@,
        e matches Socks5Error::ProtocolError(why) ==> socks5_error_text(e) == "protocol error: "@
            + why@,
        e matches Socks5Error::ConnectionFailed(why) ==> socks5_error_text(e)
            == "connection failed: "@ + why@,
        e matches Socks5Error::ChannelError(why) ==> socks5_error_text(e) == "channel error: "@
            + why@,
        e matches Socks5Error::TunnelError(why) ==> socks5_error_text(e) == "tunnel error: "@
            + manager_fault_text(why@),
        e matches Socks5Error::SocksError(why) ==> socks5_error_text(e) == "socks error: "@ + why@,
        e matches Socks5Error::SocksServerError(why) ==> socks5_error_text(e)
            == "socks server error: "@ + why@,
        e is Timeout ==> socks5_error_text(e) == "timeout"@,
{
}

} // verus!
