//! What the proxy runs with.

use crate::addr::{
    parse_ip, parse_socket, reads_as, reads_as_socket, socket_is_unique, IpAddress, ScopedSocket,
    SocketAddress,
};
use crate::codec::base64_decoded;
use crate::config::{
    before_slash, bytes_fault, has_len, is_exactly, pem_body, text_of, wg_fault_text, Config,
    WgConfig, WgConfigFault,
};
use crate::manager::transport::TunnelMode;
use crate::manager::tunables::ManagerTunables;
use crate::proxy::AuthConfig;
use crate::register::WG_PORT;
use crate::text::{
    blank, decimal, is_blank, is_white, lowercase, push_decimal, same_text, to_lower,
    visible_text_is_not_blank,
};
use crate::tunnel::dns::{names_in, parse_dns_servers, refuses_names, server_names, stand_for};
use crate::tunnel::quic::{algorithm_named, unknown_algorithm, CongestionControl};
use crate::tunnel::stack::StackTunables;
use crate::vars::Vars;
use vstd::prelude::*;

verus! {

/// What a proxy in front of a MASQUE tunnel is started with.
#[derive(Debug)]
pub struct SocksServerOptions {
    pub bind: String,
    pub port: u16,
    pub config_path: String,
    pub username: Option<String>,
    pub password: Option<String>,
    pub sni: String,
    pub dns_servers: Vec<String>,
    pub connect_port: u16,
    pub keepalive: u64,
    pub initial_packet_size: u16,
    pub mtu: u16,
}

/// What a proxy in front of a WireGuard tunnel is started with.
#[derive(Debug)]
pub struct SocksServerWgOptions {
    pub bind: String,
    pub port: u16,
    pub config_path: String,
    pub username: Option<String>,
    pub password: Option<String>,
    pub dns_servers: Vec<String>,
    pub mtu: u16,
}

/// What a tunnel is made of.
#[derive(Debug)]
pub struct ConnectionParams {
    pub endpoint: ScopedSocket,
    pub cert_der: Vec<u8>,
    pub key_der: Vec<u8>,
    pub sni: String,
    pub endpoint_pub_key: Option<Vec<u8>>,
    pub ipv4: String,
    pub ipv6: Option<String>,
    pub dns_servers: Vec<IpAddress>,
    pub keepalive: u64,
    pub initial_packet_size: u16,
    pub mtu: u16,
    pub congestion_control: CongestionControl,
    pub tcp_buffer_size: usize,
    pub quic_idle_timeout_ms: u64,
    pub tunnel_mode: TunnelMode,
    pub wg_private_key: Option<[u8; 32]>,
    pub wg_peer_public_key: Option<[u8; 32]>,
    pub wg_client_id: Option<[u8; 3]>,
    pub perf_enabled: bool,
    pub perf_interval_secs: u64,
    pub manager_tunables: ManagerTunables,
    pub stack_tunables: StackTunables,
}

/// Whether a text in lower case says yes.
pub open spec fn says_yes(lower: Seq<char>) -> bool {
    lower == "1"@ || lower == "true"@ || lower == "yes"@ || lower == "on"@
}

/// Whether a text in lower case says yes.
pub fn is_yes(lower: &str) -> (res: bool)
    ensures
        res == says_yes(lower@),
{
    same_text(lower, "1") || same_text(lower, "true") || same_text(lower, "yes") || same_text(
        lower,
        "on",
    )
}

/// What a variable says: yes, or, where it is set to anything else, no.
pub open spec fn switch(vars: &Vars, name: Seq<char>, default: bool) -> bool {
    match vars.value(name) {
        Some(text) => says_yes(lowercase(text)),
        None => default,
    }
}

/// What a variable says: yes, or, where it is set to anything else, no.
pub fn env_bool(vars: &Vars, name: &str, default: bool) -> (res: bool)
    ensures
        res == switch(vars, name@, default),
{
    match vars.get(name) {
        Some(text) => {
            let lower = to_lower(text.as_str());
            is_yes(lower.as_str())
        },
        None => default,
    }
}

/// What the environment sets for every tunnel.
#[derive(Debug)]
pub struct TunnelEnv {
    pub tcp_buffer_size: usize,
    pub tunnel_workers: usize,
    pub perf_enabled: bool,
    pub perf_interval_secs: u64,
}

impl TunnelEnv {
    /// What the environment sets.
    pub fn from_env(vars: &Vars) -> (env: TunnelEnv)
        ensures
            env.tcp_buffer_size == vars.number_or(
                "USQUE_TCP_BUFFER_SIZE"@,
                usize::MAX as nat,
                65536,
            ),
            env.tunnel_workers == vars.number_or("USQUE_TUNNEL_WORKERS"@, usize::MAX as nat, 1),
            env.perf_enabled == switch(vars, "USQUE_PERF"@, false),
            env.perf_interval_secs == vars.number_or(
                "USQUE_PERF_INTERVAL_SECS"@,
                u64::MAX as nat,
                5,
            ),
    {
        TunnelEnv {
            tcp_buffer_size: vars.env_usize("USQUE_TCP_BUFFER_SIZE", 65536),
            tunnel_workers: vars.env_usize("USQUE_TUNNEL_WORKERS", 1),
            perf_enabled: env_bool(vars, "USQUE_PERF", false),
            perf_interval_secs: vars.env_u64("USQUE_PERF_INTERVAL_SECS", 5),
        }
    }
}

/// How many workers there are. Zero asks for one for each processor, up to four.
pub fn worker_count(tunnel_workers: usize, available: usize) -> (count: usize)
    ensures
        tunnel_workers > 0 ==> count == tunnel_workers,
        tunnel_workers == 0 ==> count == if available < 1 {
            1
        } else if available > 4 {
            4
        } else {
            available as int
        },
        count > 0,
{
    if tunnel_workers > 0 {
        tunnel_workers
    } else if available < 1 {
        1
    } else if available > 4 {
        4
    } else {
        available
    }
}

/// Who may use the proxy: anybody, unless a name is given. A name needs a password.
pub fn proxy_auth(username: Option<String>, password: Option<String>) -> (res: Result<
    Option<AuthConfig>,
    String,
>)
    ensures
        match (username, password) {
            (Some(user), Some(pass)) => res matches Ok(Some(auth)) && auth.username@ == user@
                && auth.password@ == pass@,
            (Some(_), None) => res matches Err(why) && why@
                == "Password is required when username is set"@,
            (None, _) => res matches Ok(None),
        },
{
    match (username, password) {
        (Some(username), Some(password)) => Ok(Some(AuthConfig { username, password })),
        (Some(_), None) => Err(String::from_str("Password is required when username is set")),
        _ => Ok(None),
    }
}

/// Where the proxy listens.
pub fn listen_address(bind: &str, port: u16) -> (res: Result<ScopedSocket, String>)
    ensures
        match res {
            Ok(socket) => reads_as_socket(bind@ + seq![':'] + decimal(port as nat), Some(socket)),
            Err(why) => reads_as_socket(bind@ + seq![':'] + decimal(port as nat), None) && why@
                == "invalid socket address syntax"@,
        },
{
    let mut text: String = String::from_str(bind);
    text.push(':');
    push_decimal(&mut text, port as u64);
    assert(text@ =~= bind@ + seq![':'] + decimal(port as nat));
    match parse_socket(text.as_str()) {
        Some(socket) => Ok(socket),
        None => Err(String::from_str("invalid socket address syntax")),
    }
}

/// The text of the server: its IPv4 address, or where that is blank, its IPv6 address.
pub open spec fn endpoint_text(cfg: Config) -> Seq<char> {
    if !blank(cfg.endpoint_v4@) {
        cfg.endpoint_v4@
    } else {
        cfg.endpoint_v6@
    }
}

/// The address of the server, given what its text stands for. Its own port is not used.
pub open spec fn endpoint_ip(socket: Option<ScopedSocket>, ip: Option<IpAddress>) -> Option<
    IpAddress,
> {
    match socket {
        Some(socket) => Some(socket.address.ip),
        None => ip,
    }
}

/// Whether this is what a text gives as the server of a tunnel.
pub open spec fn is_endpoint(
    raw: Seq<char>,
    connect_port: u16,
    res: Result<ScopedSocket, String>,
) -> bool {
    if blank(raw) {
        res matches Err(why) && why@ == "No endpoint configured"@
    } else {
        exists|socket: Option<ScopedSocket>, ip: Option<IpAddress>| #[trigger]
            reads_as_socket(raw, socket) && #[trigger] reads_as(raw, ip) && match endpoint_ip(
                socket,
                ip,
            ) {
                Some(ip) => res matches Ok(endpoint) && endpoint == (ScopedSocket {
                    address: SocketAddress { ip, port: connect_port },
                    scope: 0,
                }),
                None => res matches Err(why) && why@ == "Invalid endpoint address: "@ + raw,
            }
    }
}

/// The server of a MASQUE tunnel.
pub fn masque_endpoint(cfg: &Config, connect_port: u16) -> (res: Result<ScopedSocket, String>)
    ensures
        is_endpoint(endpoint_text(*cfg), connect_port, res),
{
    let raw: &str = if !is_blank(cfg.endpoint_v4.as_str()) {
        cfg.endpoint_v4.as_str()
    } else {
        cfg.endpoint_v6.as_str()
    };
    if is_blank(raw) {
        return Err(String::from_str("No endpoint configured"));
    }
    let socket: Option<ScopedSocket> = parse_socket(raw);
    let ip: Option<IpAddress> = parse_ip(raw);
    assert(reads_as_socket(raw@, socket) && reads_as(raw@, ip));
    let chosen: Option<IpAddress> = match socket {
        Some(socket) => Some(socket.address.ip),
        None => ip,
    };
    match chosen {
        Some(ip) => Ok(
            ScopedSocket { address: SocketAddress { ip, port: connect_port }, scope: 0 },
        ),
        None => Err(String::from_str("Invalid endpoint address: ").concat(raw)),
    }
}

/// What the configuration gives as the public key of the server, which a MASQUE tunnel must know.
pub open spec fn peer_key_outcome(cfg: Config) -> Result<Seq<u8>, Seq<char>> {
    if blank(cfg.endpoint_pub_key@) {
        Err("Endpoint public key is required for security"@)
    } else {
        match base64_decoded(pem_body(cfg.endpoint_pub_key@, 0)) {
            Ok(key) => Ok(key),
            Err(why) => Err(
                "failed to parse config file: "@ + ("failed to decode endpoint public key: "@ + why),
            ),
        }
    }
}

/// The public key of the server, which a MASQUE tunnel must know.
pub fn masque_peer_key(cfg: &Config) -> (res: Result<Vec<u8>, String>)
    ensures
        match res {
            Ok(key) => peer_key_outcome(*cfg) == Ok::<Seq<u8>, Seq<char>>(key@),
            Err(why) => peer_key_outcome(*cfg) == Err::<Seq<u8>, Seq<char>>(why@),
        },
{
    if is_blank(cfg.endpoint_pub_key.as_str()) {
        return Err(String::from_str("Endpoint public key is required for security"));
    }
    match cfg.get_endpoint_pub_key_der() {
        Ok(key) => Ok(key),
        Err(e) => Err(e.text()),
    }
}

/// The name of the congestion control that the environment asks for.
pub open spec fn algorithm_name(vars: &Vars) -> Seq<char> {
    match vars.value("USQUE_CC"@) {
        Some(name) => name,
        None => "cubic"@,
    }
}

/// The congestion control that the environment asks for.
pub open spec fn algorithm_outcome(vars: &Vars) -> Result<CongestionControl, Seq<char>> {
    match algorithm_named(lowercase(algorithm_name(vars))) {
        Some(cc) => Ok(cc),
        None => Err(unknown_algorithm(algorithm_name(vars))),
    }
}

/// The congestion control that the environment asks for.
pub fn congestion_control(vars: &Vars) -> (res: Result<CongestionControl, String>)
    ensures
        match res {
            Ok(cc) => algorithm_outcome(vars) == Ok::<CongestionControl, Seq<char>>(cc),
            Err(why) => algorithm_outcome(vars) == Err::<CongestionControl, Seq<char>>(why@),
        },
{
    match vars.get("USQUE_CC") {
        Some(name) => CongestionControl::from_name(name.as_str()),
        None => CongestionControl::from_name("cubic"),
    }
}

/// Whether the tunnel may time out between two keepalives.
pub fn keepalive_too_long(keepalive: u64, quic_idle_timeout_ms: u64) -> (res: bool)
    ensures
        res == (keepalive * 1000 >= quic_idle_timeout_ms),
{
    keepalive as u128 * 1000 >= quic_idle_timeout_ms as u128
}

/// A text, unless it is blank.
pub open spec fn unless_blank(text: Seq<char>) -> Option<Seq<char>> {
    if blank(text) {
        None
    } else {
        Some(text)
    }
}

/// Whether a list names only DNS servers.
pub open spec fn names_servers(list: Seq<String>) -> bool {
    exists|ips: Seq<IpAddress>| #[trigger] stand_for_all(server_names(list, 0), ips)
}

/// Whether a text gives a server.
pub open spec fn has_endpoint(raw: Seq<char>, connect_port: u16) -> bool {
    exists|endpoint: ScopedSocket| #[trigger] is_endpoint(raw, connect_port, Ok(endpoint))
}

/// What a MASQUE tunnel is made of.
pub fn masque_params(
    options: &SocksServerOptions,
    vars: &Vars,
    cfg: &Config,
    cert_der: Vec<u8>,
    key_der: Vec<u8>,
    manager_tunables: ManagerTunables,
    stack_tunables: StackTunables,
) -> (res: Result<ConnectionParams, String>)
    ensures
        match res {
            Ok(p) => {
                &&& is_endpoint(endpoint_text(*cfg), options.connect_port, Ok(p.endpoint))
                &&& p.cert_der == cert_der
                &&& p.key_der == key_der
                &&& p.sni@ == options.sni@
                &&& p.endpoint_pub_key matches Some(key) && peer_key_outcome(*cfg) == Ok::<
                    Seq<u8>,
                    Seq<char>,
                >(key@)
                &&& p.ipv4@ == cfg.ipv4@
                &&& text_of(p.ipv6) == unless_blank(cfg.ipv6@)
                &&& stand_for_all(server_names(options.dns_servers@, 0), p.dns_servers@)
                &&& p.keepalive == options.keepalive
                &&& p.initial_packet_size == options.initial_packet_size
                &&& p.mtu == options.mtu
                &&& algorithm_outcome(vars) == Ok::<CongestionControl, Seq<char>>(
                    p.congestion_control,
                )
                &&& p.tcp_buffer_size == vars.number_or(
                    "USQUE_TCP_BUFFER_SIZE"@,
                    usize::MAX as nat,
                    65536,
                )
                &&& p.quic_idle_timeout_ms == vars.number_or(
                    "USQUE_QUIC_IDLE_TIMEOUT_MS"@,
                    u64::MAX as nat,
                    90000,
                )
                &&& p.tunnel_mode == TunnelMode::Masque
                &&& p.wg_private_key is None
                &&& p.wg_peer_public_key is None
                &&& p.wg_client_id is None
                &&& p.perf_enabled == switch(vars, "USQUE_PERF"@, false)
                &&& p.perf_interval_secs == vars.number_or(
                    "USQUE_PERF_INTERVAL_SECS"@,
                    u64::MAX as nat,
                    5,
                )
                &&& p.manager_tunables == manager_tunables
                &&& p.stack_tunables == stack_tunables
            },
            Err(why) => {
                let raw = endpoint_text(*cfg);
                let port = options.connect_port;
                let list = options.dns_servers@;
                ||| is_endpoint(raw, port, Err(why))
                ||| has_endpoint(raw, port) && peer_key_outcome(*cfg) == Err::<Seq<u8>, Seq<char>>(
                    why@,
                )
                ||| has_endpoint(raw, port) && peer_key_outcome(*cfg) is Ok && refuses_names(
                    server_names(list, 0),
                    why@,
                )
                ||| has_endpoint(raw, port) && peer_key_outcome(*cfg) is Ok && names_servers(list)
                    && algorithm_outcome(vars) == Err::<CongestionControl, Seq<char>>(why@)
            },
        },
{
    let endpoint: ScopedSocket = match masque_endpoint(cfg, options.connect_port) {
        Ok(endpoint) => endpoint,
        Err(why) => {
            return Err(why);
        },
    };
    assert(has_endpoint(endpoint_text(*cfg), options.connect_port));
    let peer_key: Vec<u8> = match masque_peer_key(cfg) {
        Ok(key) => key,
        Err(why) => {
            return Err(why);
        },
    };
    let dns_servers: Vec<IpAddress> = match parse_dns_servers(&options.dns_servers) {
        Ok(ips) => ips,
        Err(why) => {
            return Err(why);
        },
    };
    assert(stand_for_all(server_names(options.dns_servers@, 0), dns_servers@));
    let cc: CongestionControl = match congestion_control(vars) {
        Ok(cc) => cc,
        Err(why) => {
            return Err(why);
        },
    };
    let env = TunnelEnv::from_env(vars);
    Ok(
        ConnectionParams {
            endpoint,
            cert_der,
            key_der,
            sni: options.sni.clone(),
            endpoint_pub_key: Some(peer_key),
            ipv4: cfg.ipv4.clone(),
            ipv6: if is_blank(cfg.ipv6.as_str()) {
                None
            } else {
                Some(cfg.ipv6.clone())
            },
            dns_servers,
            keepalive: options.keepalive,
            initial_packet_size: options.initial_packet_size,
            mtu: options.mtu,
            congestion_control: cc,
            tcp_buffer_size: env.tcp_buffer_size,
            quic_idle_timeout_ms: vars.env_u64("USQUE_QUIC_IDLE_TIMEOUT_MS", 90000),
            tunnel_mode: TunnelMode::Masque,
            wg_private_key: None,
            wg_peer_public_key: None,
            wg_client_id: None,
            perf_enabled: env.perf_enabled,
            perf_interval_secs: env.perf_interval_secs,
            manager_tunables,
            stack_tunables,
        },
    )
}

/// The texts that name the DNS servers of a WireGuard tunnel: the one in the configuration, unless
/// it is blank, else those that the proxy is started with.
pub open spec fn wg_dns_names(cfg: WgConfig, options: SocksServerWgOptions) -> Seq<Seq<char>> {
    if blank(cfg.dns@) {
        server_names(options.dns_servers@, 0)
    } else {
        names_in(cfg.dns@, 0)
    }
}

/// What is wrong with the keys in a WireGuard configuration.
pub open spec fn wg_key_fault(cfg: WgConfig) -> Option<WgConfigFault> {
    if !has_len(base64_decoded(cfg.private_key@), 32) {
        Some(bytes_fault(base64_decoded(cfg.private_key@), 32, "Account"@, "PrivateKey"@))
    } else if !has_len(base64_decoded(cfg.peer_public_key@), 32) {
        Some(bytes_fault(base64_decoded(cfg.peer_public_key@), 32, "Peer"@, "PublicKey"@))
    } else if !has_len(base64_decoded(cfg.client_id@), 3) {
        Some(bytes_fault(base64_decoded(cfg.client_id@), 3, "Account"@, "ClientId"@))
    } else {
        None
    }
}

/// What is said of a server that is no address.
pub open spec fn endpoint_fault() -> WgConfigFault {
    WgConfigFault::InvalidValue {
        section: "Peer"@,
        key: "Endpoint"@,
        reason: "invalid socket address syntax"@,
    }
}

/// The server of a WireGuard tunnel, where the usual port stands in for zero.
pub open spec fn with_wg_port(socket: ScopedSocket) -> ScopedSocket {
    if socket.address.port == 0 {
        ScopedSocket {
            address: SocketAddress { ip: socket.address.ip, port: WG_PORT },
            scope: socket.scope,
        }
    } else {
        socket
    }
}

/// Whether the addresses are what all of the names stand for.
pub open spec fn stand_for_all(names: Seq<Seq<char>>, ips: Seq<IpAddress>) -> bool {
    stand_for(names, ips) && ips.len() == names.len()
}

fn wg_dns(cfg: &WgConfig, options: &SocksServerWgOptions) -> (res: Result<Vec<IpAddress>, String>)
    ensures
        match res {
            Ok(ips) => stand_for_all(wg_dns_names(*cfg, *options), ips@),
            Err(why) => refuses_names(wg_dns_names(*cfg, *options), why@),
        },
{
    if is_blank(cfg.dns.as_str()) {
        parse_dns_servers(&options.dns_servers)
    } else {
        let list: Vec<String> = vec![cfg.dns.clone()];
        proof {
            reveal_with_fuel(server_names, 2);
            assert(server_names(list@, 0) =~= names_in(cfg.dns@, 0));
        }
        parse_dns_servers(&list)
    }
}

/// What a WireGuard tunnel is made of.
pub fn wg_params(
    options: &SocksServerWgOptions,
    vars: &Vars,
    cfg: &WgConfig,
    manager_tunables: ManagerTunables,
    stack_tunables: StackTunables,
) -> (res: Result<ConnectionParams, String>)
    ensures
        match res {
            Ok(p) => {
                &&& exists|socket: ScopedSocket| #[trigger]
                    reads_as_socket(cfg.endpoint@, Some(socket)) && p.endpoint == with_wg_port(
                        socket,
                    )
                &&& p.cert_der@.len() == 0
                &&& p.key_der@.len() == 0
                &&& p.sni@.len() == 0
                &&& p.endpoint_pub_key is None
                &&& p.ipv4@ == before_slash(cfg.address@, 0)
                &&& text_of(p.ipv6) == match cfg.address6 {
                    Some(address) => Some(before_slash(address@, 0)),
                    None => None,
                }
                &&& stand_for_all(wg_dns_names(*cfg, *options), p.dns_servers@)
                &&& p.keepalive == cfg.keepalive
                &&& p.initial_packet_size == 0
                &&& p.mtu == if options.mtu == 0 {
                    cfg.mtu
                } else {
                    options.mtu
                }
                &&& p.congestion_control == CongestionControl::Bbr2
                &&& p.tcp_buffer_size == vars.number_or(
                    "USQUE_TCP_BUFFER_SIZE"@,
                    usize::MAX as nat,
                    65536,
                )
                &&& p.quic_idle_timeout_ms == 0
                &&& p.tunnel_mode == TunnelMode::Wireguard
                &&& p.wg_private_key matches Some(key) && is_exactly(
                    base64_decoded(cfg.private_key@),
                    key@,
                )
                &&& p.wg_peer_public_key matches Some(key) && is_exactly(
                    base64_decoded(cfg.peer_public_key@),
                    key@,
                )
                &&& p.wg_client_id matches Some(id) && is_exactly(
                    base64_decoded(cfg.client_id@),
                    id@,
                )
                &&& p.perf_enabled == switch(vars, "USQUE_PERF"@, false)
                &&& p.perf_interval_secs == vars.number_or(
                    "USQUE_PERF_INTERVAL_SECS"@,
                    u64::MAX as nat,
                    5,
                )
                &&& p.manager_tunables == manager_tunables
                &&& p.stack_tunables == stack_tunables
            },
            Err(why) => match wg_key_fault(*cfg) {
                Some(fault) => why@ == wg_fault_text(fault),
                None => {
                    ||| reads_as_socket(cfg.endpoint@, None) && why@ == wg_fault_text(
                        endpoint_fault(),
                    )
                    ||| !reads_as_socket(cfg.endpoint@, None) && refuses_names(
                        wg_dns_names(*cfg, *options),
                        why@,
                    )
                },
            },
        },
{
    let private_key: [u8; 32] = match cfg.get_private_key_bytes() {
        Ok(key) => key,
        Err(e) => {
            return Err(e.text());
        },
    };
    let peer_public_key: [u8; 32] = match cfg.get_peer_public_key_bytes() {
        Ok(key) => key,
        Err(e) => {
            return Err(e.text());
        },
    };
    let client_id: [u8; 3] = match cfg.get_client_id_bytes() {
        Ok(id) => id,
        Err(e) => {
            return Err(e.text());
        },
    };
    let found: ScopedSocket = match cfg.get_endpoint_addr() {
        Ok(socket) => socket,
        Err(e) => {
            return Err(e.text());
        },
    };
    let endpoint: ScopedSocket = if found.address.port == 0 {
        ScopedSocket {
            address: SocketAddress { ip: found.address.ip, port: WG_PORT },
            scope: found.scope,
        }
    } else {
        found
    };
    proof {
        if reads_as_socket(cfg.endpoint@, None) {
            socket_is_unique(cfg.endpoint@, Some(found), None);
        }
    }
    let dns_servers: Vec<IpAddress> = match wg_dns(cfg, options) {
        Ok(ips) => ips,
        Err(why) => {
            return Err(why);
        },
    };
    let env = TunnelEnv::from_env(vars);
    Ok(
        ConnectionParams {
            endpoint,
            cert_der: Vec::new(),
            key_der: Vec::new(),
            sni: String::new(),
            endpoint_pub_key: None,
            ipv4: String::from_str(cfg.ipv4_address()),
            ipv6: match cfg.ipv6_address() {
                Some(ip) => Some(String::from_str(ip)),
                None => None,
            },
            dns_servers,
            keepalive: cfg.keepalive as u64,
            initial_packet_size: 0,
            mtu: if options.mtu == 0 {
                cfg.mtu
            } else {
                options.mtu
            },
            congestion_control: CongestionControl::Bbr2,
            tcp_buffer_size: env.tcp_buffer_size,
            quic_idle_timeout_ms: 0,
            tunnel_mode: TunnelMode::Wireguard,
            wg_private_key: Some(private_key),
            wg_peer_public_key: Some(peer_public_key),
            wg_client_id: Some(client_id),
            perf_enabled: env.perf_enabled,
            perf_interval_secs: env.perf_interval_secs,
            manager_tunables,
            stack_tunables,
        },
    )
}

/// A MASQUE tunnel has the IPv6 address of the configuration, exactly as it stands there, if and
/// only if that has a character that is not white space; otherwise it has none.
pub proof fn the_configured_ipv6_is_used(cfg: Config, ipv6: Option<String>)
    requires
        text_of(ipv6) == unless_blank(cfg.ipv6@),
    ensures
        ipv6 is Some <==> exists|i: int| 0 <= i < cfg.ipv6@.len() && !is_white(#[trigger] cfg.ipv6@[i]),
        ipv6 is Some ==> ipv6->0@ == cfg.ipv6@,
        (exists|i: int|
            0 <= i < cfg.ipv6@.len() && 0x21 <= (#[trigger] cfg.ipv6@[i]) as u32 <= 0x7e)
            ==> ipv6 is Some,
        cfg.ipv6@.len() == 0 ==> ipv6 is None,
{
    visible_text_is_not_blank(cfg.ipv6@);
}

/// The server of a MASQUE tunnel is the IPv4 server of the configuration, or, only where that is
/// blank, the IPv6 server. The port is the one that the proxy is started with, whatever the
/// configuration says. `raw` is the text of that server.
pub proof fn the_configured_server_is_used(
    cfg: Config,
    raw: Seq<char>,
    connect_port: u16,
    res: Result<ScopedSocket, String>,
)
    requires
        !blank(cfg.endpoint_v4@) ==> raw == cfg.endpoint_v4@,
        blank(cfg.endpoint_v4@) ==> raw == cfg.endpoint_v6@,
        is_endpoint(endpoint_text(cfg), connect_port, res),
    ensures
        blank(cfg.endpoint_v4@) && blank(cfg.endpoint_v6@) ==> res is Err && res->Err_0@
            == "No endpoint configured"@,
        res is Ok ==> {
            &&& res->Ok_0.address.port == connect_port
            &&& res->Ok_0.scope == 0
            &&& {
                ||| exists|socket: ScopedSocket| #[trigger]
                    reads_as_socket(raw, Some(socket)) && socket.address.ip == res->Ok_0.address.ip
                ||| reads_as_socket(raw, None) && reads_as(raw, Some(res->Ok_0.address.ip))
            }
        },
        res is Err ==> {
            ||| blank(cfg.endpoint_v4@) && blank(cfg.endpoint_v6@)
            ||| reads_as_socket(raw, None) && reads_as(raw, None) && res->Err_0@
                == "Invalid endpoint address: "@ + raw
        },
{
    if !blank(raw) {
        let (socket, ip) = choose|socket: Option<ScopedSocket>, ip: Option<IpAddress>| #[trigger]
            reads_as_socket(raw, socket) && #[trigger] reads_as(raw, ip) && match endpoint_ip(
                socket,
                ip,
            ) {
                Some(ip) => res matches Ok(endpoint) && endpoint == (ScopedSocket {
                    address: SocketAddress { ip, port: connect_port },
                    scope: 0,
                }),
                None => res matches Err(why) && why@ == "Invalid endpoint address: "@ + raw,
            };
        if socket is Some {
            assert(reads_as_socket(raw, Some(socket->0)));
        }
    }
}

/// A MASQUE tunnel needs the key of its server: it is what the configuration holds in base64, in
/// PEM or without its borders. A blank one is refused.
pub proof fn the_configured_key_is_used(cfg: Config, key: Seq<u8>)
    ensures
        peer_key_outcome(cfg) == Ok::<Seq<u8>, Seq<char>>(key) <==> !blank(cfg.endpoint_pub_key@)
            && base64_decoded(pem_body(cfg.endpoint_pub_key@, 0)) == Ok::<Seq<u8>, Seq<char>>(key),
        blank(cfg.endpoint_pub_key@) ==> peer_key_outcome(cfg) == Err::<Seq<u8>, Seq<char>>(
            "Endpoint public key is required for security"@,
        ),
{
}

/// The congestion control is the one that the environment names, and CUBIC where it names none.
pub proof fn the_environment_picks_the_algorithm(vars: Vars)
    ensures
        vars.value("USQUE_CC"@) is Some ==> algorithm_name(&vars) == vars.value("USQUE_CC"@)->0,
        vars.value("USQUE_CC"@) is None ==> algorithm_name(&vars) == seq!['c', 'u', 'b', 'i', 'c'],
        algorithm_outcome(&vars) is Ok <==> algorithm_named(lowercase(algorithm_name(&vars)))
            is Some,
        algorithm_outcome(&vars) matches Ok(cc) ==> algorithm_named(
            lowercase(algorithm_name(&vars)),
        ) == Some(cc),
{
    reveal_strlit("cubic");
    assert("cubic"@ =~= seq!['c', 'u', 'b', 'i', 'c']);
}

/// Four words say yes. A variable that is set to another one says no, whatever is usual.
pub proof fn four_words_say_yes(vars: Vars, name: Seq<char>, default: bool)
    ensures
        vars.value(name) is None ==> switch(&vars, name, default) == default,
        vars.value(name) matches Some(text) ==> (switch(&vars, name, default) <==> {
            ||| lowercase(text) == seq!['1']
            ||| lowercase(text) == seq!['t', 'r', 'u', 'e']
            ||| lowercase(text) == seq!['y', 'e', 's']
            ||| lowercase(text) == seq!['o', 'n']
        }),
{
    reveal_strlit("1");
    reveal_strlit("true");
    reveal_strlit("yes");
    reveal_strlit("on");
    assert("1"@ =~= seq!['1']);
    assert("true"@ =~= seq!['t', 'r', 'u', 'e']);
    assert("yes"@ =~= seq!['y', 'e', 's']);
    assert("on"@ =~= seq!['o', 'n']);
}

/// A WireGuard tunnel asks the DNS servers of its configuration, and those that the proxy is started
/// with only where the configuration names none.
pub proof fn the_configured_dns_is_used(cfg: WgConfig, options: SocksServerWgOptions)
    ensures
        !blank(cfg.dns@) ==> wg_dns_names(cfg, options) == names_in(cfg.dns@, 0),
        blank(cfg.dns@) ==> wg_dns_names(cfg, options) == server_names(options.dns_servers@, 0),
{
}

/// The server of a WireGuard tunnel keeps its address and its port; only port zero becomes 2408.
pub proof fn a_server_keeps_its_port(socket: ScopedSocket)
    ensures
        with_wg_port(socket).address.ip == socket.address.ip,
        with_wg_port(socket).scope == socket.scope,
        socket.address.port != 0 ==> with_wg_port(socket).address.port == socket.address.port,
        socket.address.port == 0 ==> with_wg_port(socket).address.port == 2408,
{
}

/// The keys of a WireGuard configuration are in order if and only if both keys have 32 bytes and the
/// client number has three. What is wrong is told of the first that is not: the private key, the
/// server's key, the client number.
pub proof fn wg_keys_have_their_sizes(cfg: WgConfig)
    ensures
        ({
            let private_key = base64_decoded(cfg.private_key@);
            let peer_key = base64_decoded(cfg.peer_public_key@);
            let client_id = base64_decoded(cfg.client_id@);
            let private_fits = private_key is Ok && private_key->Ok_0.len() == 32;
            let peer_fits = peer_key is Ok && peer_key->Ok_0.len() == 32;
            let client_fits = client_id is Ok && client_id->Ok_0.len() == 3;
            &&& wg_key_fault(cfg) is None <==> private_fits && peer_fits && client_fits
            &&& !private_fits && private_key is Err ==> wg_key_fault(cfg) == Some(
                WgConfigFault::Base64(private_key->Err_0),
            )
            &&& private_fits && !peer_fits && peer_key is Err ==> wg_key_fault(cfg) == Some(
                WgConfigFault::Base64(peer_key->Err_0),
            )
            &&& private_fits && peer_fits && !client_fits && client_id is Err ==> wg_key_fault(cfg)
                == Some(WgConfigFault::Base64(client_id->Err_0))
            &&& !private_fits && private_key is Ok ==> (wg_key_fault(cfg) matches Some(
                WgConfigFault::InvalidValue { section, key, .. },
            ) && section == "Account"@ && key == "PrivateKey"@)
            &&& private_fits && !peer_fits && peer_key is Ok ==> (wg_key_fault(cfg) matches Some(
                WgConfigFault::InvalidValue { section, key, .. },
            ) && section == "Peer"@ && key == "PublicKey"@)
            &&& private_fits && peer_fits && !client_fits && client_id is Ok ==> (wg_key_fault(
                cfg,
            ) matches Some(WgConfigFault::InvalidValue { section, key, .. }) && section
                == "Account"@ && key == "ClientId"@)
        }),
{
}

/// All names of a list stand for an address, each for its own; none is left out.
pub proof fn every_name_has_its_address(names: Seq<Seq<char>>, ips: Seq<IpAddress>)
    requires
        stand_for_all(names, ips),
    ensures
        ips.len() == names.len(),
        forall|i: int| 0 <= i < ips.len() ==> reads_as(#[trigger] names[i], Some(ips[i])),
{
}

/// There is a server for a text that stands for an address, with or without a port.
pub proof fn an_address_gives_a_server(raw: Seq<char>, port: u16, socket: ScopedSocket, ip: IpAddress)
    requires
        !blank(raw),
    ensures
        reads_as_socket(raw, Some(socket)) && reads_as(raw, None) ==> has_endpoint(raw, port),
        reads_as_socket(raw, None) && reads_as(raw, Some(ip)) ==> has_endpoint(raw, port),
        reads_as_socket(raw, None) && reads_as(raw, None) ==> !has_endpoint(raw, port),
{
    if reads_as_socket(raw, Some(socket)) && reads_as(raw, None) {
        let endpoint = ScopedSocket {
            address: SocketAddress { ip: socket.address.ip, port },
            scope: 0,
        };
        assert(endpoint_ip(Some(socket), None) == Some(socket.address.ip));
        assert(is_endpoint(raw, port, Ok(endpoint)));
    }
    if reads_as_socket(raw, None) && reads_as(raw, Some(ip)) {
        let endpoint = ScopedSocket { address: SocketAddress { ip, port }, scope: 0 };
        assert(endpoint_ip(None, Some(ip)) == Some(ip));
        assert(is_endpoint(raw, port, Ok(endpoint)));
    }
    if reads_as_socket(raw, None) && reads_as(raw, None) && has_endpoint(raw, port) {
        let endpoint = choose|endpoint: ScopedSocket| #[trigger]
            is_endpoint(raw, port, Ok(endpoint));
        let (found, own) = choose|found: Option<ScopedSocket>, own: Option<IpAddress>| #[trigger]
            reads_as_socket(raw, found) && #[trigger] reads_as(raw, own) && endpoint_ip(found, own)
                is Some;
        socket_is_unique(raw, found, None);
        crate::addr::address_is_unique(raw, own, None);
    }
}

} // verus!
