//! What the manager does with the sockets of the stack.

use crate::addr::{IpAddress, SocketAddress};
use crate::manager::commands::RuntimeState;
use crate::manager::dns_ops::{
    dispatch_step, query_label, recorded, reply_views, resolve_replies, resolve_step, unique_query,
    DnsCounters, DnsDispatch, DnsQueryState, DnsReply, DnsSockets, DnsState, DnsView,
};
use crate::manager::sockets::{new_socket, SocketsView};
use crate::manager::udp::{UdpSend, UdpSessionState, UdpView};
use crate::manager::{ManagerError, ManagerFault};
use crate::tunnel::dns::{dns_port, DnsError, DnsFault, DnsRecordType};
use crate::tunnel::net::{
    has_ipv4, is_unspecified, leads_to, new_tcp, new_udp, settable, NetSockets, StackSocket, TcpPhase,
};
use crate::tunnel::stack::{
    stack_fault_text, LocalAddresses, StackError, StackFault, StackTunables,
};
use smoltcp::iface::Interface;
use vstd::prelude::*;

verus! {

/// Whether the stack has a socket for every connection that the manager knows.
pub open spec fn in_step(known: SocketsView, net: Map<u64, StackSocket>) -> bool {
    forall|id: u64| #[trigger]
        known.sockets.contains_key(id) ==> net.dom().contains(id) && net[id] is Tcp
}

/// Whether the stack has the sockets for DNS, and they are of UDP.
pub open spec fn dns_in_step(sockets: DnsSockets, net: Map<u64, StackSocket>) -> bool {
    &&& sockets.v4 matches Some(id) ==> net.dom().contains(id) && net[id] is Udp
    &&& sockets.v6 matches Some(id) ==> net.dom().contains(id) && net[id] is Udp
}

/// Whether the stack has a UDP socket for every session, and no two sessions share one.
pub open spec fn udp_in_step(udp: UdpView, net: Map<u64, StackSocket>) -> bool {
    &&& forall|port: u64| #[trigger]
        udp.sessions.contains_key(port) ==> net.dom().contains(udp.sessions[port].handle)
            && net[udp.sessions[port].handle] is Udp
    &&& forall|a: u64, b: u64| #[trigger]
        udp.sessions.contains_key(a) && #[trigger] udp.sessions.contains_key(b) && a != b
            ==> udp.sessions[a].handle != udp.sessions[b].handle
}

/// Whether the manager and the stack agree: all that the manager has open has a socket of its own in
/// the stack, of the right kind.
pub open spec fn stack_agrees(state: &RuntimeState, net: Map<u64, StackSocket>) -> bool {
    &&& in_step(state.tcp@, net)
    &&& dns_in_step(state.dns_sockets, net)
    &&& udp_in_step(state.udp@, net)
    &&& forall|port: u64| #[trigger]
        state.udp@.sessions.contains_key(port) ==> state.dns_sockets.v4 != Some(
            state.udp@.sessions[port].handle,
        ) && state.dns_sockets.v6 != Some(state.udp@.sessions[port].handle)
}

/// A manager that has nothing open agrees with any stack. It still does after every request, every
/// packet of a client and every look at the sockets, as those promise.
pub proof fn nothing_open_agrees(state: &RuntimeState, net: Map<u64, StackSocket>)
    requires
        state.wf(),
        state.tcp@.handles.len() == 0,
        state.udp@.ports.len() == 0,
        state.dns_sockets.v4 is None,
        state.dns_sockets.v6 is None,
    ensures
        stack_agrees(state, net),
{
    state.tcp.stays_consistent();
    state.udp.stays_consistent();
    assert forall|id: u64| !state.tcp@.sockets.contains_key(id) by {
        assert(!state.tcp@.handles.contains(id));
    }
    assert forall|port: u64| !state.udp@.sessions.contains_key(port) by {
        assert(!state.udp@.ports.contains(port));
    }
}

/// A socket whose connection is being made.
pub open spec fn connecting(
    remote: SocketAddress,
    local_port: u16,
    buffer_size: nat,
    tunables: StackTunables,
) -> StackSocket {
    StackSocket::Tcp((new_tcp(buffer_size, tunables)->Tcp_0).connecting_to(remote, local_port))
}

/// What is said of an address or a port that leads nowhere.
pub open spec fn leads_nowhere(e: ManagerError) -> bool {
    e@ == ManagerFault::Stack(StackFault::SocketError("Unaddressable"@))
}

/// What came of the attempt to open a connection: it is known, with a socket of its own, or nothing
/// has changed. There is a connection if and only if the interface leads to the remote.
pub open spec fn connection_opened(
    net: Map<u64, StackSocket>,
    net_after: Map<u64, StackSocket>,
    known: SocketsView,
    known_after: SocketsView,
    iface: Interface,
    remote: SocketAddress,
    local_port: u16,
    buffer_size: nat,
    tunables: StackTunables,
    res: Result<u64, ManagerError>,
) -> bool {
    match res {
        Ok(id) => {
            &&& leads_to(iface, remote, local_port)
            &&& !net.dom().contains(id)
            &&& net_after == net.insert(id, connecting(remote, local_port, buffer_size, tunables))
            &&& known_after == (SocketsView {
                sockets: known.sockets.insert(id, new_socket()),
                handles: known.handles.push(id),
                ready: known.ready,
            })
        },
        Err(e) => {
            &&& !leads_to(iface, remote, local_port)
            &&& leads_nowhere(e)
            &&& net_after == net
            &&& known_after == known
        },
    }
}

/// Opens a connection to a remote: a socket of its own, which is removed again where the connection
/// cannot be started.
pub fn open_connection(
    state: &mut RuntimeState,
    net: &mut NetSockets,
    iface: &mut Interface,
    remote: SocketAddress,
    local_port: u16,
    buffer_size: usize,
    tunables: &StackTunables,
) -> (res: Result<u64, ManagerError>)
    requires
        old(state).wf(),
        old(net).wf(),
        in_step(old(state).tcp@, old(net)@),
        buffer_size <= 1_073_741_824,
        settable(*tunables),
    ensures
        final(state).wf(),
        final(net).wf(),
        in_step(final(state).tcp@, final(net)@),
        final(state).same_settings(old(state)),
        final(state).dns@ == old(state).dns@,
        final(state).udp@ == old(state).udp@,
        connection_opened(
            old(net)@,
            final(net)@,
            old(state).tcp@,
            final(state).tcp@,
            *old(iface),
            remote,
            local_port,
            buffer_size as nat,
            *tunables,
            res,
        ),
        has_ipv4(*final(iface)) == has_ipv4(*old(iface)),
{
    let id: u64 = net.create_tcp_socket_with_buffer(buffer_size, tunables);
    assert(!state.tcp@.sockets.contains_key(id));
    let connected: Result<(), StackError> = net.connect_tcp(iface, id, remote, local_port);
    if connected.is_err() {
        net.remove_socket(id);
        assert(net@ =~= old(net)@);
    } else {
        assert(net@ =~= old(net)@.insert(
            id,
            connecting(remote, local_port, buffer_size as nat, *tunables),
        ));
    }
    match state.create_connection(id, connected) {
        Ok(_) => Ok(id),
        Err(e) => Err(e),
    }
}

/// What came of the attempt to open a UDP session: it is known, with a socket of its own, or nothing
/// has changed. The session is opened unless there is no address or the port is zero.
pub open spec fn session_opened(
    net: Map<u64, StackSocket>,
    net_after: Map<u64, StackSocket>,
    known: UdpView,
    known_after: UdpView,
    local: LocalAddresses,
    local_port: u16,
    tunables: StackTunables,
    now: u64,
    res: Result<(), ManagerError>,
) -> bool {
    match local.default_address() {
        Some(ip) if local_port != 0 => res is Ok && exists|id: u64|
            !(#[trigger] net.dom().contains(id)) && net_after == net.insert(
                id,
                new_udp(SocketAddress { ip, port: local_port }, tunables),
            ) && known_after == (UdpView {
                sessions: known.sessions.insert(
                    local_port as u64,
                    UdpSessionState { handle: id, last_activity: now },
                ),
                ports: known.ports.push(local_port as u64),
            }),
        ip => {
            &&& net_after == net
            &&& known_after == known
            &&& res matches Err(e) && if ip is Some {
                leads_nowhere(e)
            } else {
                e@ == ManagerFault::Stack(StackFault::SocketError("No IP address configured"@))
            }
        },
    }
}

/// Opens a UDP session: a socket of its own, bound to the port.
pub fn open_udp_session(
    state: &mut RuntimeState,
    net: &mut NetSockets,
    local: &LocalAddresses,
    local_port: u16,
    tunables: &StackTunables,
    now: u64,
) -> (res: Result<(), ManagerError>)
    requires
        old(state).wf(),
        old(net).wf(),
    ensures
        final(state).wf(),
        final(net).wf(),
        final(state).same_settings(old(state)),
        final(state).dns@ == old(state).dns@,
        final(state).tcp@ == old(state).tcp@,
        session_opened(
            old(net)@,
            final(net)@,
            old(state).udp@,
            final(state).udp@,
            *local,
            local_port,
            *tunables,
            now,
            res,
        ),
{
    let bound: Result<u64, StackError> = match local.local_addr_default() {
        Ok(ip) => net.bind_udp_socket(SocketAddress { ip, port: local_port }, tunables),
        Err(e) => Err(e),
    };
    state.register_udp_session(local_port, bound, now)
}

/// The sockets after a packet was given to one of them: it takes the packet if it is there, the packet
/// leads somewhere and there is room for it.
pub open spec fn packet_offered(
    net: Map<u64, StackSocket>,
    net_after: Map<u64, StackSocket>,
    id: u64,
    remote: SocketAddress,
    data: Seq<u8>,
) -> bool {
    let socket = net[id]->Udp_0;
    let later = net_after[id]->Udp_0;
    net_after == if !net.dom().contains(id) || !socket.reaches(remote) {
        net
    } else if socket.takes_packet(remote, data) {
        net.insert(id, StackSocket::Udp(socket.with_packet(remote, data, later)))
    } else {
        net.insert(id, StackSocket::Udp(socket.after_refusal(later)))
    }
}

/// Sends a client's packet through the socket of its session. Returns whether it went.
pub fn send_udp_data(state: &mut RuntimeState, net: &mut NetSockets, cmd: &UdpSend, now: u64) -> (sent:
    bool)
    requires
        old(state).wf(),
        old(net).wf(),
        old(state).udp@.sessions.contains_key(cmd.local_port as u64) ==> ({
            let id = old(state).udp@.sessions[cmd.local_port as u64].handle;
            old(net)@.dom().contains(id) ==> old(net)@[id] is Udp
        }),
    ensures
        final(state).wf(),
        final(net).wf(),
        final(state).same_settings(old(state)),
        final(state).dns@ == old(state).dns@,
        final(state).tcp@ == old(state).tcp@,
        if old(state).udp@.sessions.contains_key(cmd.local_port as u64) {
            let session = old(state).udp@.sessions[cmd.local_port as u64];
            let socket = old(net)@[session.handle]->Udp_0;
            let remote = SocketAddress { ip: cmd.remote_ip, port: cmd.remote_port };
            &&& final(state).udp@ == (UdpView {
                sessions: old(state).udp@.sessions.insert(
                    cmd.local_port as u64,
                    UdpSessionState { handle: session.handle, last_activity: now },
                ),
                ports: old(state).udp@.ports,
            })
            &&& sent == (old(net)@.dom().contains(session.handle) && socket.takes_packet(
                remote,
                cmd.data@,
            ))
            &&& packet_offered(
                old(net)@,
                final(net)@,
                session.handle,
                SocketAddress { ip: cmd.remote_ip, port: cmd.remote_port },
                cmd.data@,
            )
        } else {
            !sent && final(net)@ == old(net)@ && final(state).udp@ == old(state).udp@
        },
        stack_agrees(old(state), old(net)@) ==> stack_agrees(final(state), final(net)@),
{
    match state.handle_udp_send(cmd, now) {
        Some(id) => {
            let remote = SocketAddress { ip: cmd.remote_ip, port: cmd.remote_port };
            net.udp_send(id, remote, cmd.data.as_slice()).is_ok()
        },
        None => false,
    }
}

/// Whether a query for a name was built and what came of it: it waits for its response, or it has
/// failed, and its group gives the answers that it can give.
pub open spec fn query_step(
    before: DnsView,
    after: DnsView,
    net_before: Map<u64, StackSocket>,
    net_after: Map<u64, StackSocket>,
    id: u64,
    server: IpAddress,
    group_id: u32,
    query_type: DnsRecordType,
    resolve_all: bool,
    now: u64,
    built: Result<(u16, Vec<u8>), DnsError>,
    replies: Seq<DnsReply>,
) -> bool {
    match built {
        Ok((transaction_id, packet)) => {
            let socket = net_before[id]->Udp_0;
            let remote = SocketAddress { ip: server, port: 53 };
            let failed = recorded(
                before,
                group_id,
                query_type,
                Err(
                    DnsFault::SocketError(
                        "DNS "@ + query_label(query_type, resolve_all) + " send failed"@,
                    ),
                ),
            );
            &&& packet_offered(net_before, net_after, id, remote, packet@)
            &&& if net_before.dom().contains(id) && socket.takes_packet(remote, packet@) {
                &&& after == (DnsView {
                    queries: before.queries.insert(
                        transaction_id as u64,
                        DnsQueryState { group_id, query_type },
                    ),
                    ..before
                })
                &&& reply_views(replies).len() == 0
            } else {
                &&& resolve_step(failed, after, group_id, now)
                &&& reply_views(replies) == resolve_replies(failed, group_id)
            }
        },
        Err(e) => {
            let failed = recorded(before, group_id, query_type, Err(e@));
            &&& net_after == net_before
            &&& resolve_step(failed, after, group_id, now)
            &&& reply_views(replies) == resolve_replies(failed, group_id)
        },
    }
}

/// What comes of a query to a server: it is built with a number that no other query has, and sent.
pub open spec fn query_sent(
    before: DnsView,
    after: DnsView,
    counters: DnsCounters,
    counters_after: DnsCounters,
    net: Map<u64, StackSocket>,
    net_after: Map<u64, StackSocket>,
    id: u64,
    server: IpAddress,
    group_id: u32,
    domain: Seq<char>,
    query_type: DnsRecordType,
    resolve_all: bool,
    now: u64,
    replies: Seq<DnsReply>,
) -> bool {
    exists|tried: int, built: Result<(u16, Vec<u8>), DnsError>| #[trigger]
        unique_query(
            before.queries,
            counters.transaction_id,
            domain,
            query_type is AAAA,
            tried,
            built,
        ) && query_step(
            before,
            after,
            net,
            net_after,
            id,
            server,
            group_id,
            query_type,
            resolve_all,
            now,
            built,
            replies,
        ) && counters_after == counters.after_tries(tried)
}

/// Sends one query of a group to a server, through a DNS socket.
pub fn send_dns_query(
    dns: &mut DnsState,
    counters: &mut DnsCounters,
    net: &mut NetSockets,
    id: u64,
    server: IpAddress,
    group_id: u32,
    domain: &str,
    query_type: DnsRecordType,
    resolve_all: bool,
    now: u64,
) -> (replies: Vec<DnsReply>)
    requires
        old(dns).wf(),
        old(net).wf(),
        old(net)@.dom().contains(id) ==> old(net)@[id] is Udp,
    ensures
        final(dns).wf(),
        final(net).wf(),
        query_sent(
            old(dns)@,
            final(dns)@,
            *old(counters),
            *final(counters),
            old(net)@,
            final(net)@,
            id,
            server,
            group_id,
            domain@,
            query_type,
            resolve_all,
            now,
            replies@,
        ),
{
    let dispatch = dns.dispatch_dns_query(counters, group_id, domain, query_type, now);
    let ghost between = dns@;
    let ghost witness = choose|tried: int, built: Result<(u16, Vec<u8>), DnsError>| #[trigger]
        unique_query(
            old(dns)@.queries,
            old(counters).transaction_id,
            domain@,
            query_type is AAAA,
            tried,
            built,
        ) && dispatch_step(old(dns)@, between, group_id, query_type, now, built, dispatch)
            && *counters == old(counters).after_tries(tried);
    let replies: Vec<DnsReply> = match dispatch {
        DnsDispatch::Send { transaction_id, packet } => {
            let remote = SocketAddress { ip: server, port: dns_port() };
            let sent: bool = net.udp_send(id, remote, packet.as_slice()).is_ok();
            dns.on_query_sent(group_id, query_type, transaction_id, sent, resolve_all, now)
        },
        DnsDispatch::Replies(replies) => replies,
    };
    assert(unique_query(
        old(dns)@.queries,
        old(counters).transaction_id,
        domain@,
        query_type is AAAA,
        witness.0,
        witness.1,
    ));
    assert(query_step(
        old(dns)@,
        dns@,
        old(net)@,
        net@,
        id,
        server,
        group_id,
        query_type,
        resolve_all,
        now,
        witness.1,
        replies@,
    ));
    replies
}

/// Which socket queries to a server are sent from: the one that is there, or else a new one, if there
/// is an address for it and its port is not zero.
pub open spec fn dns_socket_opened(
    sockets: DnsSockets,
    sockets_after: DnsSockets,
    counters: DnsCounters,
    counters_after: DnsCounters,
    net: Map<u64, StackSocket>,
    net_after: Map<u64, StackSocket>,
    local: LocalAddresses,
    server: IpAddress,
    tunables: StackTunables,
    res: Result<u64, DnsError>,
) -> bool {
    match sockets.slot(server) {
        Some(id) => res == Ok::<u64, DnsError>(id) && sockets_after == sockets && net_after == net
            && counters_after == counters,
        None => {
            let port = counters.local_port;
            &&& counters_after == (DnsCounters {
                local_port: if port == u16::MAX {
                    0
                } else {
                    (port + 1) as u16
                },
                ..counters
            })
            &&& match local.address_for(server) {
                Some(ip) if port != 0 => res matches Ok(id) && {
                    &&& !net.dom().contains(id)
                    &&& net_after == net.insert(
                        id,
                        new_udp(SocketAddress { ip, port }, tunables),
                    )
                    &&& sockets_after == match server {
                        IpAddress::V4(_) => DnsSockets { v4: Some(id), ..sockets },
                        IpAddress::V6(_) => DnsSockets { v6: Some(id), ..sockets },
                    }
                },
                ip => {
                    &&& sockets_after == sockets
                    &&& net_after == net
                    &&& res matches Err(DnsError::SocketError(text)) && text@ == stack_fault_text(
                        StackFault::SocketError(
                            if ip is Some {
                                "Unaddressable"@
                            } else if server is V4 {
                                "No IPv4 address configured"@
                            } else {
                                "No IPv6 address configured"@
                            },
                        ),
                    )
                },
            }
        },
    }
}

/// The socket that queries to a server are sent from. It is opened with the first of them.
pub fn ensure_dns_socket(
    sockets: &mut DnsSockets,
    counters: &mut DnsCounters,
    net: &mut NetSockets,
    local: &LocalAddresses,
    server: IpAddress,
    tunables: &StackTunables,
) -> (res: Result<u64, DnsError>)
    requires
        old(net).wf(),
    ensures
        final(net).wf(),
        dns_socket_opened(
            *old(sockets),
            *final(sockets),
            *old(counters),
            *final(counters),
            old(net)@,
            final(net)@,
            *local,
            server,
            *tunables,
            res,
        ),
{
    match sockets.ensure_socket(server, counters) {
        Ok(id) => Ok(id),
        Err(local_port) => {
            let bound: Result<u64, StackError> = match local.local_addr_for_remote(server) {
                Ok(ip) => net.bind_udp_socket(SocketAddress { ip, port: local_port }, tunables),
                Err(e) => Err(e),
            };
            sockets.on_bound(server, bound)
        },
    }
}

/// A connection is opened if and only if the remote can be reached from the local port. It is then a
/// new socket that connects to just that remote, and is known under its number; otherwise nothing
/// changes.
pub proof fn how_a_connection_is_opened(
    net: Map<u64, StackSocket>,
    net_after: Map<u64, StackSocket>,
    known: SocketsView,
    known_after: SocketsView,
    iface: Interface,
    remote: SocketAddress,
    local_port: u16,
    buffer_size: nat,
    tunables: StackTunables,
    res: Result<u64, ManagerError>,
    other: u64,
)
    requires
        connection_opened(
            net,
            net_after,
            known,
            known_after,
            iface,
            remote,
            local_port,
            buffer_size,
            tunables,
            res,
        ),
    ensures
        res is Ok <==> leads_to(iface, remote, local_port),
        res is Err ==> net_after == net && known_after == known,
        res matches Ok(id) ==> {
            &&& net_after.dom().contains(id)
            &&& net_after[id] is Tcp
            &&& (net_after[id]->Tcp_0).phase == TcpPhase::SynSent
            &&& (net_after[id]->Tcp_0).route == Some((remote, local_port))
            &&& (net_after[id]->Tcp_0).tx.len() == 0
            &&& (net_after[id]->Tcp_0).rx.len() == 0
            &&& (net_after[id]->Tcp_0).tx_capacity == buffer_size
            &&& (net_after[id]->Tcp_0).rx_capacity == buffer_size
            &&& known_after.sockets.contains_key(id)
            &&& known_after.sockets[id].waiters.len() == 0
            &&& !known_after.sockets[id].close_requested
            &&& known_after.handles.last() == id
            &&& other != id && net.dom().contains(other) ==> net_after[other] == net[other]
        },
{
}

/// A UDP session is opened on its port if there is an address of one's own and the port is not zero.
/// It has a new socket, bound to that address and port.
pub proof fn how_a_udp_session_is_opened(
    net: Map<u64, StackSocket>,
    net_after: Map<u64, StackSocket>,
    known: UdpView,
    known_after: UdpView,
    local: LocalAddresses,
    local_port: u16,
    tunables: StackTunables,
    now: u64,
    res: Result<(), ManagerError>,
)
    requires
        session_opened(net, net_after, known, known_after, local, local_port, tunables, now, res),
    ensures
        res is Ok <==> local_port != 0 && (local.ipv4 is Some || local.ipv6 is Some),
        res is Err ==> net_after == net && known_after == known,
        res is Ok ==> {
            let id = known_after.sessions[local_port as u64].handle;
            &&& known_after.sessions.contains_key(local_port as u64)
            &&& known_after.sessions[local_port as u64].last_activity == now
            &&& known_after.ports == known.ports.push(local_port as u64)
            &&& net_after.dom().contains(id) && !net.dom().contains(id)
            &&& net_after[id] is Udp
            &&& (net_after[id]->Udp_0).local.port == local_port
            &&& local.ipv4 is Some ==> (net_after[id]->Udp_0).local.ip == IpAddress::V4(
                local.ipv4->0,
            )
            &&& local.ipv4 is None ==> (net_after[id]->Udp_0).local.ip == IpAddress::V6(
                local.ipv6->0,
            )
        },
{
}

/// A packet that a socket takes waits behind the others, for its remote. One that it does not take
/// changes nothing that waits.
pub proof fn what_becomes_of_an_offered_packet(
    net: Map<u64, StackSocket>,
    net_after: Map<u64, StackSocket>,
    id: u64,
    remote: SocketAddress,
    data: Seq<u8>,
    other: u64,
)
    requires
        packet_offered(net, net_after, id, remote, data),
        net.dom().contains(id) ==> net[id] is Udp,
    ensures
        net_after.dom() =~= net.dom(),
        other != id && net.dom().contains(other) ==> net_after[other] == net[other],
        net.dom().contains(id) ==> {
            let was = net[id]->Udp_0;
            let is = net_after[id]->Udp_0;
            &&& is.tx == if was.local.port != 0 && remote.port != 0 && !is_unspecified(remote.ip)
                && was.fits.contains(data.len()) {
                was.tx.push((remote, data))
            } else {
                was.tx
            }
            &&& is.rx == was.rx
            &&& is.local == was.local
        },
{
}

/// A query that was sent goes to port 53 of the server and waits under its number for its response.
pub proof fn a_query_waits_for_its_response(
    before: DnsView,
    after: DnsView,
    net_before: Map<u64, StackSocket>,
    net_after: Map<u64, StackSocket>,
    id: u64,
    server: IpAddress,
    group_id: u32,
    query_type: DnsRecordType,
    resolve_all: bool,
    now: u64,
    transaction_id: u16,
    packet: Vec<u8>,
    replies: Seq<DnsReply>,
)
    requires
        query_step(
            before,
            after,
            net_before,
            net_after,
            id,
            server,
            group_id,
            query_type,
            resolve_all,
            now,
            Ok((transaction_id, packet)),
            replies,
        ),
        net_before.dom().contains(id),
        net_before[id] is Udp,
        (net_before[id]->Udp_0).local.port != 0,
        !is_unspecified(server),
        (net_before[id]->Udp_0).fits.contains(packet@.len()),
    ensures
        (net_after[id]->Udp_0).tx == (net_before[id]->Udp_0).tx.push(
            (SocketAddress { ip: server, port: 53 }, packet@),
        ),
        after.queries.contains_key(transaction_id as u64),
        after.queries[transaction_id as u64].group_id == group_id,
        after.queries[transaction_id as u64].query_type == query_type,
        after.groups == before.groups,
        after.cache == before.cache,
        replies.len() == 0,
{
}

/// Queries go out from the socket of the server's family. One that is not there yet is bound to the
/// device's own address of that family.
pub proof fn which_socket_asks(
    sockets: DnsSockets,
    sockets_after: DnsSockets,
    counters: DnsCounters,
    counters_after: DnsCounters,
    net: Map<u64, StackSocket>,
    net_after: Map<u64, StackSocket>,
    local: LocalAddresses,
    server: IpAddress,
    tunables: StackTunables,
    res: Result<u64, DnsError>,
)
    requires
        dns_socket_opened(
            sockets,
            sockets_after,
            counters,
            counters_after,
            net,
            net_after,
            local,
            server,
            tunables,
            res,
        ),
    ensures
        server is V4 && sockets.v4 is Some ==> res == Ok::<u64, DnsError>(sockets.v4->0)
            && sockets_after == sockets && net_after == net,
        server is V6 && sockets.v6 is Some ==> res == Ok::<u64, DnsError>(sockets.v6->0)
            && sockets_after == sockets && net_after == net,
        res is Ok && server is V4 ==> sockets_after.v4 == Some(res->Ok_0) && sockets_after.v6
            == sockets.v6,
        res is Ok && server is V6 ==> sockets_after.v6 == Some(res->Ok_0) && sockets_after.v4
            == sockets.v4,
        res is Ok && server is V4 && sockets.v4 is None ==> local.ipv4 is Some && (
        net_after[res->Ok_0]->Udp_0).local == (SocketAddress {
            ip: IpAddress::V4(local.ipv4->0),
            port: counters.local_port,
        }),
        res is Ok && server is V6 && sockets.v6 is None ==> local.ipv6 is Some && (
        net_after[res->Ok_0]->Udp_0).local == (SocketAddress {
            ip: IpAddress::V6(local.ipv6->0),
            port: counters.local_port,
        }),
        res is Err ==> sockets_after == sockets && net_after == net,
        res is Err && server is V4 ==> local.ipv4 is None || counters.local_port == 0,
        res is Err && server is V6 ==> local.ipv6 is None || counters.local_port == 0,
{
}

/// Every connection that is known has its socket in the stack, every session one of its own, and the
/// lookups theirs.
pub proof fn what_is_known_is_in_the_stack(
    state: RuntimeState,
    net: Map<u64, StackSocket>,
    handle: u64,
    port: u64,
)
    requires
        stack_agrees(&state, net),
    ensures
        state.tcp@.sockets.contains_key(handle) ==> net.dom().contains(handle) && net[handle] is Tcp,
        state.udp@.sessions.contains_key(port) ==> net.dom().contains(
            state.udp@.sessions[port].handle,
        ) && net[state.udp@.sessions[port].handle] is Udp,
        state.dns_sockets.v4 is Some ==> net.dom().contains(state.dns_sockets.v4->0)
            && net[state.dns_sockets.v4->0] is Udp,
        state.dns_sockets.v6 is Some ==> net.dom().contains(state.dns_sockets.v6->0)
            && net[state.dns_sockets.v6->0] is Udp,
{
}

} // verus!
