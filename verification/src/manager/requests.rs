//! How the requests of clients are carried out.

use crate::addr::{IpAddress, SocketAddress};
use crate::manager::commands::{
    cached_choice, is_cached, CommandStep, ManagerCommand, RuntimeState,
};
use crate::manager::dns_cache::valid_addresses;
use crate::manager::dns_ops::{
    new_group, recorded, reply_views, resolve_replies, resolve_step, server_selected, DnsCounters,
    unique_query, DnsReply, DnsSockets, DnsStart, DnsState, DnsView,
};
use crate::manager::sockets::{state_of, without, SocketView, TcpSocketState, WaitStep};
use crate::manager::stack_ops::{
    connection_opened, dns_in_step, dns_socket_opened, ensure_dns_socket, in_step, open_connection,
    open_udp_session, query_sent, query_step, send_dns_query, session_opened, stack_agrees,
};
use crate::manager::sweep::connection_in;
use crate::manager::udp::UdpView;
use crate::manager::ManagerError;
use crate::tunnel::dns::{DnsError, DnsRecordType};
use crate::tunnel::net::{has_ipv4, settable, NetSockets, StackSocket};
use crate::tunnel::stack::{LocalAddresses, StackTunables};
use smoltcp::iface::Interface;
use vstd::prelude::*;

verus! {

/// What comes of the two queries of a lookup, the one for IPv4 first.
pub open spec fn queries_sent(
    before: DnsView,
    after: DnsView,
    counters: DnsCounters,
    counters_after: DnsCounters,
    net: Map<u64, StackSocket>,
    net_after: Map<u64, StackSocket>,
    id: u64,
    start: DnsStart,
    domain: Seq<char>,
    resolve_all: bool,
    now: u64,
    replies: Seq<DnsReply>,
) -> bool {
    exists|
        between: DnsView,
        counters_between: DnsCounters,
        net_between: Map<u64, StackSocket>,
        split: int,
    |
        0 <= split <= replies.len() && #[trigger] query_sent(
            before,
            between,
            counters,
            counters_between,
            net,
            net_between,
            id,
            start.server,
            start.group_id,
            domain,
            DnsRecordType::A,
            resolve_all,
            now,
            replies.take(split),
        ) && query_sent(
            between,
            after,
            counters_between,
            counters_after,
            net_between,
            net_after,
            id,
            start.server,
            start.group_id,
            domain,
            DnsRecordType::AAAA,
            resolve_all,
            now,
            replies.skip(split),
        )
}

/// Whether the sockets of two states are the same and of the same kinds, and all but one of them are
/// in the same state.
pub open spec fn same_but_one(
    a: Map<u64, StackSocket>,
    b: Map<u64, StackSocket>,
    one: u64,
) -> bool {
    &&& a.dom() == b.dom()
    &&& forall|id: u64| #[trigger] a.dom().contains(id) && id != one ==> a[id] == b[id]
    &&& a.dom().contains(one) && a[one] is Udp ==> b[one] is Udp
}

/// Sends the queries of a lookup to a server, through a DNS socket: one for IPv4, and one for IPv6.
pub fn start_dns_queries_for_group(
    dns: &mut DnsState,
    counters: &mut DnsCounters,
    net: &mut NetSockets,
    id: u64,
    start: DnsStart,
    domain: &str,
    resolve_all: bool,
    now: u64,
) -> (replies: Vec<DnsReply>)
    requires
        old(dns).wf(),
        old(net).wf(),
        old(net)@.dom().contains(id) ==> old(net)@[id] is Udp,
    ensures
        final(dns).wf(),
        final(net).wf(),
        same_but_one(old(net)@, final(net)@, id),
        queries_sent(
            old(dns)@,
            final(dns)@,
            *old(counters),
            *final(counters),
            old(net)@,
            final(net)@,
            id,
            start,
            domain@,
            resolve_all,
            now,
            replies@,
        ),
{
    let mut replies: Vec<DnsReply> = send_dns_query(
        dns,
        counters,
        net,
        id,
        start.server,
        start.group_id,
        domain,
        DnsRecordType::A,
        resolve_all,
        now,
    );
    let ghost first = replies@;
    let ghost between = dns@;
    let ghost counters_between = *counters;
    let ghost net_between = net@;
    assert(net@.dom() =~= old(net)@.dom());
    let mut more: Vec<DnsReply> = send_dns_query(
        dns,
        counters,
        net,
        id,
        start.server,
        start.group_id,
        domain,
        DnsRecordType::AAAA,
        resolve_all,
        now,
    );
    let ghost second = more@;
    replies.append(&mut more);
    proof {
        let split = first.len() as int;
        assert(net@.dom() =~= old(net)@.dom());
        assert(replies@.take(split) =~= first);
        assert(replies@.skip(split) =~= second);
        assert(query_sent(
            old(dns)@,
            between,
            *old(counters),
            counters_between,
            old(net)@,
            net_between,
            id,
            start.server,
            start.group_id,
            domain@,
            DnsRecordType::A,
            resolve_all,
            now,
            replies@.take(split),
        ));
    }
    replies
}

/// What comes of a lookup that was started: its queries are sent through the socket for its server,
/// and where there is none, the lookup fails.
pub open spec fn lookup_started(
    before: DnsView,
    after: DnsView,
    sockets: DnsSockets,
    sockets_after: DnsSockets,
    counters: DnsCounters,
    counters_after: DnsCounters,
    net: Map<u64, StackSocket>,
    net_after: Map<u64, StackSocket>,
    local: LocalAddresses,
    tunables: StackTunables,
    start: DnsStart,
    domain: Seq<char>,
    resolve_all: bool,
    now: u64,
    replies: Seq<DnsReply>,
) -> bool {
    exists|
        counters_between: DnsCounters,
        net_between: Map<u64, StackSocket>,
        socket: Result<u64, DnsError>,
    | #[trigger]
        dns_socket_opened(
            sockets,
            sockets_after,
            counters,
            counters_between,
            net,
            net_between,
            local,
            start.server,
            tunables,
            socket,
        ) && match socket {
            Ok(id) => queries_sent(
                before,
                after,
                counters_between,
                counters_after,
                net_between,
                net_after,
                id,
                start,
                domain,
                resolve_all,
                now,
                replies,
            ),
            Err(e) => {
                let failed = recorded(
                    recorded(before, start.group_id, DnsRecordType::A, Err(e@)),
                    start.group_id,
                    DnsRecordType::AAAA,
                    Err(e@),
                );
                &&& counters_after == counters_between
                &&& net_after == net_between
                &&& reply_views(replies) == resolve_replies(failed, start.group_id)
                &&& resolve_step(failed, after, start.group_id, now)
            },
        }
}

/// Whether no socket was lost, none has changed its kind, and the connections are as they were.
pub open spec fn kinds_kept(a: Map<u64, StackSocket>, b: Map<u64, StackSocket>) -> bool {
    forall|id: u64| #[trigger]
        a.dom().contains(id) ==> b.dom().contains(id) && (a[id] is Tcp || b[id] is Tcp ==> b[id]
            == a[id])
}

/// Whether a socket for DNS is the one that was there, or one that the stack did not have.
pub open spec fn old_or_new(
    before: Option<u64>,
    after: Option<u64>,
    net: Map<u64, StackSocket>,
) -> bool {
    after == before || (after matches Some(id) && !net.dom().contains(id))
}

/// Sends the queries of a lookup. Where no socket can be opened for them, the lookup fails.
pub fn start_lookup(
    dns: &mut DnsState,
    sockets: &mut DnsSockets,
    counters: &mut DnsCounters,
    net: &mut NetSockets,
    local: &LocalAddresses,
    tunables: &StackTunables,
    start: DnsStart,
    domain: &str,
    resolve_all: bool,
    now: u64,
) -> (replies: Vec<DnsReply>)
    requires
        old(dns).wf(),
        old(net).wf(),
        dns_in_step(*old(sockets), old(net)@),
    ensures
        final(dns).wf(),
        final(net).wf(),
        dns_in_step(*final(sockets), final(net)@),
        kinds_kept(old(net)@, final(net)@),
        old_or_new(old(sockets).v4, final(sockets).v4, old(net)@),
        old_or_new(old(sockets).v6, final(sockets).v6, old(net)@),
        lookup_started(
            old(dns)@,
            final(dns)@,
            *old(sockets),
            *final(sockets),
            *old(counters),
            *final(counters),
            old(net)@,
            final(net)@,
            *local,
            *tunables,
            start,
            domain@,
            resolve_all,
            now,
            replies@,
        ),
{
    let socket: Result<u64, DnsError> = ensure_dns_socket(
        sockets,
        counters,
        net,
        local,
        start.server,
        tunables,
    );
    let ghost opened = socket;
    let ghost counters_between = *counters;
    let ghost net_between = net@;
    let replies: Vec<DnsReply> = match socket {
        Ok(id) => start_dns_queries_for_group(
            dns,
            counters,
            net,
            id,
            start,
            domain,
            resolve_all,
            now,
        ),
        Err(e) => dns.fail_dns_group(start.group_id, e, now),
    };
    assert(dns_socket_opened(
        *old(sockets),
        *sockets,
        *old(counters),
        counters_between,
        old(net)@,
        net_between,
        *local,
        start.server,
        *tunables,
        opened,
    ));
    replies
}

/// What is left to tell of a request that was carried out.
#[derive(Debug)]
pub enum CommandOutcome {
    /// Who asked for a connection is told its socket, or why there is none.
    Opened { response: u64, opened: Result<u64, ManagerError> },
    /// These are told that their connection is closed.
    Closed(Vec<u64>),
    /// These lookups are answered.
    Replies(Vec<DnsReply>),
    /// Who asked for a UDP session is told that they have it, or why not.
    Bound { response: u64, local_port: u16, bound: Result<(), ManagerError> },
    /// A UDP session has ended, if there was one.
    Unbound,
    /// Who asked is told how far their connection has come.
    State { response: u64, state: TcpSocketState },
    /// Who asked waits until the connection is no longer being made.
    Waiting,
}

/// How far the connection of a client has come: one that is unknown or being closed is closed.
pub open spec fn told_state(
    state: &RuntimeState,
    net: Map<u64, StackSocket>,
    handle: u64,
) -> TcpSocketState {
    if state.tcp@.sockets.contains_key(handle) && !state.tcp@.sockets[handle].close_requested {
        connection_in(net, handle)
    } else {
        TcpSocketState::Closed
    }
}

/// What comes of a lookup: it is answered from the cache, or it is started.
pub open spec fn looked_up(
    before: &RuntimeState,
    after: &RuntimeState,
    counters: DnsCounters,
    counters_after: DnsCounters,
    net: Map<u64, StackSocket>,
    net_after: Map<u64, StackSocket>,
    local: LocalAddresses,
    tunables: StackTunables,
    dns_servers: Seq<IpAddress>,
    domain: Seq<char>,
    prefer_ipv6: bool,
    response: Option<u64>,
    response_all: Option<u64>,
    now: u64,
    replies: Seq<DnsReply>,
) -> bool {
    exists|start: DnsStart|
        start.group_id == counters.group_id && #[trigger] server_selected(
            dns_servers,
            counters.server_index,
            prefer_ipv6,
            start.server,
        ) && lookup_started(
            (DnsView {
                groups: before.dns@.groups.insert(
                    counters.group_id as u64,
                    new_group(domain, prefer_ipv6, response, response_all, now),
                ),
                ..before.dns@
            }),
            after.dns@,
            before.dns_sockets,
            after.dns_sockets,
            counters.after_start(dns_servers.len()),
            counters_after,
            net,
            net_after,
            local,
            tunables,
            start,
            domain,
            response_all is Some,
            now,
            replies,
        )
}

/// Whether nothing of the lookups has changed.
pub open spec fn same_lookups(
    before: &RuntimeState,
    after: &RuntimeState,
    counters: DnsCounters,
    counters_after: DnsCounters,
) -> bool {
    &&& after.dns@ == before.dns@
    &&& after.dns_sockets == before.dns_sockets
    &&& counters_after == counters
}

/// Carries out a request of a client.
pub fn run_command(
    state: &mut RuntimeState,
    counters: &mut DnsCounters,
    net: &mut NetSockets,
    iface: &mut Interface,
    local: &LocalAddresses,
    tunables: &StackTunables,
    dns_servers: &Vec<IpAddress>,
    tcp_buffer_size: usize,
    cmd: ManagerCommand,
    now: u64,
) -> (outcome: CommandOutcome)
    requires
        old(state).wf(),
        old(net).wf(),
        stack_agrees(old(state), old(net)@),
        cmd is Connect ==> tcp_buffer_size <= 1_073_741_824 && settable(*tunables),
    ensures
        final(state).wf(),
        final(net).wf(),
        stack_agrees(final(state), final(net)@),
        final(state).tunables == old(state).tunables,
        final(state).perf == old(state).perf,
        has_ipv4(*final(iface)) == has_ipv4(*old(iface)),
        !(cmd is Connect || cmd is Close || cmd is WaitSocketReady) ==> final(state).tcp@ == old(
            state
        ).tcp@,
        !(cmd is UdpRegister || cmd is UdpUnregister) ==> final(state).udp@ == old(state).udp@,
        !(cmd is DnsResolve || cmd is DnsResolveAll) ==> same_lookups(
            old(state),
            final(state),
            *old(counters),
            *final(counters),
        ),
        cmd is GetSocketState || cmd is WaitSocketReady ==> final(net)@ == old(net)@,
        match cmd {
            ManagerCommand::Connect { remote_ip, remote_port, local_port, response, .. } => {
                &&& outcome matches CommandOutcome::Opened { response: asked, opened } && asked
                    == response && connection_opened(
                    old(net)@,
                    final(net)@,
                    old(state).tcp@,
                    final(state).tcp@,
                    *old(iface),
                    SocketAddress { ip: remote_ip, port: remote_port },
                    local_port,
                    tcp_buffer_size as nat,
                    *tunables,
                    opened,
                )
            },
            ManagerCommand::Close { handle } => if old(state).tcp@.sockets.contains_key(handle) {
                let socket = old(state).tcp@.sockets[handle];
                &&& outcome matches CommandOutcome::Closed(waiters) && waiters@ == socket.waiters
                &&& final(net)@ == old(net)@
                &&& final(state).tcp@ == old(state).tcp@.with_socket(
                    handle,
                    SocketView {
                        close_requested: true,
                        write_shutdown: true,
                        waiters: Seq::empty(),
                        ..socket
                    },
                )
            } else {
                &&& outcome matches CommandOutcome::Closed(waiters) && waiters@.len() == 0
                &&& final(net)@ == if old(net)@.dom().contains(handle) && old(net)@[handle] is Tcp {
                    old(net)@.remove(handle)
                } else {
                    old(net)@
                }
                &&& final(state).tcp@ == old(state).tcp@
            },
            ManagerCommand::DnsResolve { domain, prefer_ipv6, response } => {
                let choice = cached_choice(old(state).dns@.cache, domain@, now, prefer_ipv6);
                &&& outcome matches CommandOutcome::Replies(replies) && if choice.len() > 0 {
                    &&& replies@.len() == 1
                    &&& replies@[0] matches DnsReply::One { responder, address } && responder
                        == response && (address matches Ok(ip) && choice.contains(ip))
                    &&& final(net)@ == old(net)@
                    &&& same_lookups(old(state), final(state), *old(counters), *final(counters))
                } else {
                    looked_up(
                        old(state),
                        final(state),
                        *old(counters),
                        *final(counters),
                        old(net)@,
                        final(net)@,
                        *local,
                        *tunables,
                        dns_servers@,
                        domain@,
                        prefer_ipv6,
                        Some(response),
                        None,
                        now,
                        replies@,
                    )
                }
            },
            ManagerCommand::DnsResolveAll { domain, response } => {
                &&& outcome matches CommandOutcome::Replies(replies) && if is_cached(
                    old(state).dns@.cache,
                    domain@,
                    now,
                ) {
                    &&& replies@.len() == 1
                    &&& replies@[0] matches DnsReply::All { responder, addresses } && responder
                        == response && (addresses matches Ok(list) && list@ == valid_addresses(
                        old(state).dns@.cache[domain@],
                        now,
                    ))
                    &&& final(net)@ == old(net)@
                    &&& same_lookups(old(state), final(state), *old(counters), *final(counters))
                } else {
                    looked_up(
                        old(state),
                        final(state),
                        *old(counters),
                        *final(counters),
                        old(net)@,
                        final(net)@,
                        *local,
                        *tunables,
                        dns_servers@,
                        domain@,
                        true,
                        None,
                        Some(response),
                        now,
                        replies@,
                    )
                }
            },
            ManagerCommand::UdpRegister { local_port, response } => {
                &&& outcome matches CommandOutcome::Bound { response: asked, local_port: port, bound }
                    && asked == response && port == local_port && session_opened(
                    old(net)@,
                    final(net)@,
                    old(state).udp@,
                    final(state).udp@,
                    *local,
                    local_port,
                    *tunables,
                    now,
                    bound,
                )
            },
            ManagerCommand::UdpUnregister { local_port } => {
                let sessions = old(state).udp@.sessions;
                &&& outcome is Unbound
                &&& final(net)@ == if sessions.contains_key(local_port as u64) {
                    old(net)@.remove(sessions[local_port as u64].handle)
                } else {
                    old(net)@
                }
                &&& final(state).udp@ == (UdpView {
                    sessions: sessions.remove(local_port as u64),
                    ports: without(old(state).udp@.ports, seq![local_port as u64]),
                })
            },
            ManagerCommand::GetSocketState { handle, response } => {
                let told = told_state(old(state), old(net)@, handle);
                outcome == (CommandOutcome::State { response, state: told })
            },
            ManagerCommand::WaitSocketReady { handle, response } => {
                let told = told_state(old(state), old(net)@, handle);
                if told == TcpSocketState::Connecting {
                    let socket = old(state).tcp@.sockets[handle];
                    &&& outcome is Waiting
                    &&& final(state).tcp@ == old(state).tcp@.with_socket(
                        handle,
                        SocketView { waiters: socket.waiters.push(response), ..socket },
                    )
                } else {
                    &&& outcome == (CommandOutcome::State { response, state: told })
                    &&& final(state).tcp@ == old(state).tcp@
                }
            },
        },
{
    match state.handle_command(counters, dns_servers, cmd, now) {
        CommandStep::OpenTcp { remote_ip, remote_port, local_port, response } => {
            let remote = SocketAddress { ip: remote_ip, port: remote_port };
            let opened: Result<u64, ManagerError> = open_connection(
                state,
                net,
                iface,
                remote,
                local_port,
                tcp_buffer_size,
                tunables,
            );
            CommandOutcome::Opened { response, opened }
        },
        CommandStep::NotifyClosed(waiters) => CommandOutcome::Closed(waiters),
        CommandStep::DiscardTcp(handle) => {
            if net.is_tcp(handle) {
                net.tcp_close(handle);
                net.remove_socket(handle);
                assert(net@ =~= old(net)@.remove(handle));
            }
            CommandOutcome::Closed(Vec::new())
        },
        CommandStep::Reply(reply) => {
            let mut replies: Vec<DnsReply> = Vec::new();
            replies.push(reply);
            CommandOutcome::Replies(replies)
        },
        CommandStep::StartDns { start, domain, resolve_all } => {
            let replies: Vec<DnsReply> = start_lookup(
                &mut state.dns,
                &mut state.dns_sockets,
                counters,
                net,
                local,
                tunables,
                start,
                domain.as_str(),
                resolve_all,
                now,
            );
            CommandOutcome::Replies(replies)
        },
        CommandStep::BindUdp { local_port, response } => {
            let bound: Result<(), ManagerError> = open_udp_session(
                state,
                net,
                local,
                local_port,
                tunables,
                now,
            );
            CommandOutcome::Bound { response, local_port, bound }
        },
        CommandStep::RemoveUdp(handle) => {
            if let Some(handle) = handle {
                net.remove_socket(handle);
            }
            CommandOutcome::Unbound
        },
        CommandStep::AnswerState { handle, response } => {
            let (active, may_send, may_recv): (bool, bool, bool) = look_at(state, net, handle);
            let told: TcpSocketState = state.tcp.get_tcp_socket_state(
                handle,
                active,
                may_send,
                may_recv,
            );
            CommandOutcome::State { response, state: told }
        },
        CommandStep::AwaitReady { handle, response } => {
            let (active, may_send, may_recv): (bool, bool, bool) = look_at(state, net, handle);
            match state.tcp.wait_socket_ready(handle, response, active, may_send, may_recv) {
                WaitStep::Reply(told) => CommandOutcome::State { response, state: told },
                WaitStep::Wait => CommandOutcome::Waiting,
            }
        },
    }
}

/// What the stack says of a connection, which is nothing where the manager knows none: whether it
/// is not over, and whether data can be sent and received.
fn look_at(state: &RuntimeState, net: &NetSockets, handle: u64) -> (res: (bool, bool, bool))
    requires
        net.wf(),
        in_step(state.tcp@, net@),
    ensures
        state.tcp@.sockets.contains_key(handle) ==> state_of(res.0, res.1, res.2) == connection_in(
            net@,
            handle,
        ),
{
    if !state.tcp.contains(handle) {
        return (false, false, false);
    }
    (net.tcp_is_active(handle), net.tcp_may_send(handle), net.tcp_may_recv(handle))
}

/// Whoever asks for a connection's state is told that it is closed where it is not there or is to be
/// closed, and otherwise how far it has come.
pub proof fn which_state_is_told(state: RuntimeState, net: Map<u64, StackSocket>, handle: u64)
    ensures
        !state.tcp@.sockets.contains_key(handle) ==> told_state(&state, net, handle)
            == TcpSocketState::Closed,
        state.tcp@.sockets.contains_key(handle) && state.tcp@.sockets[handle].close_requested
            ==> told_state(&state, net, handle) == TcpSocketState::Closed,
        state.tcp@.sockets.contains_key(handle) && !state.tcp@.sockets[handle].close_requested
            ==> told_state(&state, net, handle) == connection_in(net, handle),
{
}

/// A lookup asks two questions, for the IPv4 and then for the IPv6 addresses of the name, each under
/// a number of its own.
pub proof fn a_lookup_asks_for_both_families(
    before: DnsView,
    after: DnsView,
    counters: DnsCounters,
    counters_after: DnsCounters,
    net: Map<u64, StackSocket>,
    net_after: Map<u64, StackSocket>,
    id: u64,
    start: DnsStart,
    domain: Seq<char>,
    resolve_all: bool,
    now: u64,
    replies: Seq<DnsReply>,
)
    requires
        queries_sent(
            before,
            after,
            counters,
            counters_after,
            net,
            net_after,
            id,
            start,
            domain,
            resolve_all,
            now,
            replies,
        ),
    ensures
        exists|
            between: DnsView,
            a_tried: int,
            a: Result<(u16, Vec<u8>), DnsError>,
            aaaa_tried: int,
            aaaa: Result<(u16, Vec<u8>), DnsError>,
        | #[trigger]
            unique_query(before.queries, counters.transaction_id, domain, false, a_tried, a)
                && #[trigger] unique_query(
                between.queries,
                counters.after_tries(a_tried).transaction_id,
                domain,
                true,
                aaaa_tried,
                aaaa,
            ) && counters_after == counters.after_tries(a_tried).after_tries(aaaa_tried),
{
    let (between, counters_between, net_between, split) = choose|
        between: DnsView,
        counters_between: DnsCounters,
        net_between: Map<u64, StackSocket>,
        split: int,
    |
        0 <= split <= replies.len() && #[trigger] query_sent(
            before,
            between,
            counters,
            counters_between,
            net,
            net_between,
            id,
            start.server,
            start.group_id,
            domain,
            DnsRecordType::A,
            resolve_all,
            now,
            replies.take(split),
        ) && query_sent(
            between,
            after,
            counters_between,
            counters_after,
            net_between,
            net_after,
            id,
            start.server,
            start.group_id,
            domain,
            DnsRecordType::AAAA,
            resolve_all,
            now,
            replies.skip(split),
        );
    let (a_tried, a) = choose|tried: int, built: Result<(u16, Vec<u8>), DnsError>| #[trigger]
        unique_query(before.queries, counters.transaction_id, domain, false, tried, built)
            && query_step(
            before,
            between,
            net,
            net_between,
            id,
            start.server,
            start.group_id,
            DnsRecordType::A,
            resolve_all,
            now,
            built,
            replies.take(split),
        ) && counters_between == counters.after_tries(tried);
    let (aaaa_tried, aaaa) = choose|tried: int, built: Result<(u16, Vec<u8>), DnsError>| #[trigger]
        unique_query(between.queries, counters_between.transaction_id, domain, true, tried, built)
            && query_step(
            between,
            after,
            net_between,
            net_after,
            id,
            start.server,
            start.group_id,
            DnsRecordType::AAAA,
            resolve_all,
            now,
            built,
            replies.skip(split),
        ) && counters_after == counters_between.after_tries(tried);
    assert(unique_query(before.queries, counters.transaction_id, domain, false, a_tried, a));
    assert(unique_query(
        between.queries,
        counters.after_tries(a_tried).transaction_id,
        domain,
        true,
        aaaa_tried,
        aaaa,
    ));
}

/// A lookup asks the server whose turn it is, in a group that remembers the name, the preferred family
/// and whoever waits.
pub proof fn a_lookup_starts_a_group(
    before: RuntimeState,
    after: RuntimeState,
    counters: DnsCounters,
    counters_after: DnsCounters,
    net: Map<u64, StackSocket>,
    net_after: Map<u64, StackSocket>,
    local: LocalAddresses,
    tunables: StackTunables,
    dns_servers: Seq<IpAddress>,
    domain: Seq<char>,
    prefer_ipv6: bool,
    response: Option<u64>,
    response_all: Option<u64>,
    now: u64,
    replies: Seq<DnsReply>,
)
    requires
        looked_up(
            &before,
            &after,
            counters,
            counters_after,
            net,
            net_after,
            local,
            tunables,
            dns_servers,
            domain,
            prefer_ipv6,
            response,
            response_all,
            now,
            replies,
        ),
    ensures
        exists|start: DnsStart, asked: DnsView|
            start.group_id == counters.group_id && #[trigger] server_selected(
                dns_servers,
                counters.server_index,
                prefer_ipv6,
                start.server,
            ) && #[trigger] asked.groups.contains_key(counters.group_id as u64) && {
                let group = asked.groups[counters.group_id as u64];
                &&& group.domain == domain
                &&& group.prefer_ipv6 == prefer_ipv6
                &&& group.response == response
                &&& group.response_all == response_all
                &&& group.created_at == now
                &&& asked.queries == before.dns@.queries
                &&& asked.cache == before.dns@.cache
                &&& lookup_started(
                    asked,
                    after.dns@,
                    before.dns_sockets,
                    after.dns_sockets,
                    counters.after_start(dns_servers.len()),
                    counters_after,
                    net,
                    net_after,
                    local,
                    tunables,
                    start,
                    domain,
                    response_all is Some,
                    now,
                    replies,
                )
            },
{
    let asked = DnsView {
        groups: before.dns@.groups.insert(
            counters.group_id as u64,
            new_group(domain, prefer_ipv6, response, response_all, now),
        ),
        ..before.dns@
    };
    assert(asked.groups.contains_key(counters.group_id as u64));
}

/// A lookup keeps every socket, and changes no connection; its queries touch one UDP socket alone.
pub proof fn lookups_touch_one_socket(
    a: Map<u64, StackSocket>,
    b: Map<u64, StackSocket>,
    one: u64,
    id: u64,
)
    requires
        a.dom().contains(id),
    ensures
        same_but_one(a, b, one) ==> b.dom().contains(id) && (id != one ==> b[id] == a[id]),
        kinds_kept(a, b) ==> b.dom().contains(id) && (a[id] is Tcp ==> b[id] == a[id]) && (a[id]
            is Udp ==> b[id] is Udp),
{
}

/// Requests that look nothing up leave the lookups, their sockets and their counters alone.
pub proof fn other_requests_leave_lookups_alone(
    before: RuntimeState,
    after: RuntimeState,
    counters: DnsCounters,
    counters_after: DnsCounters,
)
    requires
        same_lookups(&before, &after, counters, counters_after),
    ensures
        after.dns@ == before.dns@,
        after.dns_sockets == before.dns_sockets,
        counters_after == counters,
{
}

} // verus!
