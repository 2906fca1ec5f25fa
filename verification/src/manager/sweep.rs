//! What moves between the stack and the clients.

use crate::addr::SocketAddress;
use crate::manager::dns_ops::{
    reply_views, resolve_replies, resolve_step, with_response, DnsReply, DnsState, DnsView,
    ReplyView,
};
use crate::manager::sockets::{state_of, waiters_of, SocketView, TcpSocketState, TcpSockets};
use crate::manager::stream::{SocketStreamHandle, StackTransfer, StreamView};
use crate::manager::udp::{UdpSessionState, UdpSessions, UdpView};
use crate::tunnel::dns::{hickory_message, response_records};
use crate::tunnel::net::{NetSockets, PacketsView, StackSocket, TcpPhase, TcpView};
use vstd::prelude::*;

verus! {

/// How many of the bytes that a client wrote go to its socket: as many as there is room for, if the
/// socket takes data at all.
pub open spec fn moves_out(socket: TcpView, queued: int, chunk_size: usize) -> int {
    if socket.may_send() && chunk_size > 0 {
        socket.takes(queued)
    } else {
        0
    }
}

/// How many of the bytes that a socket has received go to the client: as many as there is room for,
/// unless the client is leaving.
pub open spec fn moves_in(socket: TcpView, room: int, leaving: bool, chunk_size: usize) -> int {
    if leaving || !socket.may_recv() || chunk_size == 0 || room <= 0 {
        0
    } else if (socket.rx.len() as int) < room {
        socket.rx.len() as int
    } else {
        room
    }
}

/// A socket after `n` of some bytes went to it.
pub open spec fn after_out(socket: TcpView, bytes: Seq<u8>, n: int) -> TcpView {
    TcpView { tx: socket.tx + bytes.take(n), ..socket }
}

/// A socket after `n` bytes were read from it.
pub open spec fn after_in(socket: TcpView, n: int) -> TcpView {
    TcpView { rx: socket.rx.skip(n), ..socket }
}

/// A stream of which nothing but its queues has changed.
pub open spec fn same_but_queues(a: SocketStreamHandle, b: SocketStreamHandle) -> bool {
    &&& a.handle == b.handle
    &&& a.socket_dropped == b.socket_dropped
    &&& a.socket_closed == b.socket_closed
    &&& a.read_closed == b.read_closed
    &&& a.write_closed == b.write_closed
    &&& a.write_shutdown == b.write_shutdown
    &&& a.read_event_queued == b.read_event_queued
    &&& a.write_event_queued == b.write_event_queued
    &&& a.close_event_queued == b.close_event_queued
    &&& a.recv_buffer.limit() == b.recv_buffer.limit()
    &&& a.send_buffer.limit() == b.send_buffer.limit()
}

/// Gives a socket what its client wrote, in order, in chunks. Returns whether any of it went.
pub fn flush_pending_to_stack(
    net: &mut NetSockets,
    id: u64,
    stream: &mut SocketStreamHandle,
    chunk_size: usize,
) -> (moved: bool)
    requires
        old(net).wf(),
        old(net)@.dom().contains(id),
        old(net)@[id] is Tcp,
        old(stream).wf(),
    ensures
        final(net).wf(),
        final(stream).wf(),
        same_but_queues(*final(stream), *old(stream)),
        final(stream).recv_buffer == old(stream).recv_buffer,
        ({
            let socket = old(net)@[id]->Tcp_0;
            let bytes = old(stream).send_buffer@;
            let n = moves_out(socket, bytes.len() as int, chunk_size);
            &&& moved == (n > 0)
            &&& final(stream).send_buffer@ == bytes.skip(n)
            &&& final(net)@ == old(net)@.insert(id, StackSocket::Tcp(after_out(socket, bytes, n)))
        }),
{
    let ghost before = net@;
    let ghost socket = net@[id]->Tcp_0;
    let ghost bytes = stream.send_buffer@;
    let ghost mut sent = 0int;
    let mut moved: bool = false;
    let mut more: bool = true;
    proof {
        assert(bytes.skip(0) =~= bytes);
        assert(socket.tx + bytes.take(0) =~= socket.tx);
        assert(before =~= before.insert(id, StackSocket::Tcp(after_out(socket, bytes, 0))));
    }
    while more
        invariant
            net.wf(),
            stream.wf(),
            before == old(net)@,
            bytes == old(stream).send_buffer@,
            before.dom().contains(id),
            before[id] == StackSocket::Tcp(socket),
            same_but_queues(*stream, *old(stream)),
            stream.recv_buffer == old(stream).recv_buffer,
            0 <= sent <= bytes.len(),
            moved == (sent > 0),
            stream.send_buffer@ == bytes.skip(sent),
            net@ == before.insert(id, StackSocket::Tcp(after_out(socket, bytes, sent))),
            sent > 0 ==> socket.may_send() && chunk_size > 0 && sent <= socket.takes(
                bytes.len() as int,
            ),
            !more ==> sent == moves_out(socket, bytes.len() as int, chunk_size),
        decreases
                if more {
                    bytes.len() - sent + 1
                } else {
                    0
                },
    {
        let ghost now = after_out(socket, bytes, sent);
        let may_send: bool = net.tcp_may_send(id);
        match stream.next_chunk_to_stack(may_send, chunk_size) {
            Some(chunk) => {
                let ghost c = chunk@.len() as int;
                let outcome: StackTransfer = match net.tcp_send(id, chunk.as_slice()) {
                    Ok(n) => StackTransfer::Moved(n),
                    Err(_) => StackTransfer::Failed,
                };
                more = stream.on_stack_sent(chunk.len(), outcome);
                proof {
                    let n = now.takes(c);
                    assert(chunk@ =~= bytes.subrange(sent, sent + c));
                    assert(now.tx + chunk@.take(n) =~= socket.tx + bytes.take(sent + n));
                    assert(bytes.skip(sent).skip(n) =~= bytes.skip(sent + n));
                    assert(net@ =~= before.insert(
                        id,
                        StackSocket::Tcp(after_out(socket, bytes, sent + n)),
                    ));
                    sent = sent + n;
                    if n > 0 {
                        assert(stream.send_buffer@ == bytes.skip(sent));
                    }
                }
                if let StackTransfer::Moved(n) = outcome {
                    if n > 0 {
                        moved = true;
                    }
                }
            },
            None => {
                more = false;
            },
        }
    }
    moved
}

/// Gives a client what its socket has received, in order, in chunks. Returns whether there was any.
pub fn fill_recv_buffer(
    net: &mut NetSockets,
    id: u64,
    stream: &mut SocketStreamHandle,
    leaving: bool,
    chunk_size: usize,
) -> (moved: bool)
    requires
        old(net).wf(),
        old(net)@.dom().contains(id),
        old(net)@[id] is Tcp,
        old(stream).wf(),
    ensures
        final(net).wf(),
        final(stream).wf(),
        same_but_queues(*final(stream), *old(stream)),
        final(stream).send_buffer == old(stream).send_buffer,
        ({
            let socket = old(net)@[id]->Tcp_0;
            let n = moves_in(
                socket,
                old(stream).recv_buffer.limit() - old(stream).recv_buffer@.len(),
                leaving,
                chunk_size,
            );
            &&& moved == (n > 0)
            &&& final(stream).recv_buffer@ == old(stream).recv_buffer@ + socket.rx.take(n)
            &&& final(net)@ == old(net)@.insert(id, StackSocket::Tcp(after_in(socket, n)))
        }),
{
    let ghost before = net@;
    let ghost socket = net@[id]->Tcp_0;
    let ghost start = stream.recv_buffer@;
    let ghost room = stream.recv_buffer.limit() - start.len();
    let ghost mut read = 0int;
    let mut moved: bool = false;
    let mut more: bool = true;
    proof {
        stream.recv_buffer.never_overfull();
        assert(start + socket.rx.take(0) =~= start);
        assert(socket.rx.skip(0) =~= socket.rx);
        assert(before =~= before.insert(id, StackSocket::Tcp(after_in(socket, 0))));
    }
    while more
        invariant
            net.wf(),
            stream.wf(),
            before == old(net)@,
            start == old(stream).recv_buffer@,
            room == old(stream).recv_buffer.limit() - start.len(),
            room >= 0,
            before.dom().contains(id),
            before[id] == StackSocket::Tcp(socket),
            same_but_queues(*stream, *old(stream)),
            stream.send_buffer == old(stream).send_buffer,
            0 <= read <= socket.rx.len(),
            read <= room,
            moved == (read > 0),
            stream.recv_buffer@ == start + socket.rx.take(read),
            net@ == before.insert(id, StackSocket::Tcp(after_in(socket, read))),
            read > 0 ==> !leaving && socket.may_recv() && chunk_size > 0,
            !more ==> read == moves_in(socket, room, leaving, chunk_size),
        decreases
                if more {
                    socket.rx.len() - read + 1
                } else {
                    0
                },
    {
        let ghost now = after_in(socket, read);
        let may_recv: bool = net.tcp_may_recv(id);
        match stream.next_read_len(leaving, may_recv, chunk_size) {
            Some(len) => {
                match net.tcp_recv(id, len) {
                    Ok(data) => {
                        more = stream.on_stack_received(data.as_slice());
                        if data.len() > 0 {
                            moved = true;
                        }
                        proof {
                            let n = data@.len() as int;
                            assert(data@ =~= socket.rx.subrange(read, read + n));
                            assert(start + socket.rx.take(read) + data@.take(n) =~= start
                                + socket.rx.take(read + n));
                            assert(socket.rx.skip(read).skip(n) =~= socket.rx.skip(read + n));
                            assert(net@ =~= before.insert(
                                id,
                                StackSocket::Tcp(after_in(socket, read + n)),
                            ));
                            read = read + n;
                        }
                    },
                    Err(_) => {
                        more = false;
                    },
                }
            },
            None => {
                more = false;
            },
        }
    }
    moved
}

/// What a look at a socket found.
#[derive(Debug, Clone, Copy, PartialEq, Eq, Structural)]
pub struct ServiceOutcome {
    /// The connection is over, and the socket goes.
    pub gone: bool,
    /// The client can read, or will never again.
    pub wake_reader: bool,
    /// The client can write, or will never again.
    pub wake_writer: bool,
}

/// What is known of a client after a look at its stream.
pub open spec fn noted(known: SocketView, stream: StreamView) -> SocketView {
    SocketView {
        close_requested: known.close_requested || stream.socket_dropped,
        write_shutdown: known.write_shutdown || stream.socket_dropped || stream.write_shutdown,
        ..known
    }
}

/// A socket, its client and its stream after a look at them.
pub struct Serviced {
    pub socket: TcpView,
    pub known: SocketView,
    pub stream: StreamView,
    pub outcome: ServiceOutcome,
}

/// What a look at the socket of a connection does: what the client wrote goes to the socket, what
/// came goes to the client, and once a leaving client has nothing more to send, its side is closed.
pub open spec fn serviced(
    socket: TcpView,
    known: SocketView,
    stream: StreamView,
    chunk_size: usize,
) -> Serviced {
    let known = noted(known, stream);
    let out = moves_out(socket, stream.send.len() as int, chunk_size);
    let fed = after_out(socket, stream.send, out);
    let room = stream.recv_limit - stream.recv.len();
    let read = moves_in(fed, room, known.close_requested, chunk_size);
    let idle = after_in(fed, read);
    let no_reads = idle.is_past_handshake() && !idle.may_recv();
    let no_writes = idle.is_past_handshake() && !idle.may_send();
    let close = known.close_requested && !known.fin_sent && stream.send.len() == out
        && idle.may_send();
    Serviced {
        socket: if close {
            idle.closed()
        } else {
            idle
        },
        known: SocketView { fin_sent: known.fin_sent || close, ..known },
        stream: StreamView {
            send: stream.send.skip(out),
            recv: stream.recv + fed.rx.take(read),
            read_closed: stream.read_closed || no_reads,
            write_closed: stream.write_closed || no_writes,
            ..stream
        },
        outcome: ServiceOutcome {
            gone: false,
            wake_reader: read > 0 || no_reads,
            wake_writer: out > 0 || no_writes,
        },
    }
}

/// Looks at a socket and its client: what the client wrote goes to the socket, what came goes to
/// the client, and once a leaving client has nothing more to send, its side is closed. A connection
/// that is over is only reported.
pub fn service_socket(
    net: &mut NetSockets,
    sockets: &mut TcpSockets,
    id: u64,
    stream: &mut SocketStreamHandle,
    chunk_size: usize,
) -> (res: ServiceOutcome)
    requires
        old(net).wf(),
        old(net)@.dom().contains(id) ==> old(net)@[id] is Tcp,
        old(sockets).wf(),
        old(sockets)@.sockets.contains_key(id),
        old(stream).wf(),
    ensures
        final(net).wf(),
        final(sockets).wf(),
        final(stream).wf(),
        if old(net)@.dom().contains(id) && (old(net)@[id]->Tcp_0).is_active() {
            let done = serviced(
                old(net)@[id]->Tcp_0,
                old(sockets)@.sockets[id],
                old(stream)@,
                chunk_size,
            );
            &&& final(net)@ == old(net)@.insert(id, StackSocket::Tcp(done.socket))
            &&& final(sockets)@ == old(sockets)@.with_socket(id, done.known)
            &&& final(stream)@ == done.stream
            &&& res == done.outcome
        } else {
            &&& *final(net) == *old(net)
            &&& *final(sockets) == *old(sockets)
            &&& *final(stream) == *old(stream)
            &&& res == (ServiceOutcome { gone: true, wake_reader: false, wake_writer: false })
        },
{
    if !net.tcp_is_active(id) {
        return ServiceOutcome { gone: true, wake_reader: false, wake_writer: false };
    }
    let leaving: bool = match sockets.note_stream(id, stream.socket_dropped, stream.write_shutdown) {
        Some(leaving) => leaving,
        None => false,
    };
    let sent: bool = flush_pending_to_stack(net, id, stream, chunk_size);
    let read: bool = fill_recv_buffer(net, id, stream, leaving, chunk_size);
    let past_handshake: bool = net.tcp_is_past_handshake(id);
    let may_recv: bool = net.tcp_may_recv(id);
    let may_send: bool = net.tcp_may_send(id);
    let (no_reads, no_writes): (bool, bool) = stream.on_socket_halves(
        past_handshake,
        may_recv,
        may_send,
    );
    let left: usize = stream.send_buffer.len();
    let close: bool = sockets.take_close(id, left, may_send);
    if close {
        net.tcp_close(id);
    }
    proof {
        let done = serviced(
            old(net)@[id]->Tcp_0,
            old(sockets)@.sockets[id],
            old(stream)@,
            chunk_size,
        );
        assert(net@ =~= old(net)@.insert(id, StackSocket::Tcp(done.socket)));
        assert(sockets@.sockets =~= old(sockets)@.with_socket(id, done.known).sockets);
        assert(stream@ =~= done.stream);
    }
    ServiceOutcome {
        gone: false,
        wake_reader: read || no_reads,
        wake_writer: sent || no_writes,
    }
}

/// How far a connection of the stack has come.
pub open spec fn connection_in(net: Map<u64, StackSocket>, id: u64) -> TcpSocketState {
    if net.dom().contains(id) {
        let socket = net[id]->Tcp_0;
        state_of(socket.is_active(), socket.may_send(), socket.may_recv())
    } else {
        TcpSocketState::Closed
    }
}

/// Those who wait for a connection, and what they are told, once it is no longer being made.
pub fn ready_waiters(net: &NetSockets, sockets: &mut TcpSockets, id: u64) -> (res: Option<
    (Vec<u64>, TcpSocketState),
>)
    requires
        net.wf(),
        net@.dom().contains(id) ==> net@[id] is Tcp,
        old(sockets).wf(),
    ensures
        final(sockets).wf(),
        if old(sockets)@.sockets.contains_key(id) && connection_in(net@, id)
            != TcpSocketState::Connecting {
            let known = old(sockets)@.sockets[id];
            &&& res matches Some((waiters, told)) && waiters@ == known.waiters && told
                == connection_in(net@, id)
            &&& final(sockets)@ == old(sockets)@.with_socket(
                id,
                SocketView { waiters: Seq::empty(), ..known },
            )
        } else {
            res is None && final(sockets)@ == old(sockets)@
        },
{
    let active: bool = net.tcp_is_active(id);
    let may_send: bool = net.tcp_may_send(id);
    let may_recv: bool = net.tcp_may_recv(id);
    sockets.take_ready_waiters(id, active, may_send, may_recv)
}

/// Forgets the connections that are over, and removes their sockets. Returns those who waited for
/// them.
pub fn remove_gone(net: &mut NetSockets, sockets: &mut TcpSockets, gone: &Vec<u64>) -> (waiters: Vec<
    u64,
>)
    requires
        old(net).wf(),
        old(sockets).wf(),
    ensures
        final(net).wf(),
        final(sockets).wf(),
        waiters@ == waiters_of(old(sockets)@.sockets, gone@),
        final(sockets)@ == old(sockets)@.without_gone(gone@),
        final(net)@ == old(net)@.remove_keys(gone@.to_set()),
{
    let waiters: Vec<u64> = sockets.remove_closed(gone);
    let mut at: usize = 0;
    while at < gone.len()
        invariant
            at <= gone@.len(),
            net.wf(),
            forall|id: u64| #[trigger]
                net@.dom().contains(id) <==> old(net)@.dom().contains(id) && !gone@.take(
                    at as int,
                ).contains(id),
            forall|id: u64| #[trigger]
                net@.dom().contains(id) ==> net@[id] == old(net)@[id],
        decreases gone@.len() - at,
    {
        let ghost before = net@;
        net.remove_socket(gone[at]);
        proof {
            let seen = gone@.take(at as int);
            let more = gone@.take(at + 1);
            assert(more =~= seen.push(gone@[at as int]));
            assert forall|id: u64| #[trigger]
                net@.dom().contains(id) <==> old(net)@.dom().contains(id) && !more.contains(
                    id,
                ) by {
                if more.contains(id) {
                    let k = choose|k: int| 0 <= k < more.len() && more[k] == id;
                    if k < at {
                        assert(seen[k] == id);
                    }
                }
                if seen.contains(id) {
                    let k = choose|k: int| 0 <= k < seen.len() && seen[k] == id;
                    assert(more[k] == id);
                }
                assert(more[at as int] == gone@[at as int]);
            }
        }
        at += 1;
    }
    assert(gone@.take(gone@.len() as int) =~= gone@);
    assert(net@ =~= old(net)@.remove_keys(gone@.to_set()));
    waiters
}

/// Takes the oldest packet that came for a UDP session: it goes to the client, unless it is empty.
pub fn receive_udp(
    net: &mut NetSockets,
    sessions: &mut UdpSessions,
    local_port: u16,
    now: u64,
    len: usize,
) -> (res: Option<(SocketAddress, Vec<u8>)>)
    requires
        old(net).wf(),
        old(sessions).wf(),
        old(sessions)@.sessions.contains_key(local_port as u64) ==> ({
            let id = old(sessions)@.sessions[local_port as u64].handle;
            old(net)@.dom().contains(id) ==> old(net)@[id] is Udp
        }),
    ensures
        final(net).wf(),
        final(sessions).wf(),
        match res {
            Some((remote, data)) => {
                let session = old(sessions)@.sessions[local_port as u64];
                let socket = old(net)@[session.handle]->Udp_0;
                &&& old(sessions)@.sessions.contains_key(local_port as u64)
                &&& old(net)@.dom().contains(session.handle)
                &&& socket.rx.len() > 0
                &&& socket.rx[0] == (remote, data@)
                &&& 0 < data@.len() <= len
                &&& final(net)@ == without_packet(old(net)@, session.handle)
                &&& final(sessions)@ == (UdpView {
                    sessions: old(sessions)@.sessions.insert(
                        local_port as u64,
                        UdpSessionState { handle: session.handle, last_activity: now },
                    ),
                    ..old(sessions)@
                })
            },
            None => {
                &&& final(sessions)@ == old(sessions)@
                &&& !has_packet(old(net)@, old(sessions)@, local_port, len)
                &&& final(net)@ == if old(sessions)@.sessions.contains_key(local_port as u64) {
                    without_packet(old(net)@, old(sessions)@.sessions[local_port as u64].handle)
                } else {
                    old(net)@
                }
            },
        },
{
    let id: u64 = match sessions.handle_of(local_port as u64) {
        Some(id) => id,
        None => {
            return None;
        },
    };
    if !net.udp_can_recv(id) {
        return None;
    }
    match net.udp_recv(id, len) {
        Ok((remote, data)) => {
            if data.len() == 0 {
                return None;
            }
            let _ = sessions.touch(local_port, now);
            Some((remote, data))
        },
        Err(_) => None,
    }
}

/// The sockets without the oldest packet that came to one of them, if any came.
pub open spec fn without_packet(net: Map<u64, StackSocket>, id: u64) -> Map<u64, StackSocket> {
    let socket = net[id]->Udp_0;
    if net.dom().contains(id) && socket.rx.len() > 0 {
        net.insert(id, StackSocket::Udp(PacketsView { rx: socket.rx.skip(1), ..socket }))
    } else {
        net
    }
}

/// Whether a packet came for a UDP session that goes to its client.
pub open spec fn has_packet(
    net: Map<u64, StackSocket>,
    sessions: UdpView,
    local_port: u16,
    len: usize,
) -> bool {
    sessions.sessions.contains_key(local_port as u64) && ({
        let id = sessions.sessions[local_port as u64].handle;
        net.dom().contains(id) && (net[id]->Udp_0).rx.len() > 0 && 0 < (
        net[id]->Udp_0).rx[0].1.len() <= len
    })
}

/// The bytes that a DNS response may have.
pub const DNS_RESPONSE_SIZE: usize = 4096;

/// What came of a look at a DNS socket.
#[derive(Debug)]
pub enum DnsReceive {
    /// There is nothing more.
    Nothing,
    /// A response came; these are answered.
    Replies(Vec<DnsReply>),
}

/// Takes the oldest response that came to a DNS socket. One that does not fit ends the look.
pub fn receive_dns(net: &mut NetSockets, dns: &mut DnsState, id: u64, now: u64) -> (res: DnsReceive)
    requires
        old(net).wf(),
        old(net)@.dom().contains(id) ==> old(net)@[id] is Udp,
        old(dns).wf(),
    ensures
        final(net).wf(),
        final(dns).wf(),
        match res {
            DnsReceive::Nothing => {
                &&& final(dns)@ == old(dns)@
                &&& final(net)@ == without_packet(old(net)@, id)
                &&& old(net)@.dom().contains(id) && (old(net)@[id]->Udp_0).rx.len() > 0 ==> (old(
                    net
                )@[id]->Udp_0).rx[0].1.len() > DNS_RESPONSE_SIZE
            },
            DnsReceive::Replies(replies) => {
                let socket = old(net)@[id]->Udp_0;
                let data = socket.rx[0].1;
                &&& old(net)@.dom().contains(id)
                &&& socket.rx.len() > 0
                &&& data.len() <= DNS_RESPONSE_SIZE
                &&& final(net)@ == without_packet(old(net)@, id)
                &&& takes_response(old(dns)@, final(dns)@, data, now, reply_views(replies@))
            },
        },
{
    if !net.udp_can_recv(id) {
        return DnsReceive::Nothing;
    }
    match net.udp_recv(id, DNS_RESPONSE_SIZE) {
        Ok((_, data)) => DnsReceive::Replies(dns.process_dns_response(data.as_slice(), now)),
        Err(_) => DnsReceive::Nothing,
    }
}

/// What a DNS response does: it answers the query that it is for. Others are ignored.
pub open spec fn takes_response(
    before: DnsView,
    after: DnsView,
    data: Seq<u8>,
    now: u64,
    replies: Seq<ReplyView>,
) -> bool {
    match hickory_message(data) {
        Ok(message) if data.len() > 0 && message.is_response && before.queries.contains_key(
            message.id as u64,
        ) => {
            let group_id = before.queries[message.id as u64].group_id;
            let noted = with_response(before, message.id, response_records(message));
            &&& resolve_step(noted, after, group_id, now)
            &&& replies == resolve_replies(noted, group_id)
        },
        _ => after == before && replies.len() == 0,
    }
}

/// No byte that a client wrote is lost, doubled or out of order on its way to the stack: what the
/// socket held and what the client had written are together the same before and after.
pub proof fn flushing_keeps_bytes(socket: TcpView, bytes: Seq<u8>, chunk_size: usize)
    requires
        socket.tx.len() <= socket.tx_capacity,
    ensures
        ({
            let n = moves_out(socket, bytes.len() as int, chunk_size);
            &&& 0 <= n <= bytes.len()
            &&& after_out(socket, bytes, n).tx + bytes.skip(n) == socket.tx + bytes
            &&& after_out(socket, bytes, n).tx.len() <= socket.tx_capacity
        }),
{
    let n = moves_out(socket, bytes.len() as int, chunk_size);
    assert(after_out(socket, bytes, n).tx + bytes.skip(n) =~= socket.tx + bytes);
}

/// No byte that came is lost, doubled or out of order on its way to the client.
pub proof fn filling_keeps_bytes(
    socket: TcpView,
    queued: Seq<u8>,
    room: int,
    leaving: bool,
    chunk_size: usize,
)
    requires
        room >= 0,
    ensures
        ({
            let n = moves_in(socket, room, leaving, chunk_size);
            &&& 0 <= n <= room
            &&& n <= socket.rx.len()
            &&& queued + socket.rx.take(n) + after_in(socket, n).rx == queued + socket.rx
        }),
{
    let n = moves_in(socket, room, leaving, chunk_size);
    assert(queued + socket.rx.take(n) + after_in(socket, n).rx =~= queued + socket.rx);
}

/// As many bytes go to the stack as there are and as it has room for, if it takes any at all.
pub proof fn as_much_as_fits_goes_out(socket: TcpView, queued: int, chunk_size: usize)
    requires
        queued >= 0,
        socket.tx.len() <= socket.tx_capacity,
    ensures
        ({
            let n = moves_out(socket, queued, chunk_size);
            let room = socket.tx_capacity - socket.tx.len();
            let open = chunk_size > 0 && (socket.phase == TcpPhase::Established || socket.phase
                == TcpPhase::CloseWait);
            &&& !open ==> n == 0
            &&& open ==> n <= queued && n <= room && (n == queued || n == room)
        }),
{
}

/// As many bytes go to the client as have come in and as it has room for, unless it leaves.
pub proof fn as_much_as_fits_comes_in(
    socket: TcpView,
    room: int,
    leaving: bool,
    chunk_size: usize,
)
    requires
        room >= 0,
    ensures
        ({
            let n = moves_in(socket, room, leaving, chunk_size);
            &&& leaving || chunk_size == 0 ==> n == 0
            &&& !leaving && chunk_size > 0 ==> n <= room && n <= socket.rx.len() && (n == room || n
                == socket.rx.len())
        }),
{
}

/// What is done for a connection in a round: its bytes move both ways, as many as fit. It is closed
/// once its client has left and all that it wrote has gone out, and then only once. The client is
/// woken when it can read or write again, or never will.
pub proof fn what_a_round_does_for_a_connection(
    socket: TcpView,
    known: SocketView,
    stream: StreamView,
    chunk_size: usize,
)
    requires
        socket.tx.len() <= socket.tx_capacity,
        stream.recv.len() <= stream.recv_limit,
    ensures
        ({
            let done = serviced(socket, known, stream, chunk_size);
            let out = moves_out(socket, stream.send.len() as int, chunk_size);
            let leaving = known.close_requested || stream.socket_dropped;
            let read = moves_in(
                TcpView { tx: socket.tx + stream.send.take(out), ..socket },
                stream.recv_limit - stream.recv.len(),
                leaving,
                chunk_size,
            );
            let left = socket.rx.skip(read);
            let connected = socket.phase != TcpPhase::Listen && socket.phase != TcpPhase::SynSent
                && socket.phase != TcpPhase::SynReceived;
            let can_send = socket.phase == TcpPhase::Established || socket.phase
                == TcpPhase::CloseWait;
            let can_receive = socket.phase == TcpPhase::Established || socket.phase
                == TcpPhase::FinWait1 || socket.phase == TcpPhase::FinWait2 || left.len() > 0;
            &&& done.socket.tx == socket.tx + stream.send.take(out)
            &&& done.socket.rx == left
            &&& done.stream.send == stream.send.skip(out)
            &&& done.stream.recv == stream.recv + socket.rx.take(read)
            &&& done.known.close_requested == leaving
            &&& done.known.write_shutdown == (known.write_shutdown || stream.socket_dropped
                || stream.write_shutdown)
            &&& done.known.fin_sent == (known.fin_sent || (leaving && out == stream.send.len()
                && can_send))
            &&& done.socket.phase != socket.phase ==> leaving && !known.fin_sent && out
                == stream.send.len()
            &&& leaving && !known.fin_sent && out == stream.send.len() && socket.phase
                == TcpPhase::Established ==> done.socket.phase == TcpPhase::FinWait1
            &&& leaving && !known.fin_sent && out == stream.send.len() && socket.phase
                == TcpPhase::CloseWait ==> done.socket.phase == TcpPhase::LastAck
            &&& done.stream.read_closed == (stream.read_closed || connected && !can_receive)
            &&& done.stream.write_closed == (stream.write_closed || connected && !can_send)
            &&& done.outcome.wake_reader == (read > 0 || connected && !can_receive)
            &&& done.outcome.wake_writer == (out > 0 || connected && !can_send)
            &&& !done.outcome.gone
            &&& done.known.waiters == known.waiters
        }),
{
}

/// A connection's state in the stack: closed where there is none or it is no longer active, made once
/// it can send and receive.
pub proof fn states_in_the_stack(net: Map<u64, StackSocket>, id: u64)
    requires
        net.dom().contains(id) ==> net[id] is Tcp,
    ensures
        !net.dom().contains(id) ==> connection_in(net, id) == TcpSocketState::Closed,
        net.dom().contains(id) ==> {
            let phase = (net[id]->Tcp_0).phase;
            &&& connection_in(net, id) == TcpSocketState::Closed <==> phase == TcpPhase::Closed
                || phase == TcpPhase::TimeWait || phase == TcpPhase::Listen
            &&& phase == TcpPhase::Established ==> connection_in(net, id)
                == TcpSocketState::Established
            &&& phase == TcpPhase::SynSent ==> connection_in(net, id) == TcpSocketState::Connecting
        },
{
}

/// The oldest packet of a UDP socket is taken off, and nothing else changes.
pub proof fn one_packet_is_taken(net: Map<u64, StackSocket>, id: u64, other: u64)
    requires
        net.dom().contains(id) ==> net[id] is Udp,
    ensures
        ({
            let after = without_packet(net, id);
            &&& after.dom() =~= net.dom()
            &&& other != id && net.dom().contains(other) ==> after[other] == net[other]
            &&& net.dom().contains(id) && (net[id]->Udp_0).rx.len() == 0 ==> after == net
            &&& net.dom().contains(id) && (net[id]->Udp_0).rx.len() > 0 ==> (after[id]->Udp_0).rx
                == (net[id]->Udp_0).rx.skip(1) && (after[id]->Udp_0).tx == (net[id]->Udp_0).tx
                && after[id] is Udp
        }),
{
}

/// A response that answers no query of ours changes nothing and answers nobody.
pub proof fn strange_responses_change_nothing(
    before: DnsView,
    after: DnsView,
    data: Seq<u8>,
    now: u64,
    replies: Seq<ReplyView>,
)
    requires
        takes_response(before, after, data, now, replies),
    ensures
        hickory_message(data) is Err ==> after == before && replies.len() == 0,
        data.len() == 0 ==> after == before && replies.len() == 0,
        hickory_message(data) matches Ok(message) ==> (!message.is_response
            || !before.queries.contains_key(message.id as u64) ==> after == before && replies.len()
            == 0),
        hickory_message(data) matches Ok(message) ==> (data.len() > 0 && message.is_response
            && before.queries.contains_key(message.id as u64) ==> resolve_step(
            with_response(before, message.id, response_records(message)),
            after,
            before.queries[message.id as u64].group_id,
            now,
        ) && replies == resolve_replies(
            with_response(before, message.id, response_records(message)),
            before.queries[message.id as u64].group_id,
        )),
{
}

/// A packet for a session's client is there if its socket has one that is neither empty nor too long.
pub proof fn when_a_session_has_a_packet(
    net: Map<u64, StackSocket>,
    sessions: UdpView,
    local_port: u16,
    len: usize,
)
    requires
        sessions.sessions.contains_key(local_port as u64),
        net.dom().contains(sessions.sessions[local_port as u64].handle),
    ensures
        ({
            let waiting = (net[sessions.sessions[local_port as u64].handle]->Udp_0).rx;
            has_packet(net, sessions, local_port, len) <==> waiting.len() > 0 && waiting[0].1.len()
                > 0 && waiting[0].1.len() <= len
        }),
{
}

/// Moving bytes changes nothing of a stream but its queues.
pub proof fn moving_bytes_changes_the_queues_alone(a: SocketStreamHandle, b: SocketStreamHandle)
    requires
        same_but_queues(a, b),
    ensures
        a.handle == b.handle,
        a.socket_dropped == b.socket_dropped,
        a.socket_closed == b.socket_closed,
        a.read_closed == b.read_closed,
        a.write_closed == b.write_closed,
        a.write_shutdown == b.write_shutdown,
        a@.recv_limit == b@.recv_limit,
        a@.send_limit == b@.send_limit,
        a.read_event_queued == b.read_event_queued,
        a.write_event_queued == b.write_event_queued,
        a.close_event_queued == b.close_event_queued,
{
}

} // verus!
