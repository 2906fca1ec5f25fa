//! What a manager does with all of its sockets each time the stack has worked.

use crate::addr::SocketAddress;
use crate::manager::commands::RuntimeState;
use crate::manager::dns_ops::{
    are_timed_out, reply_views, timeouts_of, without_timed_out, DnsReply, DnsSockets, DnsState,
    DnsView, ReplyView,
};
use crate::manager::sockets::{
    lemma_contains_pushed, lemma_pushed, waiters_of, without, SocketView, SocketsView,
    TcpSocketState, TcpSockets,
};
use crate::manager::stack_ops::{dns_in_step, in_step, stack_agrees, udp_in_step};
use crate::manager::stream::{SocketStreamHandle, StreamView};
use crate::manager::sweep::{
    after_out, connection_in, filling_keeps_bytes, flushing_keeps_bytes, has_packet, moves_out,
    noted, ready_waiters, receive_dns, receive_udp, remove_gone, service_socket, serviced,
    takes_response, without_packet, DnsReceive, DNS_RESPONSE_SIZE,
};
use crate::manager::udp::{are_stale, is_stale, UdpSessionState, UdpSessions, UdpView};
use crate::table::Table;
use crate::tunnel::net::{NetSockets, PacketsView, StackSocket, TcpPhase, TcpView};
use vstd::prelude::*;

verus! {

/// The streams of the connections, as values.
pub open spec fn stream_views(streams: Map<u64, SocketStreamHandle>) -> Map<u64, StreamView> {
    Map::new(|id: u64| streams.contains_key(id), |id: u64| streams[id]@)
}

/// Whether every stream of a table is sound.
pub open spec fn sound_streams(streams: Map<u64, SocketStreamHandle>) -> bool {
    forall|id: u64| #[trigger] streams.contains_key(id) ==> streams[id].wf()
}

/// Whether every connection that the manager knows has a stream.
pub open spec fn streams_in_step(known: SocketsView, streams: Map<u64, SocketStreamHandle>) -> bool {
    forall|id: u64| #[trigger] known.sockets.contains_key(id) ==> streams.contains_key(id)
}

/// The connections while they are looked at: their sockets, their clients, their streams, those
/// that are over, and those whose readers and writers are to be woken.
#[verifier::ext_equal]
pub struct SweepView {
    pub net: Map<u64, StackSocket>,
    pub sockets: SocketsView,
    pub streams: Map<u64, StreamView>,
    pub gone: Seq<u64>,
    pub readers: Seq<u64>,
    pub writers: Seq<u64>,
}

/// A list with one more member, if `more` holds.
pub open spec fn pushed_if(list: Seq<u64>, id: u64, more: bool) -> Seq<u64> {
    if more {
        list.push(id)
    } else {
        list
    }
}

impl SweepView {
    /// Whether a connection is known.
    pub open spec fn knows(self, id: u64) -> bool {
        self.sockets.sockets.contains_key(id)
    }

    /// Whether a number that is not known stands for no connection that is not over, and for no
    /// socket of UDP. Whatever the stack has of it is removed.
    pub open spec fn is_stray(self, id: u64) -> bool {
        !self.knows(id) && (self.net.dom().contains(id) ==> self.net[id] is Tcp
            && !self.is_alive(id))
    }

    /// Whether the stack has a connection that is not over.
    pub open spec fn is_alive(self, id: u64) -> bool {
        self.net.dom().contains(id) && (self.net[id]->Tcp_0).is_active()
    }

    /// The connections after a look at one of them. One that is not known goes if it is over, and is
    /// passed over if it is not.
    pub open spec fn step(self, id: u64, chunk_size: usize) -> SweepView {
        if self.is_stray(id) {
            SweepView { gone: self.gone.push(id), ..self }
        } else if !self.knows(id) {
            self
        } else if self.is_alive(id) {
            let done = serviced(
                self.net[id]->Tcp_0,
                self.sockets.sockets[id],
                self.streams[id],
                chunk_size,
            );
            SweepView {
                net: self.net.insert(id, StackSocket::Tcp(done.socket)),
                sockets: self.sockets.with_socket(id, done.known),
                streams: self.streams.insert(id, done.stream),
                gone: self.gone,
                readers: pushed_if(self.readers, id, done.outcome.wake_reader),
                writers: pushed_if(self.writers, id, done.outcome.wake_writer),
            }
        } else {
            SweepView { gone: self.gone.push(id), ..self }
        }
    }

    /// The connections after a look at some of them, one after the other.
    pub open spec fn over(self, list: Seq<u64>, chunk_size: usize) -> SweepView
        decreases list.len(),
    {
        if list.len() == 0 {
            self
        } else {
            self.over(list.drop_last(), chunk_size).step(list.last(), chunk_size)
        }
    }
}

/// The streams after some of the connections are over.
pub open spec fn ended_streams(streams: Map<u64, StreamView>, gone: Seq<u64>) -> Map<
    u64,
    StreamView,
> {
    Map::new(
        |id: u64| streams.contains_key(id),
        |id: u64|
            if gone.contains(id) {
                streams[id].ended()
            } else {
                streams[id]
            },
    )
}

/// The connections before a look at them.
pub open spec fn sweep_start(
    net: Map<u64, StackSocket>,
    sockets: SocketsView,
    streams: Map<u64, StreamView>,
) -> SweepView {
    SweepView {
        net,
        sockets: SocketsView { ready: Seq::empty(), ..sockets },
        streams,
        gone: Seq::empty(),
        readers: Seq::empty(),
        writers: Seq::empty(),
    }
}

/// Whether two states of the stack have the same UDP sockets, with the same packets, and no socket of
/// the later one is new.
pub open spec fn same_packets(before: Map<u64, StackSocket>, after: Map<u64, StackSocket>) -> bool {
    &&& forall|id: u64| #[trigger]
        before.dom().contains(id) && before[id] is Udp ==> after.dom().contains(id) && after[id]
            == before[id]
    &&& forall|id: u64| #[trigger]
        after.dom().contains(id) ==> before.dom().contains(id) && (after[id] is Udp ==> before[id]
            is Udp)
}

/// What came of a look at the connections.
#[derive(Debug)]
pub struct TcpSweep {
    /// The connections whose readers are to be woken.
    pub readers: Vec<u64>,
    /// The connections whose writers are to be woken.
    pub writers: Vec<u64>,
    /// The connections that are over. Their readers and writers are to be woken too.
    pub gone: Vec<u64>,
    /// Those who wait for connections that are over, and are told that they are closed.
    pub waiters: Vec<u64>,
}

/// Looks at all connections, or at those that are ready: what clients wrote goes to the stack, what
/// came goes to the clients, and connections that are over are forgotten.
pub fn poll_tcp_sockets(
    net: &mut NetSockets,
    sockets: &mut TcpSockets,
    streams: &mut Table<SocketStreamHandle>,
    chunk_size: usize,
    full_sweep: bool,
) -> (res: TcpSweep)
    requires
        old(net).wf(),
        old(sockets).wf(),
        in_step(old(sockets)@, old(net)@),
        streams_in_step(old(sockets)@, old(streams)@),
        sound_streams(old(streams)@),
    ensures
        final(net).wf(),
        final(sockets).wf(),
        in_step(final(sockets)@, final(net)@),
        same_packets(old(net)@, final(net)@),
        streams_in_step(final(sockets)@, final(streams)@),
        sound_streams(final(streams)@),
        ({
            let list = if full_sweep {
                old(sockets)@.handles
            } else {
                old(sockets)@.ready
            };
            let end = sweep_start(old(net)@, old(sockets)@, stream_views(old(streams)@)).over(
                list,
                chunk_size,
            );
            &&& final(net)@ == end.net.remove_keys(end.gone.to_set())
            &&& final(sockets)@ == end.sockets.without_gone(end.gone)
            &&& stream_views(final(streams)@) == ended_streams(end.streams, end.gone)
            &&& res.readers@ == end.readers
            &&& res.writers@ == end.writers
            &&& res.gone@ == end.gone
            &&& res.waiters@ == waiters_of(end.sockets.sockets, end.gone)
        }),
{
    let ghost start = sweep_start(net@, sockets@, stream_views(streams@));
    let list: Vec<u64> = sockets.begin_tcp_sweep(full_sweep);
    let mut readers: Vec<u64> = Vec::new();
    let mut writers: Vec<u64> = Vec::new();
    let mut gone: Vec<u64> = Vec::new();
    let mut at: usize = 0;
    assert(list@.take(0) =~= Seq::empty());
    while at < list.len()
        invariant
            at <= list@.len(),
            net.wf(),
            sockets.wf(),
            in_step(sockets@, net@),
            same_packets(old(net)@, net@),
            streams_in_step(sockets@, streams@),
            forall|id: u64| #[trigger]
                gone@.contains(id) && net@.dom().contains(id) ==> net@[id] is Tcp,
            sound_streams(streams@),
            start.over(list@.take(at as int), chunk_size) == (SweepView {
                net: net@,
                sockets: sockets@,
                streams: stream_views(streams@),
                gone: gone@,
                readers: readers@,
                writers: writers@,
            }),
        decreases list@.len() - at,
    {
        let id: u64 = list[at];
        let ghost before = start.over(list@.take(at as int), chunk_size);
        assert(list@.take(at + 1).drop_last() =~= list@.take(at as int));
        assert(start.over(list@.take(at + 1), chunk_size) == before.step(id, chunk_size));
        if sockets.contains(id) {
            if let Some(stream) = streams.remove(id) {
                let mut stream: SocketStreamHandle = stream;
                let outcome = service_socket(net, sockets, id, &mut stream, chunk_size);
                streams.insert(id, stream);
                if outcome.gone {
                    proof {
                        lemma_contains_pushed(gone@, id);
                    }
                    gone.push(id);
                }
                if outcome.wake_reader {
                    readers.push(id);
                }
                if outcome.wake_writer {
                    writers.push(id);
                }
                assert(stream_views(streams@) =~= before.step(id, chunk_size).streams);
            }
        } else {
            let alive: bool = if net.is_tcp(id) {
                net.tcp_is_active(id)
            } else {
                net.has(id)
            };
            if !alive {
                proof {
                    lemma_contains_pushed(gone@, id);
                }
                gone.push(id);
            }
        }
        at += 1;
    }
    assert(list@.take(at as int) =~= list@);
    let ghost end = start.over(list@, chunk_size);
    let waiters: Vec<u64> = remove_gone(net, sockets, &gone);
    let mut at: usize = 0;
    while at < gone.len()
        invariant
            at <= gone@.len(),
            streams_in_step(sockets@, streams@),
            sound_streams(streams@),
            stream_views(streams@) == ended_streams(end.streams, gone@.take(at as int)),
        decreases gone@.len() - at,
    {
        let ghost before = streams@;
        let ghost seen = gone@.take(at as int);
        let id: u64 = gone[at];
        if let Some(stream) = streams.remove(id) {
            let mut stream: SocketStreamHandle = stream;
            stream.on_socket_closed();
            streams.insert(id, stream);
        }
        proof {
            assert(gone@.take(at + 1) =~= seen.push(id));
            lemma_contains_pushed(seen, id);
            assert forall|other: u64| #[trigger] before.contains_key(other) implies streams@[other]@
                == ended_streams(end.streams, gone@.take(at + 1))[other] by {
                assert(stream_views(before)[other] == before[other]@);
            }
            assert(stream_views(streams@).dom() =~= stream_views(before).dom());
            assert(stream_views(streams@) =~= ended_streams(end.streams, gone@.take(at + 1)));
        }
        at += 1;
    }
    assert(gone@.take(at as int) =~= gone@);
    TcpSweep { readers, writers, gone, waiters }
}

/// Whether the bytes of a connection fit where they are.
pub open spec fn bytes_fit(socket: TcpView, stream: StreamView) -> bool {
    socket.tx.len() <= socket.tx_capacity && stream.recv.len() <= stream.recv_limit
}

/// Whether the bytes of a connection are the same in two states: what is on its way to the remote,
/// and what is on its way to the client, in order, wherever each byte is.
pub open spec fn same_bytes(
    socket: TcpView,
    stream: StreamView,
    later_socket: TcpView,
    later_stream: StreamView,
) -> bool {
    &&& later_socket.tx + later_stream.send == socket.tx + stream.send
    &&& later_stream.recv + later_socket.rx == stream.recv + socket.rx
}

/// A look at a connection loses no byte, doubles none and keeps their order, in both directions.
pub proof fn servicing_keeps_bytes(
    socket: TcpView,
    known: SocketView,
    stream: StreamView,
    chunk_size: usize,
)
    requires
        bytes_fit(socket, stream),
    ensures
        ({
            let done = serviced(socket, known, stream, chunk_size);
            &&& bytes_fit(done.socket, done.stream)
            &&& same_bytes(socket, stream, done.socket, done.stream)
        }),
{
    let leaving = noted(known, stream).close_requested;
    let out = moves_out(socket, stream.send.len() as int, chunk_size);
    let fed = after_out(socket, stream.send, out);
    flushing_keeps_bytes(socket, stream.send, chunk_size);
    filling_keeps_bytes(
        fed,
        stream.recv,
        stream.recv_limit - stream.recv.len(),
        leaving,
        chunk_size,
    );
}

/// A look at any number of connections loses no byte, doubles none and keeps their order, whichever
/// connection one asks about.
pub proof fn sweeping_keeps_bytes(start: SweepView, list: Seq<u64>, chunk_size: usize, id: u64)
    requires
        start.net.dom().contains(id),
        start.net[id] is Tcp,
        start.streams.contains_key(id),
        bytes_fit(start.net[id]->Tcp_0, start.streams[id]),
    ensures
        ({
            let end = start.over(list, chunk_size);
            &&& end.net.dom().contains(id) && end.net[id] is Tcp
            &&& end.streams.contains_key(id)
            &&& bytes_fit(end.net[id]->Tcp_0, end.streams[id])
            &&& same_bytes(
                start.net[id]->Tcp_0,
                start.streams[id],
                end.net[id]->Tcp_0,
                end.streams[id],
            )
        }),
    decreases list.len(),
{
    if list.len() > 0 {
        let before = start.over(list.drop_last(), chunk_size);
        sweeping_keeps_bytes(start, list.drop_last(), chunk_size, id);
        if list.last() == id && before.knows(id) && before.is_alive(id) {
            servicing_keeps_bytes(
                before.net[id]->Tcp_0,
                before.sockets.sockets[id],
                before.streams[id],
                chunk_size,
            );
        }
    }
}

/// What those who wait for a connection are told.
#[derive(Debug)]
pub struct Notice {
    pub waiters: Vec<u64>,
    pub state: TcpSocketState,
}

/// What those who wait for a connection are told, as values.
pub struct NoticeView {
    pub waiters: Seq<u64>,
    pub state: TcpSocketState,
}

impl View for Notice {
    type V = NoticeView;

    open spec fn view(&self) -> NoticeView {
        NoticeView { waiters: self.waiters@, state: self.state }
    }
}

/// Whether someone waits for a connection that is no longer being made.
pub open spec fn is_due(net: Map<u64, StackSocket>, sockets: SocketsView, id: u64) -> bool {
    &&& sockets.sockets.contains_key(id)
    &&& sockets.sockets[id].waiters.len() > 0
    &&& connection_in(net, id) != TcpSocketState::Connecting
}

/// The connections after those who wait for one that is no longer being made were told.
pub open spec fn after_notices(net: Map<u64, StackSocket>, sockets: SocketsView) -> SocketsView {
    SocketsView {
        sockets: Map::new(
            |id: u64| sockets.sockets.contains_key(id),
            |id: u64|
                if is_due(net, sockets, id) {
                    SocketView { waiters: Seq::empty(), ..sockets.sockets[id] }
                } else {
                    sockets.sockets[id]
                },
        ),
        ..sockets
    }
}

/// What those who wait for some connections are told.
pub open spec fn notices_of(
    net: Map<u64, StackSocket>,
    sockets: SocketsView,
    ids: Seq<u64>,
) -> Seq<NoticeView> {
    ids.map_values(
        |id: u64|
            NoticeView { waiters: sockets.sockets[id].waiters, state: connection_in(net, id) },
    )
}

/// Whether these are the connections whose waiters are told, each once.
pub open spec fn are_due(net: Map<u64, StackSocket>, sockets: SocketsView, ids: Seq<u64>) -> bool {
    &&& ids.no_duplicates()
    &&& forall|id: u64| #[trigger] ids.contains(id) <==> is_due(net, sockets, id)
}

/// Tells those who wait for connections that are no longer being made.
pub fn notify_ready_waiters(net: &NetSockets, sockets: &mut TcpSockets) -> (notices: Vec<Notice>)
    requires
        net.wf(),
        old(sockets).wf(),
        in_step(old(sockets)@, net@),
    ensures
        final(sockets).wf(),
        final(sockets)@ == after_notices(net@, old(sockets)@),
        exists|ids: Seq<u64>|
            are_due(net@, old(sockets)@, ids) && notices@.map_values(|notice: Notice| notice@)
                == #[trigger] notices_of(net@, old(sockets)@, ids),
{
    let waiting: Vec<u64> = sockets.waiting_handles();
    let ghost start = sockets@;
    let ghost mut ids: Seq<u64> = Seq::empty();
    let mut notices: Vec<Notice> = Vec::new();
    let mut at: usize = 0;
    while at < waiting.len()
        invariant
            at <= waiting@.len(),
            net.wf(),
            sockets.wf(),
            start == old(sockets)@,
            in_step(start, net@),
            waiting@.no_duplicates(),
            forall|id: u64| #[trigger]
                waiting@.contains(id) <==> start.sockets.contains_key(id)
                    && start.sockets[id].waiters.len() > 0,
            sockets@.handles == start.handles,
            sockets@.ready == start.ready,
            sockets@.sockets.dom() == start.sockets.dom(),
            forall|id: u64| #[trigger]
                start.sockets.contains_key(id) ==> sockets@.sockets[id] == if ids.contains(id) {
                    SocketView { waiters: Seq::empty(), ..start.sockets[id] }
                } else {
                    start.sockets[id]
                },
            ids.no_duplicates(),
            forall|id: u64| #[trigger]
                ids.contains(id) <==> waiting@.take(at as int).contains(id) && is_due(
                    net@,
                    start,
                    id,
                ),
            notices@.map_values(|notice: Notice| notice@) =~= notices_of(net@, start, ids),
        decreases waiting@.len() - at,
    {
        let id: u64 = waiting[at];
        let ghost seen = waiting@.take(at as int);
        proof {
            assert(waiting@.contains(id));
            assert(waiting@.take(at + 1) =~= seen.push(id));
            lemma_contains_pushed(seen, id);
            lemma_contains_pushed(ids, id);
            if seen.contains(id) {
                let k = choose|k: int| 0 <= k < seen.len() && seen[k] == id;
                assert(waiting@[k] == waiting@[at as int]);
            }
            assert(!ids.contains(id));
        }
        if let Some((waiters, state)) = ready_waiters(net, sockets, id) {
            let ghost before = notices@;
            notices.push(Notice { waiters, state });
            proof {
                lemma_pushed(ids, id);
                assert(notices@.map_values(|notice: Notice| notice@)
                    =~= before.map_values(|notice: Notice| notice@).push(notices@.last()@));
                assert(notices_of(net@, start, ids.push(id)) =~= notices_of(net@, start, ids).push(
                    NoticeView {
                        waiters: start.sockets[id].waiters,
                        state: connection_in(net@, id),
                    },
                ));
                ids = ids.push(id);
            }
        }
        at += 1;
    }
    proof {
        assert(waiting@.take(at as int) =~= waiting@);
        assert(sockets@.sockets =~= after_notices(net@, start).sockets);
        assert(are_due(net@, start, ids));
        assert(notices@.map_values(|notice: Notice| notice@) == notices_of(net@, start, ids));
    }
    notices
}

/// The packets at the front that are short enough for a DNS response.
pub open spec fn fitting(rx: Seq<(SocketAddress, Seq<u8>)>) -> Seq<Seq<u8>>
    decreases rx.len(),
{
    if rx.len() == 0 || rx[0].1.len() > DNS_RESPONSE_SIZE {
        Seq::empty()
    } else {
        seq![rx[0].1] + fitting(rx.skip(1))
    }
}

/// The responses that are taken from a DNS socket: all up to the first that is too long.
pub open spec fn responses_at(net: Map<u64, StackSocket>, id: u64) -> Seq<Seq<u8>> {
    if net.dom().contains(id) {
        fitting((net[id]->Udp_0).rx)
    } else {
        Seq::empty()
    }
}

/// The sockets after the responses were taken from a DNS socket. One that is too long is lost.
pub open spec fn after_responses(net: Map<u64, StackSocket>, id: u64) -> Map<u64, StackSocket> {
    let socket = net[id]->Udp_0;
    let n = fitting(socket.rx).len() as int;
    if net.dom().contains(id) {
        net.insert(
            id,
            StackSocket::Udp(
                PacketsView {
                    rx: if n < socket.rx.len() {
                        socket.rx.skip(n + 1)
                    } else {
                        Seq::empty()
                    },
                    ..socket
                },
            ),
        )
    } else {
        net
    }
}

/// The sockets after the responses were taken from some DNS sockets, one after the other.
pub open spec fn after_all_responses(net: Map<u64, StackSocket>, ids: Seq<u64>) -> Map<
    u64,
    StackSocket,
>
    decreases ids.len(),
{
    if ids.len() == 0 {
        net
    } else {
        after_responses(after_all_responses(net, ids.drop_last()), ids.last())
    }
}

/// The responses that are taken from some DNS sockets, one after the other.
pub open spec fn all_responses(net: Map<u64, StackSocket>, ids: Seq<u64>) -> Seq<Seq<u8>>
    decreases ids.len(),
{
    if ids.len() == 0 {
        Seq::empty()
    } else {
        all_responses(net, ids.drop_last()) + responses_at(
            after_all_responses(net, ids.drop_last()),
            ids.last(),
        )
    }
}

/// What some responses do, one after the other: the first `split` replies come of all but the last
/// of them.
pub open spec fn takes_responses(
    before: DnsView,
    after: DnsView,
    responses: Seq<Seq<u8>>,
    now: u64,
    replies: Seq<ReplyView>,
) -> bool
    decreases responses.len(),
{
    if responses.len() == 0 {
        after == before && replies.len() == 0
    } else {
        exists|between: DnsView, split: int|
            0 <= split <= replies.len() && #[trigger] takes_response(
                between,
                after,
                responses.last(),
                now,
                replies.skip(split),
            ) && takes_responses(
                before,
                between,
                responses.drop_last(),
                now,
                replies.take(split),
            )
    }
}

proof fn lemma_one_more_response(
    before: DnsView,
    between: DnsView,
    after: DnsView,
    responses: Seq<Seq<u8>>,
    last: Seq<u8>,
    now: u64,
    replies: Seq<ReplyView>,
    more: Seq<ReplyView>,
)
    requires
        takes_responses(before, between, responses, now, replies),
        takes_response(between, after, last, now, more),
    ensures
        takes_responses(before, after, responses.push(last), now, replies + more),
{
    let split = replies.len() as int;
    assert((replies + more).skip(split) =~= more);
    assert((replies + more).take(split) =~= replies);
    assert(responses.push(last).drop_last() =~= responses);
    assert(takes_response(
        between,
        after,
        responses.push(last).last(),
        now,
        (replies + more).skip(split),
    ));
}

proof fn lemma_more_responses(
    before: DnsView,
    between: DnsView,
    after: DnsView,
    first: Seq<Seq<u8>>,
    second: Seq<Seq<u8>>,
    now: u64,
    replies: Seq<ReplyView>,
    more: Seq<ReplyView>,
)
    requires
        takes_responses(before, between, first, now, replies),
        takes_responses(between, after, second, now, more),
    ensures
        takes_responses(before, after, first + second, now, replies + more),
    decreases second.len(),
{
    if second.len() == 0 {
        assert(first + second =~= first);
        assert(replies + more =~= replies);
    } else {
        let (near, split) = choose|near: DnsView, split: int|
            0 <= split <= more.len() && #[trigger] takes_response(
                near,
                after,
                second.last(),
                now,
                more.skip(split),
            ) && takes_responses(between, near, second.drop_last(), now, more.take(split));
        lemma_more_responses(
            before,
            between,
            near,
            first,
            second.drop_last(),
            now,
            replies,
            more.take(split),
        );
        lemma_one_more_response(
            before,
            near,
            after,
            first + second.drop_last(),
            second.last(),
            now,
            replies + more.take(split),
            more.skip(split),
        );
        assert((first + second.drop_last()).push(second.last()) =~= first + second);
        assert(replies + more.take(split) + more.skip(split) =~= replies + more);
    }
}

proof fn lemma_reply_views_joined(first: Seq<DnsReply>, second: Seq<DnsReply>)
    ensures
        reply_views(first + second) == reply_views(first) + reply_views(second),
{
    assert(reply_views(first + second) =~= reply_views(first) + reply_views(second));
}

/// Takes the responses that came to a DNS socket.
fn drain_dns_socket(net: &mut NetSockets, dns: &mut DnsState, id: u64, now: u64) -> (replies: Vec<
    DnsReply,
>)
    requires
        old(net).wf(),
        old(net)@.dom().contains(id) ==> old(net)@[id] is Udp,
        old(dns).wf(),
    ensures
        final(net).wf(),
        final(dns).wf(),
        final(net)@ == after_responses(old(net)@, id),
        takes_responses(
            old(dns)@,
            final(dns)@,
            responses_at(old(net)@, id),
            now,
            reply_views(replies@),
        ),
{
    let ghost there = net@.dom().contains(id);
    let ghost socket = net@[id]->Udp_0;
    let ghost rx = if there {
        socket.rx
    } else {
        Seq::empty()
    };
    let ghost mut taken: Seq<Seq<u8>> = Seq::empty();
    let mut replies: Vec<DnsReply> = Vec::new();
    let mut more: bool = true;
    proof {
        assert(rx.skip(0) =~= rx);
        assert(taken + fitting(rx) =~= fitting(rx));
        assert(reply_views(replies@) =~= Seq::empty());
        if there {
            assert(net@ =~= net@.insert(
                id,
                StackSocket::Udp(PacketsView { rx: rx.skip(0), ..socket }),
            ));
        }
    }
    while more
        invariant
            net.wf(),
            dns.wf(),
            there == old(net)@.dom().contains(id),
            socket == old(net)@[id]->Udp_0,
            there ==> old(net)@[id] is Udp && rx == socket.rx,
            !there ==> rx.len() == 0,
            taken.len() <= rx.len(),
            fitting(rx) == taken + fitting(rx.skip(taken.len() as int)),
            takes_responses(old(dns)@, dns@, taken, now, reply_views(replies@)),
            more ==> net@ == if there {
                old(net)@.insert(
                    id,
                    StackSocket::Udp(PacketsView { rx: rx.skip(taken.len() as int), ..socket }),
                )
            } else {
                old(net)@
            },
            !more ==> net@ == after_responses(old(net)@, id) && taken == fitting(rx),
        decreases
                rx.len() - taken.len() + if more {
                    1int
                } else {
                    0
                },
    {
        let ghost k = taken.len() as int;
        let ghost before = dns@;
        let ghost told = replies@;
        match receive_dns(net, dns, id, now) {
            DnsReceive::Replies(list) => {
                let mut list: Vec<DnsReply> = list;
                proof {
                    let data = rx[k].1;
                    lemma_one_more_response(
                        old(dns)@,
                        before,
                        dns@,
                        taken,
                        data,
                        now,
                        reply_views(told),
                        reply_views(list@),
                    );
                    lemma_reply_views_joined(told, list@);
                    assert(rx.skip(k)[0] == rx[k]);
                    assert(rx.skip(k).skip(1) =~= rx.skip(k + 1));
                    assert(taken + (seq![data] + fitting(rx.skip(k + 1))) =~= taken.push(data)
                        + fitting(rx.skip(k + 1)));
                    assert(net@ =~= old(net)@.insert(
                        id,
                        StackSocket::Udp(PacketsView { rx: rx.skip(k + 1), ..socket }),
                    ));
                    taken = taken.push(data);
                }
                replies.append(&mut list);
            },
            DnsReceive::Nothing => {
                more = false;
                proof {
                    assert(fitting(rx.skip(k)).len() == 0);
                    assert(taken + fitting(rx.skip(k)) =~= taken);
                    if there {
                        if k < rx.len() {
                            assert(rx.skip(k).skip(1) =~= rx.skip(k + 1));
                        } else {
                            assert(rx.skip(k) =~= Seq::empty());
                        }
                        assert(net@ =~= after_responses(old(net)@, id));
                    }
                }
            },
        }
    }
    replies
}

/// Whether two states of the stack have the same sockets, and the same connections: no more than the
/// packets of UDP sockets differ.
pub open spec fn same_connections(a: Map<u64, StackSocket>, b: Map<u64, StackSocket>) -> bool {
    &&& a.dom() == b.dom()
    &&& forall|id: u64| #[trigger]
        a.dom().contains(id) ==> (a[id] is Tcp || b[id] is Tcp ==> a[id] == b[id])
}

/// Takes the responses that came to the DNS sockets.
pub fn process_dns_responses(
    net: &mut NetSockets,
    dns: &mut DnsState,
    sockets: &DnsSockets,
    now: u64,
) -> (replies: Vec<DnsReply>)
    requires
        old(net).wf(),
        old(dns).wf(),
        dns_in_step(*sockets, old(net)@),
    ensures
        final(net).wf(),
        final(dns).wf(),
        dns_in_step(*sockets, final(net)@),
        same_connections(old(net)@, final(net)@),
        final(net)@ == after_all_responses(old(net)@, sockets.numbers()),
        takes_responses(
            old(dns)@,
            final(dns)@,
            all_responses(old(net)@, sockets.numbers()),
            now,
            reply_views(replies@),
        ),
{
    let ids: Vec<u64> = sockets.handles();
    let mut replies: Vec<DnsReply> = Vec::new();
    let mut at: usize = 0;
    proof {
        assert(ids@.take(0) =~= Seq::empty());
        assert(reply_views(replies@) =~= Seq::empty());
    }
    while at < ids.len()
        invariant
            at <= ids@.len(),
            ids@ == sockets.numbers(),
            net.wf(),
            dns.wf(),
            dns_in_step(*sockets, net@),
            same_connections(old(net)@, net@),
            net@ == after_all_responses(old(net)@, ids@.take(at as int)),
            takes_responses(
                old(dns)@,
                dns@,
                all_responses(old(net)@, ids@.take(at as int)),
                now,
                reply_views(replies@),
            ),
        decreases ids@.len() - at,
    {
        let id: u64 = ids[at];
        let ghost before = dns@;
        let ghost told = replies@;
        let ghost seen = all_responses(old(net)@, ids@.take(at as int));
        let ghost here = responses_at(net@, id);
        assert(ids@.take(at + 1).drop_last() =~= ids@.take(at as int));
        let mut list: Vec<DnsReply> = drain_dns_socket(net, dns, id, now);
        proof {
            lemma_more_responses(
                old(dns)@,
                before,
                dns@,
                seen,
                here,
                now,
                reply_views(told),
                reply_views(list@),
            );
            lemma_reply_views_joined(told, list@);
            assert(net@.dom() =~= old(net)@.dom());
        }
        replies.append(&mut list);
        at += 1;
    }
    assert(ids@.take(at as int) =~= ids@);
    replies
}

/// A packet for the client of a UDP session.
#[derive(Debug)]
pub struct UdpDelivery {
    pub local_port: u16,
    pub remote: SocketAddress,
    pub data: Vec<u8>,
}

/// A packet for the client of a UDP session, as values.
pub struct DeliveryView {
    pub local_port: u16,
    pub remote: SocketAddress,
    pub data: Seq<u8>,
}

impl View for UdpDelivery {
    type V = DeliveryView;

    open spec fn view(&self) -> DeliveryView {
        DeliveryView { local_port: self.local_port, remote: self.remote, data: self.data@ }
    }
}

/// The UDP sessions while they are looked at: their sockets, the sessions, and the packets for
/// their clients.
#[verifier::ext_equal]
pub struct UdpRound {
    pub net: Map<u64, StackSocket>,
    pub udp: UdpView,
    pub packets: Seq<DeliveryView>,
}

impl UdpRound {
    /// The sessions after a look at one of them: its oldest packet is taken. It goes to the client
    /// unless it is empty or too long.
    pub open spec fn step(self, local_port: u64, now: u64, len: usize) -> UdpRound {
        let session = self.udp.sessions[local_port];
        let net = without_packet(self.net, session.handle);
        if !self.udp.sessions.contains_key(local_port) {
            self
        } else if has_packet(self.net, self.udp, local_port as u16, len) {
            let (remote, data) = (self.net[session.handle]->Udp_0).rx[0];
            UdpRound {
                net,
                udp: UdpView {
                    sessions: self.udp.sessions.insert(
                        local_port,
                        UdpSessionState { handle: session.handle, last_activity: now },
                    ),
                    ..self.udp
                },
                packets: self.packets.push(
                    DeliveryView { local_port: local_port as u16, remote, data },
                ),
            }
        } else {
            UdpRound { net, ..self }
        }
    }

    /// The sessions after a look at some of them, one after the other.
    pub open spec fn over(self, ports: Seq<u64>, now: u64, len: usize) -> UdpRound
        decreases ports.len(),
    {
        if ports.len() == 0 {
            self
        } else {
            self.over(ports.drop_last(), now, len).step(ports.last(), now, len)
        }
    }
}

/// Whether the same sessions are open in two states, each with its socket.
pub open spec fn same_sessions(a: UdpView, b: UdpView) -> bool {
    &&& a.ports == b.ports
    &&& a.sessions.dom() == b.sessions.dom()
    &&& forall|port: u64| #[trigger]
        a.sessions.contains_key(port) ==> a.sessions[port].handle == b.sessions[port].handle
}

/// Takes the oldest packet of each UDP session, for its client.
pub fn process_udp_responses(
    net: &mut NetSockets,
    sessions: &mut UdpSessions,
    now: u64,
    len: usize,
) -> (packets: Vec<UdpDelivery>)
    requires
        old(net).wf(),
        old(sessions).wf(),
        udp_in_step(old(sessions)@, old(net)@),
    ensures
        final(net).wf(),
        final(sessions).wf(),
        udp_in_step(final(sessions)@, final(net)@),
        same_connections(old(net)@, final(net)@),
        same_sessions(old(sessions)@, final(sessions)@),
        ({
            let start = UdpRound {
                net: old(net)@,
                udp: old(sessions)@,
                packets: Seq::empty(),
            };
            let end = start.over(old(sessions)@.ports, now, len);
            &&& final(net)@ == end.net
            &&& final(sessions)@ == end.udp
            &&& packets@.map_values(|packet: UdpDelivery| packet@) == end.packets
        }),
{
    let ghost start = UdpRound { net: net@, udp: sessions@, packets: Seq::empty() };
    let ghost all = sessions@.ports;
    let mut packets: Vec<UdpDelivery> = Vec::new();
    let mut at: usize = 0;
    proof {
        assert(all.take(0) =~= Seq::empty());
        assert(packets@.map_values(|packet: UdpDelivery| packet@) =~= Seq::empty());
    }
    while at < sessions.ports().len()
        invariant
            at <= all.len(),
            net.wf(),
            sessions.wf(),
            udp_in_step(sessions@, net@),
            same_connections(old(net)@, net@),
            same_sessions(old(sessions)@, sessions@),
            all == old(sessions)@.ports,
            start.over(all.take(at as int), now, len) == (UdpRound {
                net: net@,
                udp: sessions@,
                packets: packets@.map_values(|packet: UdpDelivery| packet@),
            }),
        decreases all.len() - at,
    {
        let ghost before = start.over(all.take(at as int), now, len);
        let port: u64 = sessions.ports()[at];
        proof {
            assert(all.take(at + 1).drop_last() =~= all.take(at as int));
            assert(start.over(all.take(at + 1), now, len) == before.step(port, now, len));
            sessions.stays_consistent();
            assert(all.contains(port));
        }
        let local_port: u16 = port as u16;
        if let Some((remote, data)) = receive_udp(net, sessions, local_port, now, len) {
            let ghost told = packets@;
            packets.push(UdpDelivery { local_port, remote, data });
            proof {
                assert(packets@.map_values(|packet: UdpDelivery| packet@) =~= told.map_values(
                    |packet: UdpDelivery| packet@,
                ).push(packets@.last()@));
            }
        }
        assert(net@.dom() =~= old(net)@.dom());
        assert(sessions@.sessions.dom() =~= old(sessions)@.sessions.dom());
        at += 1;
    }
    assert(all.take(at as int) =~= all);
    packets
}

/// The sockets of the sessions that have been idle for too long.
pub open spec fn stale_sockets(udp: UdpView, timeout: u64, now: u64) -> Set<u64> {
    Set::new(
        |id: u64|
            exists|port: u64| #[trigger]
                udp.sessions.contains_key(port) && is_stale(udp.sessions[port], timeout, now)
                    && udp.sessions[port].handle == id,
    )
}

/// Whether these are the sessions without those that have been idle for too long.
pub open spec fn after_expiry(before: UdpView, after: UdpView, timeout: u64, now: u64) -> bool {
    &&& after.sessions == Map::new(
        |port: u64|
            before.sessions.contains_key(port) && !is_stale(before.sessions[port], timeout, now),
        |port: u64| before.sessions[port],
    )
    &&& exists|stale: Seq<u64>|
        (forall|port: u64| #[trigger]
            stale.contains(port) <==> before.sessions.contains_key(port) && is_stale(
                before.sessions[port],
                timeout,
                now,
            )) && after.ports == #[trigger] without(before.ports, stale)
}

/// Ends the sessions that have been idle for longer than `timeout` seconds, and removes their
/// sockets. Returns whether there were any.
pub fn expire_udp_sessions(
    net: &mut NetSockets,
    sessions: &mut UdpSessions,
    timeout: u64,
    now: u64,
) -> (any: bool)
    requires
        old(net).wf(),
        old(sessions).wf(),
    ensures
        final(net).wf(),
        final(sessions).wf(),
        after_expiry(old(sessions)@, final(sessions)@, timeout, now),
        final(net)@ == old(net)@.remove_keys(stale_sockets(old(sessions)@, timeout, now)),
        any == (final(sessions)@.sessions != old(sessions)@.sessions),
{
    let gone: Vec<u64> = sessions.expire_udp_sessions(timeout, now);
    let ghost before = old(sessions)@;
    let ghost stale = choose|stale: Seq<u64>| #[trigger]
        are_stale(before.sessions, stale, gone@, timeout, now) && sessions@.ports == without(
            before.ports,
            stale,
        );
    let mut at: usize = 0;
    assert(gone@.take(0).to_set() =~= Set::empty());
    assert(net@.remove_keys(Set::empty()) =~= net@);
    while at < gone.len()
        invariant
            at <= gone@.len(),
            net.wf(),
            net@ == old(net)@.remove_keys(gone@.take(at as int).to_set()),
        decreases gone@.len() - at,
    {
        let id: u64 = gone[at];
        net.remove_socket(id);
        proof {
            assert(gone@.take(at + 1) =~= gone@.take(at as int).push(id));
            lemma_contains_pushed(gone@.take(at as int), id);
            assert(net@ =~= old(net)@.remove_keys(gone@.take(at + 1).to_set()));
        }
        at += 1;
    }
    proof {
        assert(gone@.take(at as int) =~= gone@);
        let sockets = stale_sockets(before, timeout, now);
        assert forall|id: u64| gone@.to_set().contains(id) <==> sockets.contains(id) by {
            if gone@.contains(id) {
                let k = choose|k: int| 0 <= k < gone@.len() && gone@[k] == id;
                assert(gone@[k] == before.sessions[stale[k]].handle);
                assert(stale.contains(stale[k]));
                assert(before.sessions.contains_key(stale[k]));
            }
            if sockets.contains(id) {
                let port = choose|port: u64| #[trigger]
                    before.sessions.contains_key(port) && is_stale(
                        before.sessions[port],
                        timeout,
                        now,
                    ) && before.sessions[port].handle == id;
                assert(stale.contains(port));
                let k = choose|k: int| 0 <= k < stale.len() && stale[k] == port;
                assert(gone@[k] == id);
            }
        }
        assert(gone@.to_set() =~= sockets);
        if gone@.len() > 0 {
            assert(stale.contains(stale[0]));
            assert(before.sessions.contains_key(stale[0]));
            assert(!sessions@.sessions.contains_key(stale[0]));
        } else {
            assert forall|port: u64| #[trigger] before.sessions.contains_key(port) implies !is_stale(
                before.sessions[port],
                timeout,
                now,
            ) by {
                if is_stale(before.sessions[port], timeout, now) {
                    assert(stale.contains(port));
                }
            }
            assert(sessions@.sessions =~= before.sessions);
        }
        assert(without(before.ports, stale) == sessions@.ports);
    }
    gone.len() > 0
}

/// What came of a look at all sockets.
#[derive(Debug)]
pub struct PollOutcome {
    /// What those who wait for connections are told.
    pub notices: Vec<Notice>,
    /// The answers to lookups, as the responses came.
    pub replies: Vec<DnsReply>,
    /// The answers to lookups that took too long.
    pub timeouts: Vec<DnsReply>,
    /// The packets for the clients of UDP sessions.
    pub packets: Vec<UdpDelivery>,
    /// Whether UDP sessions have ended.
    pub sessions_ended: bool,
    /// What came of the look at the connections.
    pub sweep: TcpSweep,
}

/// What the responses that came and the time do to the lookups.
pub open spec fn lookups_polled(
    before: DnsView,
    after: DnsView,
    responses: Seq<Seq<u8>>,
    now: u64,
    replies: Seq<ReplyView>,
    timeouts: Seq<ReplyView>,
) -> bool {
    exists|between: DnsView| #[trigger]
        takes_responses(before, between, responses, now, replies) && after == without_timed_out(
            between,
            now,
        ) && is_timeouts(between, timeouts, now)
}

/// Whether these are the answers to the lookups that took too long, one after the other.
pub open spec fn is_timeouts(dns: DnsView, timeouts: Seq<ReplyView>, now: u64) -> bool {
    exists|ids: Seq<u64>|
        are_timed_out(dns.groups, ids, now) && timeouts == #[trigger] timeouts_of(dns.groups, ids)
}

/// Looks at all sockets after the stack has worked: those who wait for connections are told, what
/// came for lookups and UDP sessions is taken, what took too long is given up, and data moves
/// between the connections and their clients.
pub fn poll_stack_common(
    state: &mut RuntimeState,
    net: &mut NetSockets,
    streams: &mut Table<SocketStreamHandle>,
    full_tcp_sweep: bool,
    now: u64,
) -> (res: PollOutcome)
    requires
        old(state).wf(),
        old(net).wf(),
        stack_agrees(old(state), old(net)@),
        streams_in_step(old(state).tcp@, old(streams)@),
        sound_streams(old(streams)@),
    ensures
        final(state).wf(),
        final(net).wf(),
        stack_agrees(final(state), final(net)@),
        streams_in_step(final(state).tcp@, final(streams)@),
        sound_streams(final(streams)@),
        final(state).tunables == old(state).tunables,
        final(state).dns_sockets == old(state).dns_sockets,
        final(state).perf == old(state).perf.after_poll(full_tcp_sweep),
        ({
            let tunables = old(state).tunables;
            let dns_ids = old(state).dns_sockets.numbers();
            let tcp = after_notices(old(net)@, old(state).tcp@);
            let round = (UdpRound {
                net: after_all_responses(old(net)@, dns_ids),
                udp: old(state).udp@,
                packets: Seq::empty(),
            }).over(old(state).udp@.ports, now, tunables.udp_recv_buffer_size);
            let left = round.net.remove_keys(
                stale_sockets(round.udp, tunables.udp_session_timeout, now),
            );
            let end = sweep_start(left, tcp, stream_views(old(streams)@)).over(
                if full_tcp_sweep {
                    tcp.handles
                } else {
                    tcp.ready
                },
                tunables.tcp_chunk_size,
            );
            &&& exists|ids: Seq<u64>|
                are_due(old(net)@, old(state).tcp@, ids) && res.notices@.map_values(
                    |notice: Notice| notice@,
                ) == #[trigger] notices_of(old(net)@, old(state).tcp@, ids)
            &&& lookups_polled(
                old(state).dns@,
                final(state).dns@,
                all_responses(old(net)@, dns_ids),
                now,
                reply_views(res.replies@),
                reply_views(res.timeouts@),
            )
            &&& res.packets@.map_values(|packet: UdpDelivery| packet@) == round.packets
            &&& after_expiry(round.udp, final(state).udp@, tunables.udp_session_timeout, now)
            &&& res.sessions_ended == (final(state).udp@.sessions != round.udp.sessions)
            &&& final(net)@ == end.net.remove_keys(end.gone.to_set())
            &&& final(state).tcp@ == end.sockets.without_gone(end.gone)
            &&& stream_views(final(streams)@) == ended_streams(end.streams, end.gone)
            &&& res.sweep.readers@ == end.readers
            &&& res.sweep.writers@ == end.writers
            &&& res.sweep.gone@ == end.gone
            &&& res.sweep.waiters@ == waiters_of(end.sockets.sockets, end.gone)
        }),
{
    state.perf.inc_poll();
    let notices: Vec<Notice> = notify_ready_waiters(net, &mut state.tcp);
    let replies: Vec<DnsReply> = process_dns_responses(
        net,
        &mut state.dns,
        &state.dns_sockets,
        now,
    );
    let packets: Vec<UdpDelivery> = process_udp_responses(
        net,
        &mut state.udp,
        now,
        state.tunables.udp_recv_buffer_size,
    );
    let ghost round = state.udp@;
    let timeouts: Vec<DnsReply> = state.dns.expire_dns_groups(now);
    let sessions_ended: bool = expire_udp_sessions(
        net,
        &mut state.udp,
        state.tunables.udp_session_timeout,
        now,
    );
    proof {
        let timeout = state.tunables.udp_session_timeout;
        let gone = stale_sockets(round, timeout, now);
        assert forall|port: u64| #[trigger]
            state.udp@.sessions.contains_key(port) implies !gone.contains(
            state.udp@.sessions[port].handle,
        ) by {
            assert(round.sessions.contains_key(port));
        }
        assert(stack_agrees(state, net@));
    }
    state.perf.inc_tcp_sweep(full_tcp_sweep);
    let sweep: TcpSweep = poll_tcp_sockets(
        net,
        &mut state.tcp,
        streams,
        state.tunables.tcp_chunk_size,
        full_tcp_sweep,
    );
    PollOutcome { notices, replies, timeouts, packets, sessions_ended, sweep }
}

/// A connection that is known and alive is served; one that is known and not alive is over, and so is
/// one that nobody knows and that is not alive. Nothing happens to any other connection.
pub proof fn what_a_sweep_does_with_a_connection(
    v: SweepView,
    id: u64,
    chunk_size: usize,
    other: u64,
)
    requires
        v.net.dom().contains(id) ==> v.net[id] is Tcp,
        other != id,
    ensures
        ({
            let after = v.step(id, chunk_size);
            let known = v.sockets.sockets.contains_key(id);
            let alive = v.net.dom().contains(id) && (v.net[id]->Tcp_0).phase != TcpPhase::Closed
                && (v.net[id]->Tcp_0).phase != TcpPhase::TimeWait && (v.net[id]->Tcp_0).phase
                != TcpPhase::Listen;
            &&& !alive ==> after.gone == v.gone.push(id)
            &&& alive ==> after.gone == v.gone
            &&& !(known && alive) ==> after.net == v.net && after.streams == v.streams
                && after.sockets == v.sockets && after.readers == v.readers && after.writers
                == v.writers
            &&& known && alive ==> {
                let done = serviced(
                    v.net[id]->Tcp_0,
                    v.sockets.sockets[id],
                    v.streams[id],
                    chunk_size,
                );
                &&& after.net[id] == StackSocket::Tcp(done.socket)
                &&& after.sockets.sockets[id] == done.known
                &&& after.streams[id] == done.stream
                &&& after.readers == if done.outcome.wake_reader {
                    v.readers.push(id)
                } else {
                    v.readers
                }
                &&& after.writers == if done.outcome.wake_writer {
                    v.writers.push(id)
                } else {
                    v.writers
                }
            }
            &&& v.net.dom().contains(other) ==> after.net.dom().contains(other) && after.net[other]
                == v.net[other]
            &&& v.streams.contains_key(other) ==> after.streams.contains_key(other)
                && after.streams[other] == v.streams[other]
            &&& v.sockets.sockets.contains_key(other) ==> after.sockets.sockets[other]
                == v.sockets.sockets[other]
        }),
{
}

/// A sweep looks at each connection of its list, in turn.
pub proof fn a_sweep_looks_at_all(v: SweepView, list: Seq<u64>, id: u64, chunk_size: usize)
    ensures
        v.over(Seq::empty(), chunk_size) == v,
        v.over(list.push(id), chunk_size) == v.over(list, chunk_size).step(id, chunk_size),
{
    assert(list.push(id).drop_last() =~= list);
}

/// The streams of connections that are over end; all others stay.
pub proof fn streams_end_with_their_connections(
    streams: Map<u64, StreamView>,
    gone: Seq<u64>,
    id: u64,
)
    requires
        streams.contains_key(id),
    ensures
        ended_streams(streams, gone).contains_key(id),
        gone.contains(id) ==> {
            let ended = ended_streams(streams, gone)[id];
            ended.socket_closed && ended.read_closed && ended.write_closed && ended.recv
                == streams[id].recv && ended.send == streams[id].send
        },
        !gone.contains(id) ==> ended_streams(streams, gone)[id] == streams[id],
{
}

/// Whoever waits for a connection is told once it is made or closed, and not before; and once told
/// waits no longer. Whoever else waits keeps waiting.
pub proof fn waiters_are_told_when_it_is_decided(
    net: Map<u64, StackSocket>,
    sockets: SocketsView,
    ids: Seq<u64>,
    id: u64,
)
    requires
        are_due(net, sockets, ids),
        sockets.sockets.contains_key(id),
    ensures
        ids.contains(id) <==> sockets.sockets[id].waiters.len() > 0 && connection_in(net, id)
            != TcpSocketState::Connecting,
        ids.contains(id) ==> notices_of(net, sockets, ids).contains(
            NoticeView { waiters: sockets.sockets[id].waiters, state: connection_in(net, id) },
        ),
        notices_of(net, sockets, ids).len() == ids.len(),
        after_notices(net, sockets).sockets.contains_key(id),
        ids.contains(id) ==> after_notices(net, sockets).sockets[id].waiters.len() == 0,
        !ids.contains(id) ==> after_notices(net, sockets).sockets[id] == sockets.sockets[id],
        after_notices(net, sockets).handles == sockets.handles,
        after_notices(net, sockets).ready == sockets.ready,
{
    if ids.contains(id) {
        let i = ids.index_of(id);
        assert(notices_of(net, sockets, ids)[i] == NoticeView {
            waiters: sockets.sockets[id].waiters,
            state: connection_in(net, id),
        });
    }
}

/// The responses that are read from a socket are all that came up to the first that is longer than
/// 4096 bytes, in their order.
pub proof fn responses_are_read_in_order(rx: Seq<(SocketAddress, Seq<u8>)>)
    ensures
        fitting(rx).len() <= rx.len(),
        forall|i: int| 0 <= i < fitting(rx).len() ==> #[trigger] fitting(rx)[i] == rx[i].1,
        forall|i: int| 0 <= i < fitting(rx).len() ==> (#[trigger] rx[i]).1.len() <= 4096,
        fitting(rx).len() < rx.len() ==> rx[fitting(rx).len() as int].1.len() > 4096,
    decreases rx.len(),
{
    if rx.len() > 0 && rx[0].1.len() <= DNS_RESPONSE_SIZE {
        let rest = rx.skip(1);
        responses_are_read_in_order(rest);
        assert forall|i: int| 0 <= i < fitting(rx).len() implies #[trigger] fitting(rx)[i]
            == rx[i].1 by {
            if i > 0 {
                assert(fitting(rx)[i] == fitting(rest)[i - 1]);
                assert(rest[i - 1] == rx[i]);
            }
        }
        assert forall|i: int| 0 <= i < fitting(rx).len() implies (#[trigger] rx[i]).1.len()
            <= 4096 by {
            if i > 0 {
                assert(rest[i - 1] == rx[i]);
            }
        }
        if fitting(rx).len() < rx.len() {
            assert(rest[fitting(rest).len() as int] == rx[fitting(rx).len() as int]);
        }
    }
}

/// A packet for a UDP session goes to its client with where it came from, and the session counts as
/// used. An empty one, and one that is too long, is taken off and dropped. Nothing happens to other
/// sessions.
pub proof fn what_becomes_of_a_udp_packet(
    round: UdpRound,
    local_port: u16,
    now: u64,
    len: usize,
    other: u64,
)
    requires
        round.udp.sessions.contains_key(local_port as u64),
        round.net.dom().contains(round.udp.sessions[local_port as u64].handle),
        round.net[round.udp.sessions[local_port as u64].handle] is Udp,
        other != local_port,
    ensures
        ({
            let id = round.udp.sessions[local_port as u64].handle;
            let waiting = (round.net[id]->Udp_0).rx;
            let after = round.step(local_port as u64, now, len);
            &&& waiting.len() > 0 && 0 < waiting[0].1.len() <= len ==> {
                &&& after.packets == round.packets.push(
                    DeliveryView { local_port, remote: waiting[0].0, data: waiting[0].1 },
                )
                &&& after.udp.sessions[local_port as u64].last_activity == now
                &&& after.udp.sessions[local_port as u64].handle == id
            }
            &&& !(waiting.len() > 0 && 0 < waiting[0].1.len() <= len) ==> after.packets
                == round.packets && after.udp == round.udp
            &&& waiting.len() > 0 ==> (after.net[id]->Udp_0).rx == waiting.skip(1)
            &&& waiting.len() == 0 ==> after.net == round.net
            &&& after.udp.sessions.contains_key(other) <==> round.udp.sessions.contains_key(other)
            &&& round.udp.sessions.contains_key(other) ==> after.udp.sessions[other]
                == round.udp.sessions[other]
            &&& after.udp.ports == round.udp.ports
        }),
{
}

/// A round looks at each session, in turn.
pub proof fn a_round_looks_at_all_sessions(
    round: UdpRound,
    ports: Seq<u64>,
    port: u64,
    now: u64,
    len: usize,
)
    ensures
        round.over(Seq::empty(), now, len) == round,
        round.over(ports.push(port), now, len) == round.over(ports, now, len).step(port, now, len),
{
    assert(ports.push(port).drop_last() =~= ports);
}

/// Sessions that have been silent for too long end, with their sockets; all others stay.
pub proof fn silent_sessions_lose_their_sockets(
    before: UdpView,
    after: UdpView,
    timeout: u64,
    now: u64,
    port: u64,
)
    requires
        after_expiry(before, after, timeout, now),
    ensures
        after.sessions.contains_key(port) <==> before.sessions.contains_key(port) && now
            <= before.sessions[port].last_activity + timeout * 1_000_000_000,
        after.sessions.contains_key(port) ==> after.sessions[port] == before.sessions[port],
        before.sessions.contains_key(port) && now > before.sessions[port].last_activity + timeout
            * 1_000_000_000 ==> stale_sockets(before, timeout, now).contains(
            before.sessions[port].handle,
        ),
        after.ports.contains(port) <==> before.ports.contains(port) && !(
        before.sessions.contains_key(port) && now > before.sessions[port].last_activity + timeout
            * 1_000_000_000),
{
    let stale = choose|stale: Seq<u64>|
        (forall|port: u64| #[trigger]
            stale.contains(port) <==> before.sessions.contains_key(port) && is_stale(
                before.sessions[port],
                timeout,
                now,
            )) && after.ports == #[trigger] without(before.ports, stale);
    crate::manager::sockets::without_keeps_the_others(before.ports, stale);
}

/// After a round no lookup is left that is older than five seconds.
pub proof fn old_lookups_end(
    before: DnsView,
    after: DnsView,
    responses: Seq<Seq<u8>>,
    now: u64,
    replies: Seq<ReplyView>,
    timeouts: Seq<ReplyView>,
    group: u64,
)
    requires
        lookups_polled(before, after, responses, now, replies, timeouts),
    ensures
        after.groups.contains_key(group) ==> now <= after.groups[group].created_at + 5_000_000_000,
{
}

/// With no responses nothing is answered, and with one more it is taken after the others.
pub proof fn responses_are_taken_in_turn(
    before: DnsView,
    between: DnsView,
    after: DnsView,
    responses: Seq<Seq<u8>>,
    next: Seq<u8>,
    now: u64,
    first: Seq<ReplyView>,
    second: Seq<ReplyView>,
)
    ensures
        takes_responses(before, after, Seq::empty(), now, first) ==> after == before && first.len()
            == 0,
        takes_responses(before, between, responses, now, first) && takes_response(
            between,
            after,
            next,
            now,
            second,
        ) ==> takes_responses(before, after, responses.push(next), now, first + second),
        takes_responses(before, after, seq![next], now, second) ==> takes_response(
            before,
            after,
            next,
            now,
            second,
        ),
{
    if takes_responses(before, between, responses, now, first) && takes_response(
        between,
        after,
        next,
        now,
        second,
    ) {
        let all = first + second;
        let split = first.len() as int;
        assert(all.take(split) =~= first);
        assert(all.skip(split) =~= second);
        assert(responses.push(next).drop_last() =~= responses);
        assert(takes_response(between, after, responses.push(next).last(), now, all.skip(split)));
    }
    if takes_responses(before, after, seq![next], now, second) {
        assert(seq![next].last() == next);
        assert(seq![next].drop_last() =~= Seq::empty());
        let (middle, split) = choose|middle: DnsView, split: int|
            0 <= split <= second.len() && #[trigger] takes_response(
                middle,
                after,
                seq![next].last(),
                now,
                second.skip(split),
            ) && takes_responses(before, middle, seq![next].drop_last(), now, second.take(split));
        assert(second.take(split).len() == split);
        assert(second.skip(0) =~= second);
    }
}

/// What is read from a socket is gone from it, together with the packet that was too long to read;
/// what waits to be sent stays.
pub proof fn responses_are_taken_off(net: Map<u64, StackSocket>, id: u64, other: u64)
    requires
        net.dom().contains(id),
        net[id] is Udp,
    ensures
        ({
            let waiting = (net[id]->Udp_0).rx;
            let after = after_responses(net, id);
            let n = responses_at(net, id).len() as int;
            &&& responses_at(net, id) == fitting(waiting)
            &&& n == waiting.len() ==> (after[id]->Udp_0).rx.len() == 0
            &&& n < waiting.len() ==> (after[id]->Udp_0).rx == waiting.skip(n + 1)
            &&& (after[id]->Udp_0).tx == (net[id]->Udp_0).tx
            &&& other != id && net.dom().contains(other) ==> after[other] == net[other]
        }),
{
    responses_are_read_in_order((net[id]->Udp_0).rx);
}

/// A sweep starts with nothing found, and with no connection marked as ready.
pub proof fn how_a_sweep_starts(
    net: Map<u64, StackSocket>,
    sockets: SocketsView,
    streams: Map<u64, StreamView>,
)
    ensures
        sweep_start(net, sockets, streams).net == net,
        sweep_start(net, sockets, streams).streams == streams,
        sweep_start(net, sockets, streams).sockets.sockets == sockets.sockets,
        sweep_start(net, sockets, streams).sockets.handles == sockets.handles,
        sweep_start(net, sockets, streams).sockets.ready.len() == 0,
        sweep_start(net, sockets, streams).gone.len() == 0,
        sweep_start(net, sockets, streams).readers.len() == 0,
        sweep_start(net, sockets, streams).writers.len() == 0,
{
}

/// What a round leaves alone: lookups and packets change no connection, a sweep changes no packets,
/// and sessions keep their sockets.
pub proof fn rounds_keep_to_their_own(
    a: Map<u64, StackSocket>,
    b: Map<u64, StackSocket>,
    id: u64,
    x: UdpView,
    y: UdpView,
    port: u64,
)
    requires
        a.dom().contains(id),
    ensures
        same_connections(a, b) ==> b.dom().contains(id) && (a[id] is Tcp ==> b[id] == a[id]),
        same_packets(a, b) && a[id] is Udp ==> b.dom().contains(id) && b[id] == a[id],
        same_sessions(x, y) && x.sessions.contains_key(port) ==> y.sessions.contains_key(port)
            && y.sessions[port].handle == x.sessions[port].handle && x.ports == y.ports,
{
    if same_sessions(x, y) && x.sessions.contains_key(port) {
        assert(x.sessions.dom().contains(port));
    }
}

} // verus!
