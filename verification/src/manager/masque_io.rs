//! The worker that moves packets between the manager and the MASQUE tunnel.

use crate::manager::tunables::ManagerTunables;
use crate::tunnel::masque::{after_chunk, datagram_payload, MasqueTunnel};
use crate::tunnel::quic::QuicSendStatus;
use crate::tunnel::stack::packets;
use std::collections::VecDeque;
use vstd::prelude::*;

verus! {

/// What a round of sending achieved.
#[derive(Debug, Clone, Copy, PartialEq, Eq, Structural)]
pub struct MasqueSendRound {
    pub sent_packets: usize,
    pub sent_bytes: usize,
    pub blocked: bool,
}

impl Default for MasqueSendRound {
    fn default() -> (round: Self)
        ensures
            round == (MasqueSendRound { sent_packets: 0, sent_bytes: 0, blocked: false }),
    {
        MasqueSendRound { sent_packets: 0, sent_bytes: 0, blocked: false }
    }
}

impl MasqueSendRound {
    /// Whether one more packet of `bytes` bytes can be counted.
    pub open spec fn has_room(&self, bytes: nat) -> bool {
        self.sent_packets < usize::MAX && self.sent_bytes + bytes <= usize::MAX
    }

    /// The round with one more packet of `bytes` bytes.
    pub open spec fn with_packet(self, bytes: nat) -> MasqueSendRound {
        MasqueSendRound {
            sent_packets: (self.sent_packets + 1) as usize,
            sent_bytes: (self.sent_bytes + bytes) as usize,
            ..self
        }
    }
}

/// What the worker tells the manager.
#[derive(Debug)]
pub enum TransportIoEvent {
    /// A packet for the stack.
    Incoming(Vec<u8>),
    /// What a round of sending achieved.
    QuicFlush(QuicSendStatus),
    /// The tunnel took no more packets.
    MasqueBlocked,
}

/// An event as values.
pub enum IoEventView {
    Incoming(Seq<u8>),
    QuicFlush(QuicSendStatus),
    MasqueBlocked,
}

impl View for TransportIoEvent {
    type V = IoEventView;

    open spec fn view(&self) -> IoEventView {
        match self {
            TransportIoEvent::Incoming(data) => IoEventView::Incoming(data@),
            TransportIoEvent::QuicFlush(status) => IoEventView::QuicFlush(*status),
            TransportIoEvent::MasqueBlocked => IoEventView::MasqueBlocked,
        }
    }
}

/// The values of a list of events.
pub open spec fn event_views(list: Seq<TransportIoEvent>) -> Seq<IoEventView> {
    Seq::new(list.len(), |i: int| list[i]@)
}

/// What a round of sending is worth telling: that the tunnel took no more, and how much it took.
pub open spec fn round_events(round: MasqueSendRound) -> Seq<IoEventView> {
    (if round.blocked {
        seq![IoEventView::MasqueBlocked]
    } else {
        Seq::empty()
    }) + (if round.sent_packets > 0 || round.blocked {
        seq![
            IoEventView::QuicFlush(
                QuicSendStatus {
                    bytes_sent: round.sent_bytes,
                    packets_sent: round.sent_packets,
                    blocked: round.blocked,
                    enobufs: false,
                    paced: false,
                },
            ),
        ]
    } else {
        Seq::empty()
    })
}

/// What a round of sending is worth telling the manager.
pub fn emit_send_round_events(round: MasqueSendRound) -> (events: Vec<TransportIoEvent>)
    ensures
        event_views(events@) == round_events(round),
{
    let mut events: Vec<TransportIoEvent> = Vec::new();
    if round.blocked {
        events.push(TransportIoEvent::MasqueBlocked);
    }
    if round.sent_packets > 0 || round.blocked {
        events.push(
            TransportIoEvent::QuicFlush(
                QuicSendStatus {
                    bytes_sent: round.sent_bytes,
                    packets_sent: round.sent_packets,
                    blocked: round.blocked,
                    enobufs: false,
                    paced: false,
                },
            ),
        );
    }
    assert(event_views(events@) =~= round_events(round));
    events
}

/// What the tunnel did with a packet.
#[derive(Debug)]
pub enum SendOutcome {
    Sent,
    Dropped,
    /// The packet does not fit; this answer goes back to its sender.
    PacketTooBig(Vec<u8>),
    /// The tunnel takes no packet now.
    Blocked,
    Failed,
}

/// What follows from what the tunnel did with a packet.
#[derive(Debug)]
pub enum FlushStep {
    /// The packet's buffer is free; the round goes on.
    Next(Vec<u8>),
    /// The packet's buffer is free, and the second packet goes to the stack; the round goes on.
    Answer(Vec<u8>, Vec<u8>),
    /// The round is over.
    Stop,
}

/// The packets that wait for the tunnel.
#[derive(Debug)]
pub struct SendBacklog {
    pub queue: VecDeque<Vec<u8>>,
}

/// All packets of a list of batches, in their order.
pub open spec fn joined(batches: Seq<Vec<Vec<u8>>>) -> Seq<Seq<u8>>
    decreases batches.len(),
{
    if batches.len() == 0 {
        Seq::empty()
    } else {
        packets(batches[0]@) + joined(batches.skip(1))
    }
}

/// How many batches a backlog of `len` packets takes: batch after batch, as long as it has fewer
/// packets than `limit`.
pub open spec fn batches_taken(len: nat, batches: Seq<Vec<Vec<u8>>>, limit: nat) -> nat
    decreases batches.len(),
{
    if len >= limit || batches.len() == 0 {
        0
    } else {
        1 + batches_taken(len + batches[0]@.len(), batches.skip(1), limit)
    }
}

impl View for SendBacklog {
    type V = Seq<Seq<u8>>;

    open spec fn view(&self) -> Seq<Seq<u8>> {
        packets(self.queue@)
    }
}

impl SendBacklog {
    /// Nothing waits.
    pub fn new() -> (backlog: SendBacklog)
        ensures
            backlog@.len() == 0,
    {
        SendBacklog { queue: VecDeque::new() }
    }

    /// Whether nothing waits.
    pub fn is_empty(&self) -> (res: bool)
        ensures
            res == (self@.len() == 0),
    {
        self.queue.len() == 0
    }

    /// Whether another batch may be taken: fewer packets than `limit` wait.
    pub fn wants_more(&self, limit: usize) -> (res: bool)
        ensures
            res == (self@.len() < limit),
    {
        self.queue.len() < limit
    }

    /// Takes a batch of packets off the channel, and off the count of what waits there.
    pub fn absorb_send_batch(&mut self, batch: Vec<Vec<u8>>, queued_packets: &mut usize)
        ensures
            final(self)@ == old(self)@ + packets(batch@),
            *final(queued_packets) == old(queued_packets).wrapping_sub(batch@.len() as usize),
    {
        *queued_packets = queued_packets.wrapping_sub(batch.len());
        let mut rest: VecDeque<Vec<u8>> = VecDeque::new();
        let ghost all = batch@;
        let mut batch: Vec<Vec<u8>> = batch;
        while batch.len() > 0
            invariant
                rest@.len() + batch@.len() == all.len(),
                batch@ =~= all.take(batch@.len() as int),
                rest@ =~= all.skip(batch@.len() as int),
            decreases batch@.len(),
        {
            match batch.pop() {
                Some(packet) => rest.push_front(packet),
                None => {},
            }
        }
        assert(rest@ =~= all);
        self.queue.append(&mut rest);
        assert(self@ =~= old(self)@ + packets(all));
    }

    /// Takes batches off the channel, as long as fewer packets than `limit` wait.
    pub fn drain_send_channel_round(
        &mut self,
        channel: &mut VecDeque<Vec<Vec<u8>>>,
        queued_packets: &mut usize,
        limit: usize,
    )
        ensures
            ({
                let n = batches_taken(old(self)@.len(), old(channel)@, limit as nat) as int;
                &&& n <= old(channel)@.len()
                &&& final(channel)@ == old(channel)@.skip(n)
                &&& final(self)@ == old(self)@ + joined(old(channel)@.take(n))
                &&& *final(queued_packets) == taken_off(*old(queued_packets), old(channel)@.take(n))
            }),
    {
        let ghost start = self@;
        let ghost all = channel@;
        let ghost mut taken: int = 0;
        proof {
            assert(all.skip(0) =~= all);
            assert(all.take(0) =~= Seq::empty());
            assert(start + joined(all.take(0)) =~= start);
        }
        while self.queue.len() < limit && channel.len() > 0
            invariant
                0 <= taken <= all.len(),
                channel@ == all.skip(taken),
                self@ == start + joined(all.take(taken)),
                *queued_packets == taken_off(*old(queued_packets), all.take(taken)),
                batches_taken(start.len(), all, limit as nat) == taken + batches_taken(
                    self@.len(),
                    channel@,
                    limit as nat,
                ),
            decreases channel@.len(),
        {
            match channel.pop_front() {
                Some(batch) => {
                    let ghost before = self@;
                    self.absorb_send_batch(batch, queued_packets);
                    proof {
                        assert(all.skip(taken).skip(1) =~= all.skip(taken + 1));
                        joined_grows(all.take(taken), batch);
                        assert(all.take(taken + 1) =~= all.take(taken).push(batch));
                        taken_off_grows(*old(queued_packets), all.take(taken), batch);
                        assert(self@ =~= start + joined(all.take(taken + 1)));
                        taken = taken + 1;
                    }
                },
                None => {},
            }
        }
    }

    /// Takes the packet that has waited longest.
    pub fn next_packet(&mut self) -> (res: Option<Vec<u8>>)
        ensures
            match res {
                Some(packet) => old(self)@.len() > 0 && packet@ == old(self)@[0] && final(self)@
                    == old(self)@.skip(1),
                None => old(self)@.len() == 0 && final(self)@ == old(self)@,
            },
    {
        let res: Option<Vec<u8>> = self.queue.pop_front();
        proof {
            if res is Some {
                assert(self@ =~= old(self)@.skip(1));
            }
        }
        res
    }

    /// Takes note of what the tunnel did with a packet. A packet that it could not take now is put
    /// back in front of all others, and the round is over.
    pub fn on_send_outcome(
        &mut self,
        round: &mut MasqueSendRound,
        packet: Vec<u8>,
        outcome: SendOutcome,
    ) -> (step: FlushStep)
        requires
            !(outcome is Blocked || outcome is Failed) ==> old(round).has_room(packet@.len()),
        ensures
            match outcome {
                SendOutcome::Sent | SendOutcome::Dropped => {
                    &&& step matches FlushStep::Next(buf) && buf@ == packet@
                    &&& *final(round) == old(round).with_packet(packet@.len())
                    &&& final(self)@ == old(self)@
                },
                SendOutcome::PacketTooBig(answer) => {
                    &&& step matches FlushStep::Answer(buf, told) && buf@ == packet@ && told@
                        == answer@
                    &&& *final(round) == old(round).with_packet(packet@.len())
                    &&& final(self)@ == old(self)@
                },
                SendOutcome::Blocked => {
                    &&& step is Stop
                    &&& *final(round) == (MasqueSendRound { blocked: true, ..*old(round) })
                    &&& final(self)@ == seq![packet@] + old(self)@
                },
                SendOutcome::Failed => {
                    &&& step matches FlushStep::Next(buf) && buf@ == packet@
                    &&& *final(round) == *old(round)
                    &&& final(self)@ == old(self)@
                },
            },
    {
        match outcome {
            SendOutcome::Sent => {
                round.sent_packets = round.sent_packets + 1;
                round.sent_bytes = round.sent_bytes + packet.len();
                FlushStep::Next(packet)
            },
            SendOutcome::Dropped => {
                round.sent_packets = round.sent_packets + 1;
                round.sent_bytes = round.sent_bytes + packet.len();
                FlushStep::Next(packet)
            },
            SendOutcome::PacketTooBig(answer) => {
                round.sent_packets = round.sent_packets + 1;
                round.sent_bytes = round.sent_bytes + packet.len();
                FlushStep::Answer(packet, answer)
            },
            SendOutcome::Blocked => {
                round.blocked = true;
                self.queue.push_front(packet);
                assert(self@ =~= seq![packet@] + old(self)@);
                FlushStep::Stop
            },
            SendOutcome::Failed => FlushStep::Next(packet),
        }
    }
}

/// The count of what waits in the channel, after batches were taken off it.
pub open spec fn taken_off(queued: usize, batches: Seq<Vec<Vec<u8>>>) -> usize
    decreases batches.len(),
{
    if batches.len() == 0 {
        queued
    } else {
        taken_off(queued, batches.drop_last()).wrapping_sub(batches.last()@.len() as usize)
    }
}

proof fn taken_off_grows(queued: usize, batches: Seq<Vec<Vec<u8>>>, batch: Vec<Vec<u8>>)
    ensures
        taken_off(queued, batches.push(batch)) == taken_off(queued, batches).wrapping_sub(
            batch@.len() as usize,
        ),
{
    assert(batches.push(batch).drop_last() =~= batches);
}

proof fn joined_grows(batches: Seq<Vec<Vec<u8>>>, batch: Vec<Vec<u8>>)
    ensures
        joined(batches.push(batch)) == joined(batches) + packets(batch@),
    decreases batches.len(),
{
    let grown = batches.push(batch);
    if batches.len() > 0 {
        assert(grown.skip(1) =~= batches.skip(1).push(batch));
        joined_grows(batches.skip(1), batch);
        assert(joined(grown) =~= joined(batches) + packets(batch@));
    } else {
        assert(grown.skip(1) =~= Seq::empty());
        assert(joined(grown.skip(1)) =~= Seq::empty());
        assert(joined(batches) =~= Seq::empty());
        assert(joined(grown) =~= joined(batches) + packets(batch@));
    }
}

/// What happens to the worker.
#[derive(Debug)]
pub enum IoEvent {
    /// The manager ends the worker.
    Shutdown,
    /// It is time to look at the connection's figures.
    StatsTick,
    /// The HTTP/3 connection failed or was shut down.
    ConnectionLost,
    /// A stream was reset.
    StreamReset(u64),
    /// A stream was closed.
    StreamClosed(u64),
    /// Any other event of the HTTP/3 connection.
    OtherEvent,
    /// The HTTP/3 connection will bring no more events.
    EventsClosed,
    /// A datagram came in.
    Datagram(Vec<u8>),
    /// Anything else came in where datagrams do.
    OtherFrame,
    /// No more datagrams will come in.
    FlowClosed,
    /// Bytes of the control stream came in; the flag says whether they are the last ones.
    Control(Vec<u8>, bool),
    /// Anything else came in on the control stream.
    OtherControl,
    /// The control stream is closed.
    ControlClosed,
    /// The manager sends packets.
    Batch(Vec<Vec<u8>>),
    /// The manager will send no more packets.
    ChannelClosed,
}

/// What the worker does next.
#[derive(Debug)]
pub enum IoAction {
    /// Wait for the next event.
    Continue,
    /// End.
    Stop,
    /// Look at the connection's figures.
    SampleStats,
    /// Hand this packet to the manager.
    Deliver(Vec<u8>),
    /// Take further batches off the channel, and send what waits.
    Drain,
}

/// The worker's action as values.
pub enum IoActionView {
    Continue,
    Stop,
    SampleStats,
    Deliver(Seq<u8>),
    Drain,
}

impl View for IoAction {
    type V = IoActionView;

    open spec fn view(&self) -> IoActionView {
        match self {
            IoAction::Continue => IoActionView::Continue,
            IoAction::Stop => IoActionView::Stop,
            IoAction::SampleStats => IoActionView::SampleStats,
            IoAction::Deliver(packet) => IoActionView::Deliver(packet@),
            IoAction::Drain => IoActionView::Drain,
        }
    }
}

/// The worker: the tunnel, the packets that wait for it, and the length of the longest packet
/// that it hands to the manager.
#[derive(Debug)]
pub struct MasqueWorker {
    pub tunnel: MasqueTunnel,
    pub backlog: SendBacklog,
    pub recv_limit: usize,
}

/// What a datagram is worth: the packet in it, unless it is empty, of another context, too long
/// or not a datagram at all.
pub open spec fn delivered(dgram: Seq<u8>, limit: usize) -> IoActionView {
    match datagram_payload(dgram) {
        Ok(Some(payload)) => if 0 < payload.len() <= limit {
            IoActionView::Deliver(payload)
        } else {
            IoActionView::Continue
        },
        _ => IoActionView::Continue,
    }
}

impl MasqueWorker {
    /// What the worker does next.
    pub open spec fn action(&self, event: IoEvent) -> IoActionView {
        match event {
            IoEvent::Shutdown => IoActionView::Stop,
            IoEvent::StatsTick => IoActionView::SampleStats,
            IoEvent::ConnectionLost => IoActionView::Stop,
            IoEvent::StreamReset(id) | IoEvent::StreamClosed(id) => if id
                == self.tunnel.connect_stream_id {
                IoActionView::Stop
            } else {
                IoActionView::Continue
            },
            IoEvent::OtherEvent => IoActionView::Continue,
            IoEvent::EventsClosed => IoActionView::Stop,
            IoEvent::Datagram(dgram) => delivered(dgram@, self.recv_limit),
            IoEvent::OtherFrame => IoActionView::Continue,
            IoEvent::FlowClosed => IoActionView::Stop,
            IoEvent::Control(body, fin) => if after_chunk(
                self.tunnel.control_state@,
                body@,
                fin,
            ).1 is Some {
                IoActionView::Stop
            } else {
                IoActionView::Continue
            },
            IoEvent::OtherControl => IoActionView::Continue,
            IoEvent::ControlClosed => IoActionView::Continue,
            IoEvent::Batch(_) => IoActionView::Drain,
            IoEvent::ChannelClosed => IoActionView::Stop,
        }
    }

    /// Takes note of an event, and says what comes next.
    pub fn on_event(&mut self, event: IoEvent, queued_packets: &mut usize) -> (action: IoAction)
        ensures
            action@ == old(self).action(event),
            final(self).recv_limit == old(self).recv_limit,
            final(self).tunnel.connect_stream_id == old(self).tunnel.connect_stream_id,
            final(self).tunnel.flow_id == old(self).tunnel.flow_id,
            final(self).tunnel.max_h3_dgram_len == old(self).tunnel.max_h3_dgram_len,
            final(self).tunnel.control_state@ == match event {
                IoEvent::Control(body, fin) => after_chunk(
                    old(self).tunnel.control_state@,
                    body@,
                    fin,
                ).0,
                _ => old(self).tunnel.control_state@,
            },
            match event {
                IoEvent::Batch(batch) => final(self).backlog@ == old(self).backlog@ + packets(
                    batch@,
                ) && *final(queued_packets) == old(queued_packets).wrapping_sub(
                    batch@.len() as usize,
                ),
                _ => final(self).backlog@ == old(self).backlog@ && *final(queued_packets)
                    == *old(queued_packets),
            },
    {
        match event {
            IoEvent::Shutdown => IoAction::Stop,
            IoEvent::StatsTick => IoAction::SampleStats,
            IoEvent::ConnectionLost => IoAction::Stop,
            IoEvent::StreamReset(id) => {
                if id == self.tunnel.connect_stream_id {
                    IoAction::Stop
                } else {
                    IoAction::Continue
                }
            },
            IoEvent::StreamClosed(id) => {
                if id == self.tunnel.connect_stream_id {
                    IoAction::Stop
                } else {
                    IoAction::Continue
                }
            },
            IoEvent::OtherEvent => IoAction::Continue,
            IoEvent::EventsClosed => IoAction::Stop,
            IoEvent::Datagram(dgram) => {
                let mut buf: Vec<u8> = vec![0; self.recv_limit];
                match self.tunnel.decode_datagram(dgram.as_slice(), &mut buf) {
                    Ok(len) => {
                        if len > 0 {
                            proof {
                                let payload = datagram_payload(dgram@)->Ok_0->0;
                                assert(buf@.take(len as int) =~= payload);
                            }
                            buf.truncate(len);
                            IoAction::Deliver(buf)
                        } else {
                            IoAction::Continue
                        }
                    },
                    Err(_) => IoAction::Continue,
                }
            },
            IoEvent::OtherFrame => IoAction::Continue,
            IoEvent::FlowClosed => IoAction::Stop,
            IoEvent::Control(body, fin) => {
                match self.tunnel.process_control_chunk(body.as_slice(), fin) {
                    Ok(_) => IoAction::Continue,
                    Err(_) => IoAction::Stop,
                }
            },
            IoEvent::OtherControl => IoAction::Continue,
            IoEvent::ControlClosed => IoAction::Continue,
            IoEvent::Batch(batch) => {
                self.backlog.absorb_send_batch(batch, queued_packets);
                IoAction::Drain
            },
            IoEvent::ChannelClosed => IoAction::Stop,
        }
    }
}

/// The settings of the worker. Times are in milliseconds.
#[derive(Debug, Clone, Copy, PartialEq, Eq, Structural)]
pub struct WorkerSettings {
    pub send_channel_capacity: usize,
    pub event_channel_capacity: usize,
    pub recv_buffer_size: usize,
    pub send_budget_limit: usize,
    pub send_batch_size: usize,
    pub stats_interval: u64,
}

impl WorkerSettings {
    /// The settings that follow from those of the manager.
    pub fn new(tunables: &ManagerTunables) -> (settings: WorkerSettings)
        ensures
            settings == (WorkerSettings {
                send_channel_capacity: tunables.masque_io_channel_capacity,
                event_channel_capacity: tunables.incoming_dgram_capacity,
                recv_buffer_size: tunables.udp_recv_buffer_size,
                send_budget_limit: tunables.masque_stack_drain_budget,
                send_batch_size: if tunables.masque_send_batch_size == 0 {
                    1
                } else {
                    tunables.masque_send_batch_size
                },
                stats_interval: if tunables.max_poll_interval < 250 {
                    250
                } else {
                    tunables.max_poll_interval
                },
            }),
    {
        WorkerSettings {
            send_channel_capacity: tunables.masque_io_channel_capacity,
            event_channel_capacity: tunables.incoming_dgram_capacity,
            recv_buffer_size: tunables.udp_recv_buffer_size,
            send_budget_limit: tunables.masque_stack_drain_budget,
            send_batch_size: if tunables.masque_send_batch_size == 0 {
                1
            } else {
                tunables.masque_send_batch_size
            },
            stats_interval: if tunables.max_poll_interval < 250 {
                250
            } else {
                tunables.max_poll_interval
            },
        }
    }
}

/// No packet is lost or reordered on its way from the channel: what the worker takes off the
/// channel, followed by what is left there, is what was there.
pub proof fn channel_keeps_order(batches: Seq<Vec<Vec<u8>>>, n: int)
    requires
        0 <= n <= batches.len(),
    ensures
        joined(batches.take(n)) + joined(batches.skip(n)) == joined(batches),
    decreases n,
{
    if n == 0 {
        assert(batches.take(0) =~= Seq::empty());
        assert(batches.skip(0) =~= batches);
        assert(joined(batches.take(n)) + joined(batches.skip(n)) =~= joined(batches));
    } else {
        channel_keeps_order(batches.skip(1), n - 1);
        assert(batches.take(n).skip(1) =~= batches.skip(1).take(n - 1));
        assert(batches.skip(1).skip(n - 1) =~= batches.skip(n));
        assert(joined(batches.take(n)) + joined(batches.skip(n)) =~= joined(batches));
    }
}

/// A round tells of being blocked if it was, and of what it sent if it sent anything or was blocked.
pub proof fn what_a_round_tells(round: MasqueSendRound)
    ensures
        round_events(round).contains(IoEventView::MasqueBlocked) <==> round.blocked,
        round_events(round).len() == 0 <==> round.sent_packets == 0 && !round.blocked,
        round.sent_packets > 0 || round.blocked ==> {
            let last = round_events(round).last();
            &&& last is QuicFlush
            &&& last->QuicFlush_0.packets_sent == round.sent_packets
            &&& last->QuicFlush_0.bytes_sent == round.sent_bytes
            &&& last->QuicFlush_0.blocked == round.blocked
            &&& !last->QuicFlush_0.enobufs && !last->QuicFlush_0.paced
        },
{
    let events = round_events(round);
    if round.blocked {
        assert(events[0] == IoEventView::MasqueBlocked);
    }
    if events.contains(IoEventView::MasqueBlocked) {
        let i = events.index_of(IoEventView::MasqueBlocked);
        assert(events[i] == IoEventView::MasqueBlocked);
    }
}

/// A packet that was sent counts with its bytes.
pub proof fn packets_add_up(round: MasqueSendRound, bytes: nat)
    requires
        round.has_room(bytes),
    ensures
        round.with_packet(bytes).sent_packets == round.sent_packets + 1,
        round.with_packet(bytes).sent_bytes == round.sent_bytes + bytes,
        round.with_packet(bytes).blocked == round.blocked,
{
}

/// Batches are taken as long as fewer packets wait than may, and there are batches.
pub proof fn batches_are_taken_while_there_is_room(
    len: nat,
    batches: Seq<Vec<Vec<u8>>>,
    limit: nat,
)
    ensures
        batches_taken(len, batches, limit) <= batches.len(),
        len >= limit ==> batches_taken(len, batches, limit) == 0,
        len < limit && batches.len() > 0 ==> batches_taken(len, batches, limit) > 0,
        batches_taken(len, batches, limit) == batches.len() || len + joined(
            batches.take(batches_taken(len, batches, limit) as int),
        ).len() >= limit,
        batches_taken(len, batches, limit) > 0 ==> len + joined(
            batches.take(batches_taken(len, batches, limit) - 1),
        ).len() < limit,
    decreases batches.len(),
{
    if len < limit && batches.len() > 0 {
        let rest = batches.skip(1);
        let more = len + batches[0]@.len();
        batches_are_taken_while_there_is_room(more, rest, limit);
        let n = batches_taken(len, batches, limit) as int;
        let m = batches_taken(more, rest, limit) as int;
        assert(n == m + 1);
        assert(batches.take(n).skip(1) =~= rest.take(m));
        assert(batches.take(n)[0] == batches[0]);
        assert(joined(batches.take(n)).len() == batches[0]@.len() + joined(rest.take(m)).len());
        if m > 0 {
            assert(batches.take(n - 1).skip(1) =~= rest.take(m - 1));
            assert(batches.take(n - 1)[0] == batches[0]);
        } else {
            assert(batches.take(n - 1).len() == 0);
        }
    } else {
        assert(batches.take(0).len() == 0);
    }
}

/// The packets of batches are those of the first batch and then those of the others.
pub proof fn batches_hold_their_packets(batches: Seq<Vec<Vec<u8>>>)
    ensures
        joined(batches) == batches.map_values(|batch: Vec<Vec<u8>>| packets(batch@)).flatten(),
    decreases batches.len(),
{
    let inside = |batch: Vec<Vec<u8>>| packets(batch@);
    let all = batches.map_values(inside);
    if batches.len() > 0 {
        batches_hold_their_packets(batches.skip(1));
        assert(all.drop_first() =~= batches.skip(1).map_values(inside));
        assert(all.first() == packets(batches[0]@));
    } else {
        assert(all =~= Seq::empty());
    }
}

/// The worker ends when the manager ends it or goes, when the connection, its events or its flow of
/// datagrams end, when its own stream does, and when the control stream says something wrong; by no
/// other event. A datagram for the tunnel goes to the manager if it is neither empty nor too long.
pub proof fn what_ends_the_worker(worker: MasqueWorker, event: IoEvent)
    ensures
        worker.action(event) is Stop <==> {
            ||| event is Shutdown
            ||| event is ConnectionLost
            ||| event is EventsClosed
            ||| event is FlowClosed
            ||| event is ChannelClosed
            ||| event is StreamReset && event->StreamReset_0 == worker.tunnel.connect_stream_id
            ||| event is StreamClosed && event->StreamClosed_0 == worker.tunnel.connect_stream_id
            ||| event is Control && after_chunk(
                worker.tunnel.control_state@,
                event->Control_0@,
                event->Control_1,
            ).1 is Some
        },
        worker.action(event) is Drain <==> event is Batch,
        worker.action(event) is SampleStats <==> event is StatsTick,
        worker.action(event) matches IoActionView::Deliver(packet) ==> event is Datagram
            && datagram_payload(event->Datagram_0@) == Ok::<Option<Seq<u8>>, Seq<char>>(
            Some(packet),
        ),
        event matches IoEvent::Datagram(dgram) ==> (datagram_payload(dgram@) matches Ok(
            Some(payload),
        ) ==> (0 < payload.len() <= worker.recv_limit ==> worker.action(event)
            == IoActionView::Deliver(payload))),
{
}

/// The packets of the batches that were taken are taken off the number of those that wait.
pub proof fn taken_packets_wait_no_longer(queued: usize, batches: Seq<Vec<Vec<u8>>>)
    requires
        joined(batches).len() <= queued,
    ensures
        taken_off(queued, batches) == queued - joined(batches).len(),
    decreases batches.len(),
{
    if batches.len() > 0 {
        let shorter = batches.drop_last();
        assert(batches =~= shorter.push(batches.last()));
        joined_grows(shorter, batches.last());
        taken_packets_wait_no_longer(queued, shorter);
    }
}

} // verus!
