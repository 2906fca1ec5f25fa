//! The WireGuard tunnel.

use crate::crypto::random_bytes;
use bytes::BytesMut;
use gotatun::noise::rate_limiter::RateLimiter;
use gotatun::noise::{Tunn, TunnResult};
use gotatun::packet::{Packet, WgKind};
use std::sync::Arc;
use vstd::prelude::*;

verus! {

/// Why the WireGuard tunnel failed.
#[derive(Debug)]
pub enum WgTunnelError {
    Io(String),
    WireGuard(String),
    HandshakeTimeout,
    HandshakeInitFailed,
}

/// How a WireGuard error reads.
pub open spec fn wg_error_text(e: WgTunnelError) -> Seq<char> {
    match e {
        WgTunnelError::Io(why) => "IO error: "@ + why@,
        WgTunnelError::WireGuard(why) => "WireGuard error: "@ + why@,
        WgTunnelError::HandshakeTimeout => "handshake timeout"@,
        WgTunnelError::HandshakeInitFailed => "handshake initiation failed"@,
    }
}

impl WgTunnelError {
    /// How the error reads.
    pub fn text(&self) -> (text: String)
        ensures
            text@ == wg_error_text(*self),
    {
        match self {
            WgTunnelError::Io(why) => String::from_str("IO error: ").concat(why.as_str()),
            WgTunnelError::WireGuard(why) => String::from_str("WireGuard error: ").concat(
                why.as_str(),
            ),
            WgTunnelError::HandshakeTimeout => String::from_str("handshake timeout"),
            WgTunnelError::HandshakeInitFailed => String::from_str("handshake initiation failed"),
        }
    }
}

/// A packet with three bytes behind its first one. A packet of less than four bytes has no place
/// for them.
pub open spec fn with_reserved(packet: Seq<u8>, reserved: Seq<u8>) -> Seq<u8> {
    if packet.len() >= 4 {
        packet.update(1, reserved[0]).update(2, reserved[1]).update(3, reserved[2])
    } else {
        packet
    }
}

/// A packet as WireGuard knows it: zeros stand behind its first byte.
pub open spec fn stripped(packet: Seq<u8>) -> Seq<u8> {
    with_reserved(packet, seq![0u8, 0, 0])
}

/// A packet as the server knows it: the number of the device stands behind its first byte.
pub open spec fn marked(packet: Seq<u8>, client_id: [u8; 3]) -> Seq<u8> {
    with_reserved(packet, client_id@)
}

/// Makes a packet from the server one of WireGuard's.
pub fn strip_reserved(packet: &mut Vec<u8>)
    ensures
        final(packet)@ == stripped(old(packet)@),
{
    if packet.len() >= 4 {
        packet.set(1, 0);
        packet.set(2, 0);
        packet.set(3, 0);
    }
    assert(packet@ =~= stripped(old(packet)@));
}

/// Makes a packet of WireGuard's one for the server.
pub fn mark_packet(packet: &mut Vec<u8>, client_id: [u8; 3])
    ensures
        final(packet)@ == marked(old(packet)@, client_id),
{
    if packet.len() >= 4 {
        packet.set(1, client_id[0]);
        packet.set(2, client_id[1]);
        packet.set(3, client_id[2]);
    }
    assert(packet@ =~= marked(old(packet)@, client_id));
}

/// What is made of a packet of WireGuard's for the server becomes the same packet again.
pub proof fn stripping_undoes_marking(packet: Seq<u8>, client_id: [u8; 3])
    requires
        packet.len() >= 4 ==> packet[1] == 0 && packet[2] == 0 && packet[3] == 0,
    ensures
        stripped(marked(packet, client_id)) == packet,
        marked(packet, client_id).len() == packet.len(),
{
    assert(stripped(marked(packet, client_id)) =~= packet);
}

/// The number of a tunnel, given four random bytes, or none where the machine gave none.
pub fn index_of_bytes(bytes: Option<[u8; 4]>) -> (index: u32)
    ensures
        index == match bytes {
            Some(b) => b@[0] + b@[1] * 256 + b@[2] * 65536 + b@[3] * 16777216,
            None => 1,
        },
{
    match bytes {
        Some(b) => b[0] as u32 + b[1] as u32 * 256 + b[2] as u32 * 65536 + b[3] as u32 * 16777216,
        None => 1,
    }
}

/// A random number for a tunnel: which one is not said.
pub fn tunnel_index() -> (index: u32) {
    match random_bytes(4) {
        Ok(bytes) => index_of_bytes(Some([bytes[0], bytes[1], bytes[2], bytes[3]])),
        Err(_) => index_of_bytes(None),
    }
}

/// What WireGuard makes of a packet from the server.
#[derive(Debug)]
pub enum TunnOutcome {
    /// Nothing follows.
    Done,
    /// The packet is not taken.
    Failed,
    /// A packet for the server follows.
    WriteToNetwork(Vec<u8>),
    /// An IP packet came out.
    WriteToTunnel(Vec<u8>),
}

/// The packets that wait to be sent to the server.
#[derive(Debug)]
pub struct WgSendQueue {
    pub client_id: [u8; 3],
    pub packets: Vec<Vec<u8>>,
}

/// Packets as values.
pub open spec fn packet_views(packets: Seq<Vec<u8>>) -> Seq<Seq<u8>> {
    Seq::new(packets.len(), |i: int| packets[i]@)
}

impl WgSendQueue {
    /// The packets that wait.
    pub open spec fn waiting(&self) -> Seq<Seq<u8>> {
        packet_views(self.packets@)
    }

    /// A queue without packets.
    pub fn new(client_id: [u8; 3]) -> (queue: WgSendQueue)
        ensures
            queue.client_id == client_id,
            queue.waiting() == Seq::<Seq<u8>>::empty(),
    {
        let queue = WgSendQueue { client_id, packets: Vec::new() };
        assert(queue.waiting() =~= Seq::<Seq<u8>>::empty());
        queue
    }

    /// Marks a packet of WireGuard's and puts it behind the others.
    pub fn prepare_and_queue(&mut self, packet: Vec<u8>)
        ensures
            final(self).client_id == old(self).client_id,
            final(self).waiting() == old(self).waiting().push(marked(packet@, old(self).client_id)),
    {
        let mut packet: Vec<u8> = packet;
        mark_packet(&mut packet, self.client_id);
        self.packets.push(packet);
        assert(self.waiting() =~= old(self).waiting().push(packet@));
    }

    /// Takes all packets out, in order.
    pub fn take_all(&mut self) -> (packets: Vec<Vec<u8>>)
        ensures
            packet_views(packets@) == old(self).waiting(),
            final(self).waiting() == Seq::<Seq<u8>>::empty(),
            final(self).client_id == old(self).client_id,
    {
        let mut packets: Vec<Vec<u8>> = Vec::new();
        packets.append(&mut self.packets);
        assert(packet_views(packets@) =~= old(self).waiting());
        assert(self.waiting() =~= Seq::<Seq<u8>>::empty());
        packets
    }

    /// What follows a packet from the server: an IP packet for the stack, unless it is empty, or a
    /// packet that waits to be sent.
    pub fn on_incoming(&mut self, outcome: TunnOutcome) -> (inject: Option<Vec<u8>>)
        ensures
            final(self).client_id == old(self).client_id,
            match outcome {
                TunnOutcome::WriteToNetwork(response) => inject is None && final(self).waiting()
                    == old(self).waiting().push(marked(response@, old(self).client_id)),
                TunnOutcome::WriteToTunnel(packet) => {
                    &&& final(self).waiting() == old(self).waiting()
                    &&& if packet@.len() > 0 {
                        inject == Some(packet)
                    } else {
                        inject is None
                    }
                },
                _ => inject is None && final(self).waiting() == old(self).waiting(),
            },
    {
        match outcome {
            TunnOutcome::WriteToNetwork(response) => {
                self.prepare_and_queue(response);
                None
            },
            TunnOutcome::WriteToTunnel(packet) => if packet.len() > 0 {
                Some(packet)
            } else {
                None
            },
            _ => None,
        }
    }
}

/// What a tick of the timers gives, by what WireGuard's timers say and the packets that it holds:
/// what is due and then the packets held, each marked, nothing where nothing is due, or what went
/// wrong.
pub open spec fn ticked(
    timers: Result<Option<Seq<u8>>, Seq<char>>,
    held: Seq<Seq<u8>>,
    client_id: [u8; 3],
) -> Result<Seq<Seq<u8>>, Seq<char>> {
    match timers {
        Ok(Some(due)) => Ok(
            (seq![due] + held).map_values(|packet: Seq<u8>| marked(packet, client_id)),
        ),
        Ok(None) => Ok(Seq::empty()),
        Err(why) => Err(why),
    }
}

/// What WireGuard's timers say, as values.
pub open spec fn timers_view(timers: Result<Option<Vec<u8>>, String>) -> Result<
    Option<Seq<u8>>,
    Seq<char>,
> {
    match timers {
        Ok(Some(due)) => Ok(Some(due@)),
        Ok(None) => Ok(None),
        Err(why) => Err(why@),
    }
}

/// Whether this is what a tick of the timers gives.
pub open spec fn is_tick(
    outcome: Result<Seq<Seq<u8>>, Seq<char>>,
    res: Result<Vec<Vec<u8>>, WgTunnelError>,
) -> bool {
    match outcome {
        Ok(due) => res matches Ok(packets) && packet_views(packets@) == due,
        Err(why) => res matches Err(WgTunnelError::WireGuard(told)) && told@ == why,
    }
}

/// The packets to send after a tick of the timers, by what WireGuard's timers say and the packets
/// that it holds.
pub fn due_packets(
    timers: Result<Option<Vec<u8>>, String>,
    held: Vec<Vec<u8>>,
    client_id: [u8; 3],
) -> (res: Result<Vec<Vec<u8>>, WgTunnelError>)
    ensures
        is_tick(ticked(timers_view(timers), packet_views(held@), client_id), res),
{
    let ghost all_held = packet_views(held@);
    match timers {
        Ok(Some(due)) => {
            let ghost all = seq![due@] + all_held;
            let ghost mark = |packet: Seq<u8>| marked(packet, client_id);
            let mut queue = WgSendQueue::new(client_id);
            queue.prepare_and_queue(due);
            assert(queue.waiting() =~= all.take(1).map_values(mark));
            for packet in iter: held
                invariant
                    queue.client_id == client_id,
                    all.len() == 1 + all_held.len(),
                    forall|i: int| 0 <= i < all_held.len() ==> all[i + 1] == #[trigger] all_held[i],
                    all_held == packet_views(iter.seq()),
                    mark == (|packet: Seq<u8>| marked(packet, client_id)),
                    queue.waiting() == all.take(1 + iter.index() as int).map_values(mark),
            {
                proof {
                    let k = iter.index() as int;
                    assert(all_held[k] == packet@);
                    assert(all.take(k + 2) =~= all.take(k + 1).push(packet@));
                    assert(all.take(k + 2).map_values(mark) =~= all.take(k + 1).map_values(
                        mark,
                    ).push(marked(packet@, client_id)));
                }
                queue.prepare_and_queue(packet);
            }
            assert(all.take(all.len() as int) =~= all);
            Ok(queue.take_all())
        },
        Ok(None) => {
            let packets: Vec<Vec<u8>> = Vec::new();
            assert(packet_views(packets@) =~= Seq::empty());
            Ok(packets)
        },
        Err(why) => Err(WgTunnelError::WireGuard(why)),
    }
}

/// The milliseconds between two ticks of the timers during a handshake.
pub const HANDSHAKE_TICK_MS: u64 = 250;

/// A handshake with the server.
#[derive(Debug, Clone, Copy)]
pub struct WgHandshake {
    /// When it was started, in nanoseconds.
    pub started: u64,
    /// Milliseconds that it may take.
    pub timeout: u64,
    /// When the timers tick next, in nanoseconds.
    pub next_tick: u128,
}

/// What is done next in a handshake.
#[derive(Debug)]
pub enum HandshakeStep {
    /// A packet or a tick is waited for.
    Wait(u128),
    /// The handshake is complete.
    Complete,
    /// The handshake has failed.
    Failed(WgTunnelError),
}

/// Whether a handshake has taken too long.
pub open spec fn handshake_over(h: WgHandshake, now: u64) -> bool {
    now - h.started > h.timeout * 1_000_000
}

impl WgHandshake {
    /// A handshake that was started just now: WireGuard gives its first packet, `None` where it
    /// gives none.
    pub fn start(init: Option<Vec<u8>>, client_id: [u8; 3], now: u64, timeout: u64) -> (res: Result<
        (WgHandshake, Vec<u8>),
        WgTunnelError,
    >)
        ensures
            match init {
                Some(packet) => res matches Ok((handshake, first)) && first@ == marked(
                    packet@,
                    client_id,
                ) && handshake == (WgHandshake {
                    started: now,
                    timeout,
                    next_tick: (now + HANDSHAKE_TICK_MS * 1_000_000) as u128,
                }),
                None => res matches Err(e) && e is HandshakeInitFailed,
            },
    {
        match init {
            Some(packet) => {
                let mut first: Vec<u8> = packet;
                mark_packet(&mut first, client_id);
                Ok(
                    (
                        WgHandshake {
                            started: now,
                            timeout,
                            next_tick: now as u128 + HANDSHAKE_TICK_MS as u128 * 1_000_000,
                        },
                        first,
                    ),
                )
            },
            None => Err(WgTunnelError::HandshakeInitFailed),
        }
    }

    /// What is done next: the time that the handshake may take is looked at first.
    pub fn next(&self, now: u64) -> (step: HandshakeStep)
        ensures
            if handshake_over(*self, now) {
                step matches HandshakeStep::Failed(e) && e is HandshakeTimeout
            } else {
                step matches HandshakeStep::Wait(tick) && tick == self.next_tick
            },
    {
        if now as i128 - self.started as i128 > self.timeout as i128 * 1_000_000 {
            HandshakeStep::Failed(WgTunnelError::HandshakeTimeout)
        } else {
            HandshakeStep::Wait(self.next_tick)
        }
    }

    /// What follows a packet from the server. `complete` says whether WireGuard has a session now.
    /// A packet that could not be received changes nothing.
    pub fn on_packet(&self, complete: bool, now: u64) -> (step: HandshakeStep)
        ensures
            if complete {
                step is Complete
            } else if handshake_over(*self, now) {
                step matches HandshakeStep::Failed(e) && e is HandshakeTimeout
            } else {
                step matches HandshakeStep::Wait(tick) && tick == self.next_tick
            },
    {
        if complete {
            HandshakeStep::Complete
        } else {
            self.next(now)
        }
    }

    /// What follows a tick of the timers, of which WireGuard may say what is wrong.
    pub fn on_tick(&mut self, ticked: Result<(), String>, now: u64) -> (step: HandshakeStep)
        ensures
            final(self).started == old(self).started,
            final(self).timeout == old(self).timeout,
            match ticked {
                Err(why) => step matches HandshakeStep::Failed(WgTunnelError::WireGuard(text))
                    && text@ == why@ && *final(self) == *old(self),
                Ok(_) => {
                    &&& final(self).next_tick == now + HANDSHAKE_TICK_MS * 1_000_000
                    &&& if handshake_over(*old(self), now) {
                        step matches HandshakeStep::Failed(e) && e is HandshakeTimeout
                    } else {
                        step matches HandshakeStep::Wait(tick) && tick == final(self).next_tick
                    }
                },
            },
    {
        match ticked {
            Err(why) => HandshakeStep::Failed(WgTunnelError::WireGuard(why)),
            Ok(_) => {
                self.next_tick = now as u128 + HANDSHAKE_TICK_MS as u128 * 1_000_000;
                self.next(now)
            },
        }
    }
}

/// A tunnel of gotatun.
#[verifier::external_type_specification]
#[verifier::external_body]
pub struct ExTunn(gotatun::noise::Tunn);

/// A packet of WireGuard's.
#[verifier::external_type_specification]
#[verifier::external_body]
pub struct ExWgKind(gotatun::packet::WgKind);

/// The bytes of a packet of WireGuard's.
pub uninterp spec fn wg_bytes(packet: WgKind) -> Seq<u8>;

/// Whether bytes are a packet of WireGuard's: the first byte says which kind, and each kind has its
/// size, which for data is only a smallest one.
pub open spec fn is_wg_packet(data: Seq<u8>) -> bool {
    data.len() > 0 && {
        ||| data[0] == 1 && data.len() == 148
        ||| data[0] == 2 && data.len() == 92
        ||| data[0] == 3 && data.len() == 64
        ||| data[0] == 4 && data.len() >= 32
    }
}

/// Whether bytes start a handshake.
pub open spec fn is_init(packet: Seq<u8>) -> bool {
    packet.len() == 148 && packet[0] == 1
}

/// Whether bytes are data in its encrypted form, with `len` bytes inside.
pub open spec fn carries(packet: Seq<u8>, len: nat) -> bool {
    packet.len() == len + 32 && packet[0] == 4
}

/// Whether bytes can answer a packet of the server's: a handshake that was started is accepted, and
/// one that was accepted is confirmed by data without bytes inside.
pub open spec fn answers(packet: Seq<u8>, answer: Seq<u8>) -> bool {
    ||| packet[0] == 1 && answer.len() == 92 && answer[0] == 2
    ||| packet[0] == 2 && carries(answer, 0)
}

/// The number of a packet of data: the bytes from the ninth on, the lowest first.
pub open spec fn data_counter(packet: Seq<u8>) -> int {
    packet[8] + packet[9] * 0x100 + packet[10] * 0x1_0000 + packet[11] * 0x100_0000 + packet[12]
        * 0x1_0000_0000 + packet[13] * 0x100_0000_0000 + packet[14] * 0x1_0000_0000_0000
        + packet[15] * 0x100_0000_0000_0000
}

/// Whether gotatun can count a packet of WireGuard's: it looks 1024 numbers ahead of that of a packet
/// of data, and the highest numbers leave no place for that.
pub open spec fn is_countable(packet: Seq<u8>) -> bool {
    packet[0] == 4 ==> data_counter(packet) <= u64::MAX - 1024
}

/// What a tunnel of gotatun is made of: its own private key and the public key of its peer, the seconds
/// between two keepalives, zero where there are none, its number, of which 24 bits count, and how many
/// handshakes it answers in a second.
pub struct WgMaking {
    pub private_key: Seq<u8>,
    pub peer: Seq<u8>,
    pub keepalive: u16,
    pub index: int,
    pub limit: u64,
}

/// What a tunnel of gotatun was made of.
pub uninterp spec fn tunn_made_of(tunn: Tunn) -> WgMaking;

/// Whether a tunnel of gotatun has a session.
pub uninterp spec fn tunn_session(tunn: Tunn) -> bool;

/// Whether a tunnel of gotatun was given up.
pub uninterp spec fn tunn_given_up(tunn: Tunn) -> bool;

/// Whether a tunnel of gotatun is in the middle of a handshake.
pub uninterp spec fn tunn_waits(tunn: Tunn) -> bool;

/// How many handshakes a tunnel of gotatun has started or answered, without those that fill 256.
pub uninterp spec fn tunn_shakes(tunn: Tunn) -> u8;

/// The packets that a tunnel of gotatun holds until there is a session, the oldest first.
pub uninterp spec fn tunn_held(tunn: Tunn) -> Seq<Seq<u8>>;

/// A packet as the session of a tunnel of gotatun encrypts it. `None` where there is no session.
pub uninterp spec fn tunn_seals(tunn: Tunn, packet: Seq<u8>) -> Option<Seq<u8>>;

/// What a tunnel of gotatun finds in a packet of data. `None` where it does not take the packet.
pub uninterp spec fn tunn_opens(tunn: Tunn, packet: Seq<u8>) -> Option<Seq<u8>>;

/// What is known of a tunnel of gotatun.
#[verifier::ext_equal]
pub struct WgState {
    pub made_of: WgMaking,
    pub session: bool,
    pub given_up: bool,
    pub waits: bool,
    pub shakes: u8,
    pub held: Seq<Seq<u8>>,
}

/// What is known of a tunnel of gotatun.
pub open spec fn tunn_state(tunn: Tunn) -> WgState {
    WgState {
        made_of: tunn_made_of(tunn),
        session: tunn_session(tunn),
        given_up: tunn_given_up(tunn),
        waits: tunn_waits(tunn),
        shakes: tunn_shakes(tunn),
        held: tunn_held(tunn),
    }
}

/// The packets that a tunnel may hold.
pub const HELD_PACKETS: usize = 256;

/// What a tunnel with these settings is made of.
pub open spec fn making(
    private_key: Seq<u8>,
    peer: Seq<u8>,
    keepalive: Option<u16>,
    index: u32,
    limit: u64,
) -> WgMaking {
    WgMaking {
        private_key,
        peer,
        keepalive: match keepalive {
            Some(seconds) => seconds,
            None => 0,
        },
        index: index as int % 0x100_0000,
        limit,
    }
}

/// A count with one more, which starts anew behind 255.
pub open spec fn one_more(count: u8) -> u8 {
    if count == 255 {
        0
    } else {
        (count + 1) as u8
    }
}

impl WgState {
    /// A tunnel that was just made.
    pub open spec fn fresh(made_of: WgMaking) -> WgState {
        WgState {
            made_of,
            session: false,
            given_up: false,
            waits: false,
            shakes: 0,
            held: Seq::empty(),
        }
    }

    /// The tunnel with one more packet that it holds, if there is a place for it.
    pub open spec fn holding(self, packet: Seq<u8>) -> WgState {
        if self.held.len() < HELD_PACKETS {
            WgState { held: self.held.push(packet), ..self }
        } else {
            self
        }
    }

    /// The tunnel after it started a handshake.
    pub open spec fn started(self) -> WgState {
        WgState { given_up: false, waits: true, shakes: one_more(self.shakes), ..self }
    }

    /// The tunnel after it started a handshake, unless one goes on.
    pub open spec fn in_handshake(self) -> WgState {
        if self.waits {
            WgState { given_up: false, ..self }
        } else {
            self.started()
        }
    }

    /// The tunnel without the oldest packet that it holds.
    pub open spec fn without_oldest(self) -> WgState {
        WgState { held: self.held.skip(1), ..self }
    }

    /// The tunnel with the oldest packet that it holds behind the others.
    pub open spec fn rotated(self) -> WgState {
        WgState { held: self.held.skip(1).push(self.held[0]), ..self }
    }
}

/// What a tunnel without a session gives for a packet: the start of a handshake, unless one goes on.
pub open spec fn handshake_due(before: WgState, sent: Option<Seq<u8>>) -> bool {
    match sent {
        Some(first) => !before.waits && is_init(first),
        None => before.waits,
    }
}

/// What a tunnel does with a packet that goes out, which a session encrypts to `sealed`. Without a
/// session the packet is held, and a handshake is started.
pub open spec fn sends_out(
    before: WgState,
    after: WgState,
    packet: Seq<u8>,
    sealed: Option<Seq<u8>>,
    sent: Option<Seq<u8>>,
) -> bool {
    &&& before.session == (sealed is Some)
    &&& match sealed {
        Some(data) => carries(data, packet.len()) && sent == sealed && after == before,
        None => handshake_due(before, sent) && after == before.holding(packet).in_handshake(),
    }
}

/// What a tunnel of gotatun does with the oldest packet that it holds: a session encrypts it. Else it
/// is held again, behind the others, and a handshake is started.
pub open spec fn sends_oldest(before: Tunn, after: Tunn, sent: Option<Seq<u8>>) -> bool {
    let held = tunn_held(before);
    if held.len() == 0 {
        sent is None && tunn_state(after) == tunn_state(before)
    } else if tunn_session(before) {
        &&& sent matches Some(sealed) && tunn_seals(before, held[0]) == Some(sealed) && carries(
            sealed,
            held[0].len(),
        )
        &&& tunn_state(after) == tunn_state(before).without_oldest()
    } else {
        &&& handshake_due(tunn_state(before), sent)
        &&& tunn_state(after) == tunn_state(before).rotated().in_handshake()
    }
}

/// What becomes of a tunnel with a packet of a handshake, which it answers or does not take. An
/// answer to one that accepts a handshake comes with a session.
pub open spec fn shakes_hands(before: WgState, after: WgState, packet: Seq<u8>, answer: Option<
    Seq<u8>,
>) -> bool {
    match answer {
        Some(answer) => {
            &&& answers(packet, answer)
            &&& after.made_of == before.made_of
            &&& after.held == before.held
            &&& before.session || packet[0] == 2 ==> after.session
            &&& after.given_up ==> before.given_up
            &&& if packet[0] == 1 {
                !after.waits && !after.given_up && after.shakes == one_more(before.shakes)
            } else {
                after.shakes == before.shakes
            }
        },
        None => after == before,
    }
}

/// What a tunnel does with a packet of the server's, in which it finds `inside` if the packet is data:
/// that comes out, and a packet of a handshake is answered, unless it is not taken.
pub open spec fn takes_in(
    before: WgState,
    after: WgState,
    packet: Seq<u8>,
    inside: Option<Seq<u8>>,
    outcome: TunnOutcome,
) -> bool {
    if packet[0] == 4 {
        match inside {
            Some(inside) => {
                &&& outcome matches TunnOutcome::WriteToTunnel(data) && data@ == inside
                &&& carries(packet, inside.len())
                &&& after == (WgState { session: true, ..before })
            },
            None => outcome is Failed && after == before,
        }
    } else {
        match outcome {
            TunnOutcome::Done => packet[0] == 3 && after == before,
            TunnOutcome::Failed => after == before,
            TunnOutcome::WriteToNetwork(answer) => shakes_hands(
                before,
                after,
                packet,
                Some(answer@),
            ),
            TunnOutcome::WriteToTunnel(_) => false,
        }
    }
}

/// What the timers of a tunnel of gotatun do: they say that the start of a handshake is due, or data
/// without bytes inside, that nothing is, or that the tunnel was given up. No handshake is started
/// that is not said to be due, and none goes on in a tunnel that was given up. A session can end. Data
/// that is due without a session is held.
pub open spec fn timers_step(
    before: WgState,
    after: WgState,
    timers: Result<Option<Seq<u8>>, Seq<char>>,
) -> bool {
    &&& after.made_of == before.made_of
    &&& after.session ==> before.session
    &&& after.given_up == (timers is Err)
    &&& match timers {
        Ok(due) => {
            &&& !before.given_up
            &&& match due {
                Some(packet) => {
                    ||| is_init(packet) && after.waits && after.shakes == one_more(before.shakes)
                    ||| carries(packet, 0) && after.session && after.waits == before.waits
                        && after.shakes == before.shakes
                },
                None => after.waits == before.waits && after.shakes == before.shakes,
            }
            &&& after.held == before.held || !after.session && after.held == before.holding(
                Seq::empty(),
            ).held
        },
        Err(why) => {
            &&& why == "ConnectionExpired"@
            &&& !after.waits
            &&& after.shakes == before.shakes
            &&& after.held == before.held || after.held.len() == 0
        },
    }
}

/// `Packet::try_into_wg` of gotatun: the packet with these bytes, if they are one.
#[verifier::external_body]
fn read_wg_packet(data: &[u8]) -> (res: Option<WgKind>)
    ensures
        match res {
            Some(packet) => is_wg_packet(data@) && wg_bytes(packet) == data@,
            None => !is_wg_packet(data@),
        },
{
    Packet::from_bytes(BytesMut::from(data)).try_into_wg().ok()
}

/// `Tunn::new` of gotatun: a tunnel that is made of these, without a session, a handshake or packets.
#[verifier::external_body]
fn new_tunn(private_key: [u8; 32], peer_public_key: [u8; 32], keepalive: Option<u16>, index: u32, limit: u64) -> (tunn:
    Tunn)
    ensures
        tunn_made_of(tunn) == making(private_key@, peer_public_key@, keepalive, index, limit),
        !tunn_session(tunn),
        !tunn_given_up(tunn),
        !tunn_waits(tunn),
        tunn_shakes(tunn) == 0,
        tunn_held(tunn).len() == 0,
{
    let secret = gotatun::x25519::StaticSecret::from(private_key);
    let public = gotatun::x25519::PublicKey::from(&secret);
    let peer = gotatun::x25519::PublicKey::from(peer_public_key);
    let limiter = Arc::new(RateLimiter::new(&public, limit));
    Tunn::new(secret, peer, None, keepalive, index, limiter)
}

/// A packet as values, if there is one.
pub open spec fn packet_view(packet: Option<Vec<u8>>) -> Option<Seq<u8>> {
    match packet {
        Some(packet) => Some(packet@),
        None => None,
    }
}

/// `Tunn::handle_outgoing_packet` of gotatun: with a session, the packet in its encrypted form. Else
/// the packet is held, and the start of a handshake comes, unless one goes on. The further bytes of
/// that rest on random keys, so nothing is said of them.
#[verifier::external_body]
fn tunn_outgoing(tunn: &mut Tunn, packet: &[u8]) -> (res: Option<Vec<u8>>)
    ensures
        sends_out(
            tunn_state(*old(tunn)),
            tunn_state(*final(tunn)),
            packet@,
            tunn_seals(*old(tunn), packet@),
            packet_view(res),
        ),
{
    let kind = tunn.handle_outgoing_packet(Packet::from_bytes(BytesMut::from(packet)))?;
    Some(Packet::from(kind).to_vec())
}

/// `Tunn::handle_incoming_packet` of gotatun: what is inside of data comes out, which rests on the
/// sessions and the packet alone. A packet of a handshake may be answered: whether it is, and the
/// further bytes of the answer, rest on the handshakes so far and on random keys, so nothing is said
/// of that.
#[verifier::external_body]
fn tunn_incoming(tunn: &mut Tunn, packet: WgKind) -> (outcome: TunnOutcome)
    requires
        is_wg_packet(wg_bytes(packet)),
        is_countable(wg_bytes(packet)),
    ensures
        takes_in(
            tunn_state(*old(tunn)),
            tunn_state(*final(tunn)),
            wg_bytes(packet),
            tunn_opens(*old(tunn), wg_bytes(packet)),
            outcome,
        ),
{
    match tunn.handle_incoming_packet(packet) {
        TunnResult::Done => TunnOutcome::Done,
        TunnResult::Err(_) => TunnOutcome::Failed,
        TunnResult::WriteToNetwork(kind) => TunnOutcome::WriteToNetwork(Packet::from(kind).to_vec()),
        TunnResult::WriteToTunnel(packet) => TunnOutcome::WriteToTunnel(packet.to_vec()),
    }
}

/// The first of what `Tunn::get_queued_packets` of gotatun gives: with a session, the oldest packet
/// that was held, in its encrypted form. Else the packet is held again, and the start of a handshake
/// comes, unless one goes on. The further bytes of that rest on random keys, so nothing is said of
/// them.
#[verifier::external_body]
fn tunn_queued(tunn: &mut Tunn) -> (res: Option<Vec<u8>>)
    ensures
        sends_oldest(*old(tunn), *final(tunn), packet_view(res)),
{
    let kind = tunn.get_queued_packets().next()?;
    Some(Packet::from(kind).to_vec())
}

/// `Tunn::format_handshake_initiation` of gotatun: the start of a handshake, or nothing where one
/// goes on and none is forced. Its further bytes rest on random keys, so nothing is said of them.
#[verifier::external_body]
fn tunn_handshake(tunn: &mut Tunn, force_resend: bool) -> (res: Option<Vec<u8>>)
    ensures
        res is Some == (force_resend || !tunn_waits(*old(tunn))),
        res matches Some(first) ==> is_init(first@) && tunn_state(*final(tunn)) == tunn_state(
            *old(tunn),
        ).started(),
        res is None ==> tunn_state(*final(tunn)) == tunn_state(*old(tunn)),
{
    let init = tunn.format_handshake_initiation(force_resend)?;
    Some(Packet::from(WgKind::from(init)).to_vec())
}

/// `Tunn::update_timers` of gotatun: the start of a handshake that is due, data without bytes inside
/// that is due, nothing, or that the tunnel was given up, which it then says each time. Where nothing
/// is due, no handshake was started, and a session that has not ended encrypts as before. What is due
/// rests on the time, so nothing is said of that.
#[verifier::external_body]
fn tunn_timers(tunn: &mut Tunn) -> (res: Result<Option<Vec<u8>>, String>)
    ensures
        timers_step(tunn_state(*old(tunn)), tunn_state(*final(tunn)), timers_view(res)),
        res matches Ok(None) && tunn_session(*final(tunn)) ==> forall|packet: Seq<u8>| #[trigger]
            tunn_seals(*final(tunn), packet) == tunn_seals(*old(tunn), packet),
{
    match tunn.update_timers() {
        Ok(kind) => Ok(kind.map(|kind| Packet::from(kind).to_vec())),
        Err(e) => Err(format!("{:?}", e)),
    }
}

/// `Tunn::time_since_last_handshake` of gotatun: there is such a time if and only if there is a
/// session.
#[verifier::external_body]
fn tunn_has_session(tunn: &Tunn) -> (res: bool)
    ensures
        res == tunn_session(*tunn),
{
    tunn.time_since_last_handshake().is_some()
}

/// `Tunn::is_expired` of gotatun: whether the tunnel was given up.
#[verifier::external_body]
fn tunn_expired(tunn: &Tunn) -> (res: bool)
    ensures
        res == tunn_given_up(*tunn),
{
    tunn.is_expired()
}

/// Whether a packet was encrypted by a session of a tunnel with these keys.
pub open spec fn sealed_by(
    made_of: WgMaking,
    packet: Seq<u8>,
    sealed: Seq<u8>,
) -> bool {
    exists|tunn: Tunn| #[trigger] tunn_seals(tunn, packet) == Some(sealed) && tunn_made_of(tunn)
        == made_of && carries(sealed, packet.len())
}

/// What comes out of a tunnel that is asked for the packets that it holds: with a session all of
/// them, encrypted and in order. Without one they stay, and the start of a handshake comes out, unless
/// one goes on.
pub open spec fn drained(before: WgState, after: WgState, sent: Seq<Seq<u8>>) -> bool {
    if before.held.len() == 0 {
        sent.len() == 0 && after == before
    } else if before.session {
        &&& sent.len() == before.held.len()
        &&& forall|i: int|
            0 <= i < sent.len() ==> sealed_by(before.made_of, before.held[i], #[trigger] sent[i])
        &&& after == (WgState { held: Seq::empty(), ..before })
    } else if before.waits {
        sent.len() == 0 && after == before.rotated().in_handshake()
    } else {
        sent.len() == 1 && is_init(sent[0]) && after == before.rotated().rotated().in_handshake()
    }
}

/// Takes out of a tunnel what comes of the packets that it holds.
fn drain_held(tunn: &mut Tunn) -> (sent: Vec<Vec<u8>>)
    ensures
        drained(tunn_state(*old(tunn)), tunn_state(*final(tunn)), packet_views(sent@)),
{
    let ghost before = tunn_state(*tunn);
    let mut sent: Vec<Vec<u8>> = Vec::new();
    let mut more: bool = true;
    assert(before.held.skip(0) =~= before.held);
    while more
        invariant
            before == tunn_state(*old(tunn)),
            before.held.len() == 0 ==> sent@.len() == 0 && tunn_state(*tunn) == before,
            before.held.len() > 0 && before.session ==> {
                &&& sent@.len() <= before.held.len()
                &&& tunn_state(*tunn) == (WgState {
                    held: before.held.skip(sent@.len() as int),
                    ..before
                })
                &&& forall|i: int|
                    0 <= i < sent@.len() ==> sealed_by(
                        before.made_of,
                        before.held[i],
                        (#[trigger] sent@[i])@,
                    )
                &&& !more ==> sent@.len() == before.held.len()
            },
            before.held.len() > 0 && !before.session ==> if more {
                if sent@.len() == 0 {
                    tunn_state(*tunn) == before
                } else {
                    &&& sent@.len() == 1 && !before.waits && is_init(sent@[0]@)
                    &&& tunn_state(*tunn) == before.rotated().in_handshake()
                }
            } else {
                drained(before, tunn_state(*tunn), packet_views(sent@))
            },
        decreases
                if before.session {
                    before.held.len() - sent@.len()
                } else {
                    1 - sent@.len()
                },
                if more {
                    1int
                } else {
                    0
                },
    {
        let ghost start = *tunn;
        let ghost so_far = sent@;
        match tunn_queued(tunn) {
            Some(packet) => {
                sent.push(packet);
                proof {
                    if before.session {
                        let k = so_far.len() as int;
                        assert(before.held.skip(k)[0] == before.held[k]);
                        assert(before.held.skip(k).skip(1) =~= before.held.skip(k + 1));
                        assert(tunn_seals(start, before.held[k]) == Some(packet@));
                        assert(sealed_by(before.made_of, before.held[k], packet@));
                    }
                }
            },
            None => {
                more = false;
                proof {
                    if before.held.len() > 0 && !before.session && so_far.len() == 1 {
                        assert(packet_views(sent@)[0] == sent@[0]@);
                    }
                }
            },
        }
    }
    proof {
        if before.session {
            assert(before.held.skip(before.held.len() as int) =~= Seq::empty());
        }
        assert forall|i: int| 0 <= i < sent@.len() implies #[trigger] packet_views(sent@)[i]
            == sent@[i]@ by {}
    }
    sent
}

/// Handshakes that are answered in a second.
pub const HANDSHAKE_LIMIT: u64 = 100;

/// The WireGuard tunnel, without the socket that its packets go through.
pub struct WgTunnel {
    tunn: Tunn,
    queue: WgSendQueue,
}

/// Whether a packet for the server names the device.
pub open spec fn names_device(packet: Seq<u8>, client_id: [u8; 3]) -> bool {
    packet.len() >= 32 && packet[1] == client_id@[0] && packet[2] == client_id@[1] && packet[3]
        == client_id@[2]
}

/// Whether only packets that name the device were put behind those that waited.
pub open spec fn grew(before: Seq<Seq<u8>>, after: Seq<Seq<u8>>, client_id: [u8; 3]) -> bool {
    &&& before.len() <= after.len()
    &&& after.take(before.len() as int) == before
    &&& forall|i: int|
        before.len() <= i < after.len() ==> names_device(#[trigger] after[i], client_id)
}

/// Whether all packets are for the server: each starts a handshake or is data in its encrypted form.
pub open spec fn all_sendable(packets: Seq<Seq<u8>>) -> bool {
    forall|i: int|
        0 <= i < packets.len() ==> is_init(#[trigger] packets[i]) || packets[i].len() >= 32
            && packets[i][0] == 4
}

/// Packets as the server knows them.
pub open spec fn all_marked(packets: Seq<Seq<u8>>, client_id: [u8; 3]) -> Seq<Seq<u8>> {
    packets.map_values(|packet: Seq<u8>| marked(packet, client_id))
}

/// What a tick of the timers does to a tunnel, by what they say: where something is due, the packets
/// that the tunnel holds are asked for.
pub open spec fn ticks(
    before: WgState,
    after: WgState,
    timers: Result<Option<Seq<u8>>, Seq<char>>,
    held: Seq<Seq<u8>>,
) -> bool {
    exists|between: WgState| #[trigger]
        timers_step(before, between, timers) && if timers matches Ok(Some(_)) {
            drained(between, after, held)
        } else {
            after == between && held.len() == 0
        }
}

/// What becomes of a packet that is sent through a tunnel: a session encrypts it, and it waits to be
/// sent. Without a session it is held, and the start of a handshake waits to be sent, unless one goes
/// on.
pub open spec fn encrypts(before: WgTunnel, after: WgTunnel, ip: Seq<u8>) -> bool {
    let id = before.client_id();
    let state = before.state();
    &&& after.client_id() == id
    &&& state.session == (before.seals(ip) is Some)
    &&& match before.seals(ip) {
        Some(sealed) => {
            &&& carries(sealed, ip.len())
            &&& after.waiting() == before.waiting().push(marked(sealed, id))
            &&& after.state() == state
        },
        None => {
            &&& after.state() == state.holding(ip).in_handshake()
            &&& if state.waits {
                after.waiting() == before.waiting()
            } else {
                &&& after.waiting() == before.waiting().push(after.waiting().last())
                &&& is_init(after.waiting().last())
                &&& names_device(after.waiting().last(), id)
            }
        },
    }
}

/// What becomes of a tunnel with a packet of the server's: data can bring a session into use, and a
/// packet of a handshake can be answered, by one that waits to be sent. What is no packet of
/// WireGuard's, or has a number that WireGuard could not count on from, changes nothing.
pub open spec fn receives(before: WgTunnel, after: WgTunnel, data: Seq<u8>) -> bool {
    let packet = stripped(data);
    if !is_wg_packet(packet) || !is_countable(packet) {
        &&& after.waiting() == before.waiting()
        &&& after.state() == before.state()
    } else if packet[0] == 4 {
        &&& after.waiting() == before.waiting()
        &&& after.state() == if before.opens(packet) is Some {
            WgState { session: true, ..before.state() }
        } else {
            before.state()
        }
    } else {
        exists|answer: Option<Seq<u8>>| #[trigger]
            shakes_hands(before.state(), after.state(), packet, answer) && after.waiting() == match answer {
                Some(answer) => before.waiting().push(marked(answer, before.client_id())),
                None => before.waiting(),
            }
    }
}

/// A packet with the number of a device is of the same kind.
proof fn lemma_marked(packet: Seq<u8>, client_id: [u8; 3])
    requires
        packet.len() >= 32,
    ensures
        names_device(marked(packet, client_id), client_id),
        marked(packet, client_id).len() == packet.len(),
        marked(packet, client_id)[0] == packet[0],
{
}

proof fn lemma_drained_kinds(before: WgState, after: WgState, sent: Seq<Seq<u8>>)
    requires
        drained(before, after, sent),
    ensures
        all_sendable(sent),
{
    assert forall|i: int| 0 <= i < sent.len() implies is_init(#[trigger] sent[i]) || sent[i].len() >= 32
        && sent[i][0] == 4 by {
        if before.held.len() > 0 && before.session {
            assert(sealed_by(before.made_of, before.held[i], sent[i]));
        }
    }
}

proof fn lemma_grown(before: Seq<Seq<u8>>, sent: Seq<Seq<u8>>, client_id: [u8; 3])
    requires
        all_sendable(sent),
    ensures
        grew(before, before + all_marked(sent, client_id), client_id),
        all_sendable(all_marked(sent, client_id)),
{
    let after = before + all_marked(sent, client_id);
    assert(after.take(before.len() as int) =~= before);
    assert forall|i: int| 0 <= i < sent.len() implies names_device(
        #[trigger] all_marked(sent, client_id)[i],
        client_id,
    ) && (is_init(all_marked(sent, client_id)[i]) || all_marked(sent, client_id)[i].len() >= 32
        && all_marked(sent, client_id)[i][0] == 4) by {
        assert(is_init(sent[i]) || sent[i].len() >= 32 && sent[i][0] == 4);
        lemma_marked(sent[i], client_id);
    }
    assert forall|i: int| before.len() <= i < after.len() implies names_device(
        #[trigger] after[i],
        client_id,
    ) by {
        assert(after[i] == all_marked(sent, client_id)[i - before.len()]);
    }
}

impl WgTunnel {
    /// The packets that wait to be sent.
    pub closed spec fn waiting(&self) -> Seq<Seq<u8>> {
        self.queue.waiting()
    }

    /// The number of the device.
    pub closed spec fn client_id(&self) -> [u8; 3] {
        self.queue.client_id
    }

    /// What is known of WireGuard's side of the tunnel.
    pub closed spec fn state(&self) -> WgState {
        tunn_state(self.tunn)
    }

    /// An IP packet as the session encrypts it. `None` where there is no session.
    pub closed spec fn seals(&self, ip: Seq<u8>) -> Option<Seq<u8>> {
        tunn_seals(self.tunn, ip)
    }

    /// What is found in a packet of WireGuard's with data. `None` where it is not taken.
    pub closed spec fn opens(&self, packet: Seq<u8>) -> Option<Seq<u8>> {
        tunn_opens(self.tunn, packet)
    }

    /// The IP packet that comes out of a packet of the server's.
    pub open spec fn yields(&self, data: Seq<u8>) -> Option<Seq<u8>> {
        let packet = stripped(data);
        if is_wg_packet(packet) && packet[0] == 4 && is_countable(packet) {
            match self.opens(packet) {
                Some(ip) if ip.len() > 0 => Some(ip),
                _ => None,
            }
        } else {
            None
        }
    }

    /// A tunnel of a device to a server, with a random number.
    pub fn new(
        private_key: [u8; 32],
        peer_public_key: [u8; 32],
        client_id: [u8; 3],
        keepalive: Option<u16>,
    ) -> (tunnel: WgTunnel)
        ensures
            tunnel.client_id() == client_id,
            tunnel.waiting() == Seq::<Seq<u8>>::empty(),
            exists|index: u32|
                tunnel.state() == WgState::fresh(
                    #[trigger] making(
                        private_key@,
                        peer_public_key@,
                        keepalive,
                        index,
                        HANDSHAKE_LIMIT,
                    ),
                ),
    {
        let index: u32 = tunnel_index();
        let tunnel = WgTunnel {
            tunn: new_tunn(private_key, peer_public_key, keepalive, index, HANDSHAKE_LIMIT),
            queue: WgSendQueue::new(client_id),
        };
        assert(tunnel.state() =~= WgState::fresh(
            making(private_key@, peer_public_key@, keepalive, index, HANDSHAKE_LIMIT),
        ));
        tunnel
    }

    /// Encrypts an IP packet and puts what comes of it behind the packets that wait.
    pub fn encrypt_ip_packet(&mut self, ip: &[u8])
        requires
            ip@.len() <= 4096,
        ensures
            encrypts(*old(self), *final(self), ip@),
            grew(old(self).waiting(), final(self).waiting(), old(self).client_id()),
    {
        let ghost before = self.queue.waiting();
        let ghost id = self.queue.client_id;
        match tunn_outgoing(&mut self.tunn, ip) {
            Some(packet) => {
                proof {
                    lemma_marked(packet@, id);
                }
                self.queue.prepare_and_queue(packet);
            },
            None => {},
        }
        assert(self.queue.waiting().take(before.len() as int) =~= before);
    }

    /// Whether gotatun can count a packet.
    fn can_count(packet: &Vec<u8>) -> (res: bool)
        requires
            is_wg_packet(packet@),
        ensures
            res == is_countable(packet@),
    {
        if packet[0] != 4 {
            return true;
        }
        let counter: u64 = packet[8] as u64 + packet[9] as u64 * 0x100 + packet[10] as u64 * 0x1_0000
            + packet[11] as u64 * 0x100_0000 + packet[12] as u64 * 0x1_0000_0000 + packet[13] as u64
            * 0x100_0000_0000 + packet[14] as u64 * 0x1_0000_0000_0000 + packet[15] as u64
            * 0x100_0000_0000_0000;
        counter <= u64::MAX - 1024
    }

    /// Decrypts a packet of the server's. An IP packet comes out; answers to the server are put
    /// behind the packets that wait. What is no packet of WireGuard's is dropped, and so is data with
    /// a number that WireGuard could not count on from.
    pub fn decrypt_incoming(&mut self, data: Vec<u8>) -> (inject: Option<Vec<u8>>)
        ensures
            final(self).client_id() == old(self).client_id(),
            grew(old(self).waiting(), final(self).waiting(), old(self).client_id()),
            packet_view(inject) == old(self).yields(data@),
            receives(*old(self), *final(self), data@),
    {
        let mut data: Vec<u8> = data;
        strip_reserved(&mut data);
        let ghost before = self.queue.waiting();
        let ghost id = self.queue.client_id;
        let ghost bytes = data@;
        assert(before.take(before.len() as int) =~= before);
        let packet: WgKind = match read_wg_packet(data.as_slice()) {
            Some(packet) => packet,
            None => {
                return None;
            },
        };
        if !Self::can_count(&data) {
            return None;
        }
        let outcome = tunn_incoming(&mut self.tunn, packet);
        let ghost answer = if outcome is WriteToNetwork {
            Some(outcome->WriteToNetwork_0@)
        } else {
            None
        };
        proof {
            if let Some(answer) = answer {
                lemma_marked(answer, id);
            }
        }
        let inject = self.queue.on_incoming(outcome);
        proof {
            assert(self.queue.waiting().take(before.len() as int) =~= before);
            if bytes[0] != 4 {
                assert(shakes_hands(old(self).state(), self.state(), bytes, answer));
            }
        }
        inject
    }

    /// Puts what comes of the packets that WireGuard itself holds behind the packets that wait.
    pub fn drain_queued_to_send_queue(&mut self)
        ensures
            final(self).client_id() == old(self).client_id(),
            grew(old(self).waiting(), final(self).waiting(), old(self).client_id()),
            exists|sent: Seq<Seq<u8>>| #[trigger]
                drained(old(self).state(), final(self).state(), sent) && final(self).waiting()
                    == old(self).waiting() + all_marked(sent, old(self).client_id()),
    {
        let ghost before = self.queue.waiting();
        let ghost id = self.queue.client_id;
        let sent: Vec<Vec<u8>> = drain_held(&mut self.tunn);
        let ghost all = packet_views(sent@);
        assert(before + all_marked(all.take(0), id) =~= before);
        for packet in iter: sent
            invariant
                self.queue.client_id == id,
                all == packet_views(iter.seq()),
                self.queue.waiting() == before + all_marked(all.take(iter.index() as int), id),
                drained(tunn_state(old(self).tunn), tunn_state(self.tunn), all),
                id == old(self).queue.client_id,
                before == old(self).queue.waiting(),
        {
            proof {
                let k = iter.index() as int;
                assert(all[k] == packet@);
                assert(all.take(k + 1) =~= all.take(k).push(packet@));
                assert(before + all_marked(all.take(k + 1), id) =~= (before + all_marked(
                    all.take(k),
                    id,
                )).push(marked(packet@, id)));
            }
            self.queue.prepare_and_queue(packet);
        }
        proof {
            assert(all.take(all.len() as int) =~= all);
            assert(drained(old(self).state(), self.state(), all));
            lemma_drained_kinds(old(self).state(), self.state(), all);
            lemma_grown(before, all, id);
        }
    }

    /// Takes the packets that wait out, those that WireGuard itself holds behind them.
    pub fn take_send_queue(&mut self) -> (packets: Vec<Vec<u8>>)
        ensures
            final(self).client_id() == old(self).client_id(),
            final(self).waiting() == Seq::<Seq<u8>>::empty(),
            grew(old(self).waiting(), packet_views(packets@), old(self).client_id()),
            exists|sent: Seq<Seq<u8>>| #[trigger]
                drained(old(self).state(), final(self).state(), sent) && packet_views(packets@)
                    == old(self).waiting() + all_marked(sent, old(self).client_id()),
    {
        self.drain_queued_to_send_queue();
        let ghost between = *self;
        let ghost sent = choose|sent: Seq<Seq<u8>>| #[trigger]
            drained(old(self).state(), between.state(), sent) && between.waiting() == old(
                self,
            ).waiting() + all_marked(sent, old(self).client_id());
        let packets: Vec<Vec<u8>> = self.queue.take_all();
        assert(drained(old(self).state(), self.state(), sent));
        packets
    }

    /// Lets the timers tick: the packets that are due, in order. What is due rests on the time. Where
    /// something is, the packets that WireGuard itself holds are asked for too; the result is then the
    /// one of `due_packets`. Where none is given, no handshake was started, and a session that has not
    /// ended encrypts as before. A tunnel that was given up says so at each tick.
    pub fn tick_timers(&mut self) -> (res: Result<Vec<Vec<u8>>, WgTunnelError>)
        ensures
            final(self).client_id() == old(self).client_id(),
            final(self).waiting() == old(self).waiting(),
            exists|timers: Result<Option<Seq<u8>>, Seq<char>>, held: Seq<Seq<u8>>|
                is_tick(#[trigger] ticked(timers, held, old(self).client_id()), res) && ticks(
                    old(self).state(),
                    final(self).state(),
                    timers,
                    held,
                ),
            match res {
                Ok(packets) => {
                    let due = packet_views(packets@);
                    &&& due.len() > 0 ==> is_init(due[0]) || carries(due[0], 0)
                    &&& all_sendable(due)
                    &&& forall|i: int|
                        0 <= i < due.len() ==> names_device(#[trigger] due[i], old(self).client_id())
                },
                Err(e) => e matches WgTunnelError::WireGuard(why) && why@ == "ConnectionExpired"@,
            },
            old(self).state().given_up ==> res is Err,
            final(self).state().given_up == res is Err,
            res matches Ok(packets) && packets@.len() == 0 ==> {
                &&& final(self).state().waits == old(self).state().waits
                &&& final(self).state().shakes == old(self).state().shakes
                &&& final(self).state().session ==> forall|ip: Seq<u8>| #[trigger]
                    final(self).seals(ip) == old(self).seals(ip)
            },
            res is Err ==> !final(self).state().waits,
    {
        let timers: Result<Option<Vec<u8>>, String> = tunn_timers(&mut self.tunn);
        let ghost between = tunn_state(self.tunn);
        let due: bool = match &timers {
            Ok(Some(_)) => true,
            _ => false,
        };
        let held: Vec<Vec<u8>> = if due {
            drain_held(&mut self.tunn)
        } else {
            Vec::new()
        };
        let ghost id = self.queue.client_id;
        let ghost said = timers_view(timers);
        let ghost sent = packet_views(held@);
        let res = due_packets(timers, held, self.queue.client_id);
        proof {
            assert(timers_step(old(self).state(), between, said));
            assert(is_tick(ticked(said, sent, old(self).client_id()), res));
            assert(ticks(old(self).state(), self.state(), said, sent));
            if let Ok(Some(first)) = said {
                let all = seq![first] + sent;
                lemma_drained_kinds(between, self.state(), sent);
                assert(all_sendable(all));
                lemma_grown(Seq::empty(), all, id);
                lemma_marked(first, id);
                assert(Seq::<Seq<u8>>::empty() + all_marked(all, id) =~= all_marked(all, id));
                assert(ticked(said, sent, id)->Ok_0 =~= all_marked(all, id));
                assert(all_marked(all, id)[0] == marked(first, id));
            }
        }
        res
    }

    /// Starts a handshake: its first packet.
    pub fn start_handshake(&mut self, now: u64, timeout: u64) -> (res: Result<
        (WgHandshake, Vec<u8>),
        WgTunnelError,
    >)
        ensures
            final(self).client_id() == old(self).client_id(),
            final(self).waiting() == old(self).waiting(),
            final(self).state() == old(self).state().started(),
            res matches Ok((handshake, first)) && {
                &&& is_init(first@)
                &&& names_device(first@, old(self).client_id())
                &&& handshake == (WgHandshake {
                    started: now,
                    timeout,
                    next_tick: (now + HANDSHAKE_TICK_MS * 1_000_000) as u128,
                })
            },
    {
        let init: Option<Vec<u8>> = tunn_handshake(&mut self.tunn, true);
        WgHandshake::start(init, self.queue.client_id, now, timeout)
    }

    /// How many packets wait to be sent.
    pub fn pending_send_packets(&self) -> (n: usize)
        ensures
            n == self.waiting().len(),
    {
        self.queue.packets.len()
    }

    /// Whether the handshake is complete.
    pub fn is_established(&self) -> (res: bool)
        ensures
            res == self.state().session,
    {
        tunn_has_session(&self.tunn)
    }

    /// Whether the tunnel was given up.
    pub fn is_expired(&self) -> (res: bool)
        ensures
            res == self.state().given_up,
    {
        tunn_expired(&self.tunn)
    }
}

/// The number of the device stands in the three bytes behind the first, and nothing else of a packet
/// changes; stripping leaves zeros there. A packet of less than four bytes has no room for it.
pub proof fn where_the_device_stands(packet: Seq<u8>, client_id: [u8; 3])
    ensures
        marked(packet, client_id).len() == packet.len(),
        stripped(packet).len() == packet.len(),
        packet.len() < 4 ==> marked(packet, client_id) == packet && stripped(packet) == packet,
        packet.len() >= 4 ==> forall|i: int|
            0 <= i < packet.len() ==> #[trigger] marked(packet, client_id)[i] == if 1 <= i <= 3 {
                client_id@[i - 1]
            } else {
                packet[i]
            },
        packet.len() >= 4 ==> forall|i: int|
            0 <= i < packet.len() ==> #[trigger] stripped(packet)[i] == if 1 <= i <= 3 {
                0
            } else {
                packet[i]
            },
{
}

/// What comes out of the tunnel: the IP packet that WireGuard finds in a data packet, whatever device
/// stands on it. Nothing comes out of other packets, and an empty packet is none.
pub proof fn what_comes_out_of_the_tunnel(tunnel: WgTunnel, data: Seq<u8>, ip: Seq<u8>)
    ensures
        tunnel.yields(data) == Some(ip) <==> {
            &&& data.len() >= 32
            &&& data[0] == 4
            &&& data_counter(data) <= u64::MAX - 1024
            &&& tunnel.opens(stripped(data)) == Some(ip)
            &&& ip.len() > 0
        },
        data.len() > 0 && data[0] != 4 ==> tunnel.yields(data) is None,
{
    where_the_device_stands(data, [0, 0, 0]);
}

/// What stays as it was when a packet comes in: a data packet adds nothing to what waits to be sent,
/// and what is no packet of WireGuard's changes nothing at all. A handshake packet adds at most one
/// packet, which names the device.
pub proof fn what_an_incoming_packet_changes(before: WgTunnel, after: WgTunnel, data: Seq<u8>)
    requires
        receives(before, after, data),
    ensures
        data.len() < 32 ==> after.waiting() == before.waiting() && after.state() == before.state(),
        data.len() > 0 && (data[0] == 0 || data[0] > 4) ==> after.waiting() == before.waiting()
            && after.state() == before.state(),
        data.len() > 0 && data[0] == 4 ==> after.waiting() == before.waiting(),
        data.len() > 0 && data[0] == 4 && !before.state().session && after.state().session
            ==> before.opens(stripped(data)) is Some,
        before.state().session && data.len() > 0 && data[0] == 4 ==> after.state().session,
        before.waiting().is_prefix_of(after.waiting()),
        after.waiting().len() <= before.waiting().len() + 1,
        after.waiting().len() > before.waiting().len() ==> data[0] == 1 || data[0] == 2,
{
    where_the_device_stands(data, [0, 0, 0]);
    let packet = stripped(data);
    if is_wg_packet(packet) && is_countable(packet) && packet[0] != 4 {
        let answer = choose|answer: Option<Seq<u8>>| #[trigger]
            shakes_hands(before.state(), after.state(), packet, answer) && after.waiting()
                == match answer {
                Some(answer) => before.waiting().push(marked(answer, before.client_id())),
                None => before.waiting(),
            };
        assert(answer is Some ==> answers(packet, answer->0));
    }
}

/// With a session, an IP packet waits to be sent as WireGuard sealed it, with the device on it, and
/// no handshake begins. Without one it is held back, up to 256 packets, and a handshake begins unless
/// one is under way.
pub proof fn what_becomes_of_an_ip_packet(before: WgTunnel, after: WgTunnel, ip: Seq<u8>)
    requires
        encrypts(before, after, ip),
    ensures
        before.state().session ==> {
            &&& before.seals(ip) is Some
            &&& after.waiting() == before.waiting().push(
                marked(before.seals(ip)->0, before.client_id()),
            )
            &&& after.state() == before.state()
        },
        !before.state().session ==> {
            &&& after.state().held == if before.state().held.len() < 256 {
                before.state().held.push(ip)
            } else {
                before.state().held
            }
            &&& after.state().waits
            &&& !after.state().given_up
            &&& before.state().waits ==> after.waiting() == before.waiting()
            &&& !before.state().waits ==> {
                &&& after.waiting().len() == before.waiting().len() + 1
                &&& before.waiting().is_prefix_of(after.waiting())
                &&& after.waiting().last().len() == 148
                &&& after.waiting().last()[0] == 1
            }
        },
{
}

/// Packets that were held back go out in their order once there is a session, and none stays. Until
/// then none goes out, and none is lost.
pub proof fn held_packets_go_out(before: WgState, after: WgState, sent: Seq<Seq<u8>>, packet: Seq<u8>)
    requires
        drained(before, after, sent),
    ensures
        before.session ==> after.held.len() == 0 && sent.len() == before.held.len(),
        before.session ==> forall|i: int|
            0 <= i < sent.len() ==> (#[trigger] sent[i])[0] == 4 && sent[i].len()
                == before.held[i].len() + 32,
        !before.session ==> after.held.len() == before.held.len(),
        !before.session ==> (after.held.contains(packet) <==> before.held.contains(packet)),
        after.session == before.session,
        after.made_of == before.made_of,
{
    if before.session {
        assert forall|i: int| 0 <= i < sent.len() implies (#[trigger] sent[i])[0] == 4
            && sent[i].len() == before.held[i].len() + 32 by {
            assert(before.held.len() > 0);
            assert(sealed_by(before.made_of, before.held[i], sent[i]));
        }
    } else if before.held.len() > 0 {
        rotation_loses_nothing(before.held, packet);
        rotation_loses_nothing(before.rotated().held, packet);
    }
}

proof fn rotation_loses_nothing(held: Seq<Seq<u8>>, packet: Seq<u8>)
    requires
        held.len() > 0,
    ensures
        held.skip(1).push(held[0]).len() == held.len(),
        held.skip(1).push(held[0]).contains(packet) <==> held.contains(packet),
{
    let turned = held.skip(1).push(held[0]);
    if held.contains(packet) {
        let i = held.index_of(packet);
        if i == 0 {
            assert(turned[turned.len() - 1] == packet);
        } else {
            assert(turned[i - 1] == packet);
        }
    }
    if turned.contains(packet) {
        let i = turned.index_of(packet);
        if i < held.len() - 1 {
            assert(held[i + 1] == packet);
        }
    }
}

/// What the timers have due goes out first, and behind it what was held back, each with the device on
/// it. Where nothing is due nothing goes out.
pub proof fn what_is_due_goes_first(due: Seq<u8>, held: Seq<Seq<u8>>, client_id: [u8; 3], why: Seq<char>)
    ensures
        ticked(Ok(Some(due)), held, client_id) is Ok,
        ({
            let out = ticked(Ok(Some(due)), held, client_id)->Ok_0;
            &&& out.len() == held.len() + 1
            &&& out[0] == marked(due, client_id)
            &&& forall|i: int| 0 <= i < held.len() ==> #[trigger] out[i + 1] == marked(held[i], client_id)
        }),
        ticked(Ok(None), held, client_id) == Ok::<Seq<Seq<u8>>, Seq<char>>(Seq::empty()),
        ticked(Err(why), held, client_id) == Err::<Seq<Seq<u8>>, Seq<char>>(why),
{
}

/// Packets are marked one by one, in their order.
pub proof fn all_packets_name_the_device(packets: Seq<Seq<u8>>, client_id: [u8; 3], i: int)
    requires
        0 <= i < packets.len(),
    ensures
        all_marked(packets, client_id).len() == packets.len(),
        all_marked(packets, client_id)[i] == marked(packets[i], client_id),
{
}

/// A handshake may take its time in milliseconds and no longer; its timers tick four times a second.
pub proof fn how_long_a_handshake_may_take(h: WgHandshake, now: u64)
    ensures
        handshake_over(h, now) <==> now > h.started + h.timeout * 1_000_000,
        HANDSHAKE_TICK_MS == 250,
{
}

/// A tunnel is made of the two keys and the keepalive that it is given; none is zero.
pub proof fn what_a_tunnel_is_made_of(
    private_key: Seq<u8>,
    peer: Seq<u8>,
    keepalive: Option<u16>,
    index: u32,
    limit: u64,
)
    ensures
        ({
            let made = making(private_key, peer, keepalive, index, limit);
            let fresh = WgState::fresh(made);
            &&& made.private_key == private_key
            &&& made.peer == peer
            &&& keepalive is Some ==> made.keepalive == keepalive->0
            &&& keepalive is None ==> made.keepalive == 0
            &&& made.limit == limit
            &&& fresh.made_of == made
            &&& !fresh.session && !fresh.given_up && !fresh.waits
            &&& fresh.shakes == 0
            &&& fresh.held.len() == 0
        }),
        HANDSHAKE_LIMIT == 100,
        HELD_PACKETS == 256,
{
}

/// Each kind of error reads with its own words.
pub proof fn how_wg_errors_read(e: WgTunnelError)
    ensures
        e matches WgTunnelError::Io(why) ==> wg_error_text(e) == "IO error: "@ + why@,
        e matches WgTunnelError::WireGuard(why) ==> wg_error_text(e) == "WireGuard error: "@ + why@,
        e is HandshakeTimeout ==> wg_error_text(e) == "handshake timeout"@,
        e is HandshakeInitFailed ==> wg_error_text(e) == "handshake initiation failed"@,
{
}

/// What the timers gave is told packet by packet, and their failure with its reason.
pub proof fn what_the_timers_gave_is_told(
    outcome: Result<Seq<Seq<u8>>, Seq<char>>,
    res: Result<Vec<Vec<u8>>, WgTunnelError>,
)
    requires
        is_tick(outcome, res),
    ensures
        res is Ok <==> outcome is Ok,
        res is Ok ==> res->Ok_0@.len() == outcome->Ok_0.len() && forall|i: int|
            0 <= i < outcome->Ok_0.len() ==> (#[trigger] res->Ok_0@[i])@ == outcome->Ok_0[i],
        res is Err ==> res->Err_0 is WireGuard && res->Err_0->WireGuard_0@ == outcome->Err_0,
{
    if res is Ok {
        assert forall|i: int| 0 <= i < outcome->Ok_0.len() implies (#[trigger] res->Ok_0@[i])@
            == outcome->Ok_0[i] by {
            assert(packet_views(res->Ok_0@)[i] == outcome->Ok_0[i]);
        }
    }
}

/// A count of handshakes grows by one and starts anew behind the largest byte.
pub proof fn handshakes_are_counted(count: u8)
    ensures
        one_more(count) == (count + 1) % 256,
{
}

} // verus!
