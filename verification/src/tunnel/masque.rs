//! The MASQUE tunnel: how it is set up, how packets are framed, and what the server says
//! on the control stream.

use crate::text::{same_bytes, texts};
use crate::tunnel::capsule::{
    assigned_list, decode_varint, parse_address_assign_capsule, parse_route_advertisement_capsule,
    route_list, try_decode_varint, varint_fault,
};
use crate::tunnel::packet::{
    compose_icmp_packet_too_big, forwarded, process_outgoing_ip_packet, too_big_answer, MIN_MTU,
};
use crate::tunnel::quic::{
    public_key_accepted, quic_error_text, verify_peer_public_key, QuicError,
};
use crate::tunnel::varint::{
    be_nat, encoding_reads_back, leading_varint, prefix_len, shortest_len, varint_bytes, varint_len,
};
use crate::vars::Vars;
use vstd::prelude::*;
use vstd::slice::slice_subrange;
use vstd::utf8::{
    decode_utf8, decode_utf8_encode_utf8, encode_utf8, encode_utf8_decode_utf8,
    encode_utf8_valid_utf8, valid_utf8,
};

verus! {

/// The number of the request that opens the tunnel.
pub const CONNECT_REQUEST_ID: u64 = 1;

/// The context of a datagram that carries an IP packet.
const CONTEXT_ID_ZERO: u8 = 0;

/// Why the MASQUE tunnel failed.
#[derive(Debug)]
pub enum MasqueError {
    QuicError(QuicError),
    ConnectionError(String),
    IoError(String),
    TokioQuiche(String),
    ConnectIpFailed(String),
    Timeout,
}

/// What became of a packet that was to be sent.
#[derive(Debug)]
pub enum DatagramSendState {
    Sent,
    Dropped,
    PacketTooBig(Vec<u8>),
    Blocked,
}

/// What the control stream has brought so far: bytes that are not a whole capsule yet,
/// the addresses that were assigned, and the routes that were advertised.
#[derive(Debug)]
pub struct MasqueControlState {
    pub recv_buf: Vec<u8>,
    pub assigned_addresses: Vec<String>,
    pub advertised_routes: Vec<String>,
}

/// The control stream as values.
#[verifier::ext_equal]
pub struct ControlView {
    pub pending: Seq<u8>,
    pub assigned: Seq<Seq<char>>,
    pub routes: Seq<Seq<char>>,
}

impl View for MasqueControlState {
    type V = ControlView;

    open spec fn view(&self) -> ControlView {
        ControlView {
            pending: self.recv_buf@,
            assigned: texts(self.assigned_addresses@),
            routes: texts(self.advertised_routes@),
        }
    }
}

/// A capsule at the front of a buffer.
pub struct CapsuleFrame {
    pub capsule_type: u64,
    pub payload: Seq<u8>,
    pub len: int,
}

/// The capsule at the front of `buf`, if `buf` holds all of it.
pub open spec fn leading_capsule(buf: Seq<u8>) -> Option<CapsuleFrame> {
    match leading_varint(buf) {
        None => None,
        Some((capsule_type, type_len)) => match leading_varint(buf.skip(type_len as int)) {
            None => None,
            Some((payload_len, len_len)) => {
                let head = type_len + len_len;
                if buf.len() < head + payload_len {
                    None
                } else {
                    Some(
                        CapsuleFrame {
                            capsule_type,
                            payload: buf.subrange(head, head + payload_len),
                            len: head + payload_len,
                        },
                    )
                }
            },
        },
    }
}

/// What a capsule does: an address assignment (type 1) and a route advertisement (type 3)
/// add their entries, every other capsule is ignored. A payload that cannot be read is an
/// error and adds nothing.
pub open spec fn capsule_effect(state: ControlView, capsule_type: u64, payload: Seq<u8>) -> Result<
    ControlView,
    Seq<char>,
> {
    if capsule_type == 1 {
        match assigned_list(payload) {
            Ok(list) => Ok(ControlView { assigned: state.assigned + list, ..state }),
            Err(fault) => Err(fault),
        }
    } else if capsule_type == 3 {
        match route_list(payload) {
            Ok(list) => Ok(ControlView { routes: state.routes + list, ..state }),
            Err(fault) => Err(fault),
        }
    } else {
        Ok(state)
    }
}

/// The state after all whole capsules at the front of the pending bytes have been taken,
/// and what was wrong with the one that ended this, if any.
pub open spec fn drained(state: ControlView) -> (ControlView, Option<Seq<char>>)
    decreases state.pending.len(),
{
    match leading_capsule(state.pending) {
        None => (state, None),
        Some(frame) => {
            let rest = ControlView { pending: state.pending.skip(frame.len), ..state };
            match capsule_effect(rest, frame.capsule_type, frame.payload) {
                Err(fault) => (rest, Some(fault)),
                Ok(next) => if 0 < frame.len <= state.pending.len() && next.pending
                    == rest.pending {
                    drained(next)
                } else {
                    (next, None)
                },
            }
        },
    }
}

/// The state after `chunk` has arrived, and what was wrong, if anything. A stream that
/// ends within a capsule is an error.
pub open spec fn after_chunk(state: ControlView, chunk: Seq<u8>, fin: bool) -> (
    ControlView,
    Option<Seq<char>>,
) {
    let (next, fault) = drained(ControlView { pending: state.pending + chunk, ..state });
    if fault is None && fin && next.pending.len() > 0 {
        (next, Some("truncated MASQUE control capsule"@))
    } else {
        (next, fault)
    }
}

/// Whether `res` is success where there is no fault, and a connection error with the
/// fault's text where there is one.
pub open spec fn reports(res: Result<(), MasqueError>, fault: Option<Seq<char>>) -> bool {
    match res {
        Ok(_) => fault is None,
        Err(MasqueError::ConnectionError(text)) => fault == Some(text@),
        Err(_) => false,
    }
}

proof fn texts_join(a: Seq<String>, b: Seq<String>)
    ensures
        texts(a + b) == texts(a) + texts(b),
{
    assert(texts(a + b) =~= texts(a) + texts(b));
}

proof fn capsule_len_positive(buf: Seq<u8>)
    ensures
        leading_capsule(buf) matches Some(frame) ==> 0 < frame.len <= buf.len(),
{
}

impl MasqueControlState {
    /// A control stream that has brought nothing yet.
    pub fn new() -> (state: MasqueControlState)
        ensures
            state@.pending.len() == 0,
            state@.assigned.len() == 0,
            state@.routes.len() == 0,
    {
        MasqueControlState {
            recv_buf: Vec::new(),
            assigned_addresses: Vec::new(),
            advertised_routes: Vec::new(),
        }
    }

    /// Takes note of one capsule.
    pub fn process_capsule(&mut self, capsule_type: u64, payload: &[u8]) -> (res: Result<
        (),
        MasqueError,
    >)
        ensures
            match capsule_effect(old(self)@, capsule_type, payload@) {
                Ok(next) => res is Ok && final(self)@ == next,
                Err(fault) => reports(res, Some(fault)) && final(self)@ == old(self)@,
            },
            final(self).recv_buf@ == old(self).recv_buf@,
    {
        if capsule_type == 1 {
            match parse_address_assign_capsule(payload) {
                Ok(list) => {
                    let mut list: Vec<String> = list;
                    proof {
                        texts_join(self.assigned_addresses@, list@);
                    }
                    self.assigned_addresses.append(&mut list);
                    Ok(())
                },
                Err(e) => Err(e),
            }
        } else if capsule_type == 3 {
            match parse_route_advertisement_capsule(payload) {
                Ok(list) => {
                    let mut list: Vec<String> = list;
                    proof {
                        texts_join(self.advertised_routes@, list@);
                    }
                    self.advertised_routes.append(&mut list);
                    Ok(())
                },
                Err(e) => Err(e),
            }
        } else {
            Ok(())
        }
    }

    /// Takes off the capsule at the front of the pending bytes, if all of it is there: its
    /// type and its payload.
    pub fn take_capsule(&mut self) -> (res: Option<(u64, Vec<u8>)>)
        ensures
            match leading_capsule(old(self)@.pending) {
                Some(frame) => res matches Some((capsule_type, payload)) && capsule_type
                    == frame.capsule_type && payload@ == frame.payload && final(self)@ == (
                ControlView { pending: old(self)@.pending.skip(frame.len), ..old(self)@ }),
                None => res is None && final(self)@ == old(self)@,
            },
    {
        let (capsule_type, type_len) = match try_decode_varint(self.recv_buf.as_slice()) {
            Some(pair) => pair,
            None => {
                return None;
            },
        };
        let rest = slice_subrange(self.recv_buf.as_slice(), type_len, self.recv_buf.len());
        assert(rest@ =~= self.recv_buf@.skip(type_len as int));
        let (payload_len, len_len) = match try_decode_varint(rest) {
            Some(pair) => pair,
            None => {
                return None;
            },
        };
        let head: usize = type_len + len_len;
        if payload_len > (self.recv_buf.len() - head) as u64 {
            return None;
        }
        let frame_len: usize = head + payload_len as usize;
        let ghost before = self.recv_buf@;
        let mut frame: Vec<u8> = self.recv_buf.split_off(frame_len);
        std::mem::swap(&mut frame, &mut self.recv_buf);
        let payload = frame.split_off(head);
        assert(payload@ =~= before.subrange(head as int, frame_len as int));
        assert(self.recv_buf@ =~= before.skip(frame_len as int));
        Some((capsule_type, payload))
    }

    /// Takes the next bytes of the control stream; `fin`: there are no more.
    pub fn process_control_chunk(&mut self, chunk: &[u8], fin: bool) -> (res: Result<
        (),
        MasqueError,
    >)
        ensures
            final(self)@ == after_chunk(old(self)@, chunk@, fin).0,
            reports(res, after_chunk(old(self)@, chunk@, fin).1),
    {
        self.recv_buf.extend_from_slice(chunk);
        let ghost start = self@;
        assert(start == ControlView { pending: old(self)@.pending + chunk@, ..old(self)@ });
        let mut more: bool = true;
        while more
            invariant
                drained(self@) == drained(start),
                !more ==> leading_capsule(self@.pending) is None,
                start == (ControlView { pending: old(self)@.pending + chunk@, ..old(self)@ }),
            decreases self@.pending.len() + (if more {
                1int
            } else {
                0int
            }),
        {
            proof {
                capsule_len_positive(self@.pending);
            }
            match self.take_capsule() {
                Some((capsule_type, payload)) => {
                    match self.process_capsule(capsule_type, payload.as_slice()) {
                        Ok(_) => {},
                        Err(e) => {
                            return Err(e);
                        },
                    }
                },
                None => {
                    more = false;
                },
            }
        }
        if fin && self.recv_buf.len() > 0 {
            return Err(
                MasqueError::ConnectionError(String::from_str("truncated MASQUE control capsule")),
            );
        }
        Ok(())
    }
}

proof fn longer_varint(buf: Seq<u8>, more: Seq<u8>)
    requires
        leading_varint(buf) is Some,
    ensures
        leading_varint(buf + more) == leading_varint(buf),
{
    let len = prefix_len(buf[0]) as int;
    assert((buf + more).take(len) =~= buf.take(len));
}

proof fn longer_capsule(buf: Seq<u8>, more: Seq<u8>)
    requires
        leading_capsule(buf) is Some,
    ensures
        leading_capsule(buf + more) == leading_capsule(buf),
{
    longer_varint(buf, more);
    let first = leading_varint(buf)->0;
    let type_len = first.1 as int;
    assert((buf + more).skip(type_len) =~= buf.skip(type_len) + more);
    longer_varint(buf.skip(type_len), more);
    let frame = leading_capsule(buf)->0;
    let head = frame.len - frame.payload.len();
    assert((buf + more).subrange(head, frame.len) =~= buf.subrange(head, frame.len));
}

proof fn drained_in_parts(state: ControlView, more: Seq<u8>)
    requires
        drained(state).1 is None,
    ensures
        drained(ControlView { pending: state.pending + more, ..state }) == drained(
            ControlView { pending: drained(state).0.pending + more, ..drained(state).0 },
        ),
    decreases state.pending.len(),
{
    if leading_capsule(state.pending) is Some {
        capsule_len_positive(state.pending);
        longer_capsule(state.pending, more);
        let frame = leading_capsule(state.pending)->0;
        let rest = ControlView { pending: state.pending.skip(frame.len), ..state };
        let next = capsule_effect(rest, frame.capsule_type, frame.payload)->Ok_0;
        let longer = ControlView { pending: state.pending + more, ..state };
        assert(longer.pending.skip(frame.len) =~= rest.pending + more);
        capsule_len_positive(longer.pending);
        drained_in_parts(next, more);
    }
}

/// How the control stream is cut into chunks does not matter: two chunks do what the two
/// together do.
pub proof fn chunks_may_be_joined(state: ControlView, first: Seq<u8>, second: Seq<u8>, fin: bool)
    requires
        after_chunk(state, first, false).1 is None,
    ensures
        after_chunk(after_chunk(state, first, false).0, second, fin) == after_chunk(
            state,
            first + second,
            fin,
        ),
{
    let joined = ControlView { pending: state.pending + first, ..state };
    drained_in_parts(joined, second);
    assert((state.pending + first) + second =~= state.pending + (first + second));
}

/// The datagram for a packet, or why there is none.
#[derive(Debug)]
pub enum PreparedDatagram {
    /// The bytes to send.
    Ready(Vec<u8>),
    /// The packet is dropped.
    Dropped,
    /// The packet does not fit; this answer goes back to its sender.
    PacketTooBig(Vec<u8>),
}

/// What is to be done with a packet, as values.
pub enum DatagramPlan {
    Ready(Seq<u8>),
    Dropped,
    PacketTooBig(Seq<u8>),
}

/// What is to be done with `packet`: it is sent behind context zero with one hop less. A
/// packet that may not be forwarded is dropped. One that is too long for a datagram is
/// answered with the MTU 1280, or dropped where there is no answer to it.
pub open spec fn datagram_plan(packet: Seq<u8>, max_len: Option<usize>) -> DatagramPlan {
    match forwarded(packet) {
        None => DatagramPlan::Dropped,
        Some(sent) => if max_len matches Some(max) && sent.len() + 1 > max {
            match too_big_answer(packet, 1280) {
                Some(answer) => DatagramPlan::PacketTooBig(answer),
                None => DatagramPlan::Dropped,
            }
        } else {
            DatagramPlan::Ready(seq![0u8] + sent)
        },
    }
}

/// The packet in a datagram: nothing if the datagram has another context than zero. A
/// datagram without a whole context is an error.
pub open spec fn datagram_payload(dgram: Seq<u8>) -> Result<Option<Seq<u8>>, Seq<char>> {
    match leading_varint(dgram) {
        None => Err(varint_fault(dgram)),
        Some((context, len)) => if context != 0 {
            Ok(None)
        } else {
            Ok(Some(dgram.skip(len as int)))
        },
    }
}

/// A datagram that was prepared for a packet carries the packet that is forwarded.
pub proof fn prepared_datagram_carries_packet(packet: Seq<u8>, max_len: Option<usize>)
    requires
        datagram_plan(packet, max_len) is Ready,
    ensures
        datagram_payload(datagram_plan(packet, max_len)->Ready_0) == Ok::<
            Option<Seq<u8>>,
            Seq<char>,
        >(Some(forwarded(packet)->0)),
{
    let sent = forwarded(packet)->0;
    let dgram = seq![0u8] + sent;
    reveal_with_fuel(be_nat, 2);
    assert(dgram.take(1).drop_last() =~= Seq::<u8>::empty());
    assert(dgram.skip(1) =~= sent);
}

/// How the flow of datagrams took one.
#[derive(Debug)]
pub enum FlowSend {
    Sent,
    /// The flow was full, and took the datagram after a wait.
    SentAfterWait,
    /// The flow was full, and the wait for it failed.
    FailedAfterWait(String),
    Closed,
    Unavailable,
}

/// An open MASQUE tunnel.
#[derive(Debug)]
pub struct MasqueTunnel {
    pub connect_stream_id: u64,
    pub flow_id: u64,
    pub max_h3_dgram_len: Option<usize>,
    pub control_state: MasqueControlState,
}

impl MasqueTunnel {
    /// The length of the longest IP packet that fits a datagram; 1280 where the longest
    /// datagram is not known.
    pub fn max_ip_packet_len(&self) -> (len: usize)
        ensures
            len == match self.max_h3_dgram_len {
                Some(max) => if max > 0 {
                    max - 1
                } else {
                    0
                },
                None => 1280,
            },
    {
        match self.max_h3_dgram_len {
            Some(max) => max.saturating_sub(1),
            None => 1280,
        }
    }

    /// Makes the datagram for a packet, or says why there is none.
    pub fn prepare_datagram(&self, packet: &Vec<u8>) -> (res: PreparedDatagram)
        ensures
            match datagram_plan(packet@, self.max_h3_dgram_len) {
                DatagramPlan::Ready(bytes) => res matches PreparedDatagram::Ready(dgram) && dgram@
                    == bytes,
                DatagramPlan::Dropped => res is Dropped,
                DatagramPlan::PacketTooBig(bytes) => res matches PreparedDatagram::PacketTooBig(
                    answer,
                ) && answer@ == bytes,
            },
    {
        let mut sent: Vec<u8> = packet.clone();
        assert(sent@ =~= packet@);
        let pass: bool = match process_outgoing_ip_packet(&mut sent) {
            Ok(pass) => pass,
            Err(_) => false,
        };
        if !pass {
            return PreparedDatagram::Dropped;
        }
        let too_big: bool = match self.max_h3_dgram_len {
            Some(max) => sent.len() >= max,
            None => false,
        };
        if too_big {
            return match compose_icmp_packet_too_big(packet.as_slice(), MIN_MTU) {
                Some(answer) => PreparedDatagram::PacketTooBig(answer),
                None => PreparedDatagram::Dropped,
            };
        }
        let mut dgram: Vec<u8> = Vec::new();
        dgram.push(CONTEXT_ID_ZERO);
        dgram.append(&mut sent);
        PreparedDatagram::Ready(dgram)
    }

    /// What a packet became whose datagram was handed to the flow.
    pub fn send_outcome(outcome: FlowSend) -> (res: Result<DatagramSendState, MasqueError>)
        ensures
            match outcome {
                FlowSend::Sent | FlowSend::SentAfterWait => res matches Ok(
                    DatagramSendState::Sent,
                ),
                FlowSend::FailedAfterWait(reason) => res matches Err(
                    MasqueError::ConnectionError(text),
                ) && text@ == "datagram send failed after waiting: "@ + reason@,
                FlowSend::Closed => res matches Err(MasqueError::ConnectionError(text)) && text@
                    == "datagram flow sender closed"@,
                FlowSend::Unavailable => res matches Err(MasqueError::ConnectionError(text))
                    && text@ == "datagram flow sender unavailable"@,
            },
    {
        match outcome {
            FlowSend::Sent => Ok(DatagramSendState::Sent),
            FlowSend::SentAfterWait => Ok(DatagramSendState::Sent),
            FlowSend::FailedAfterWait(reason) => Err(
                MasqueError::ConnectionError(
                    String::from_str("datagram send failed after waiting: ").concat(
                        reason.as_str(),
                    ),
                ),
            ),
            FlowSend::Closed => Err(
                MasqueError::ConnectionError(String::from_str("datagram flow sender closed")),
            ),
            FlowSend::Unavailable => Err(
                MasqueError::ConnectionError(String::from_str("datagram flow sender unavailable")),
            ),
        }
    }

    /// Writes the packet in `dgram` to the front of `buf` and returns its length: zero for a
    /// datagram of another context.
    pub fn decode_datagram(&self, dgram: &[u8], buf: &mut Vec<u8>) -> (res: Result<
        usize,
        MasqueError,
    >)
        ensures
            match datagram_payload(dgram@) {
                Err(fault) => reports_fault(res, fault) && final(buf)@ == old(buf)@,
                Ok(None) => res == Ok::<usize, MasqueError>(0) && final(buf)@ == old(buf)@,
                Ok(Some(payload)) => if payload.len() > old(buf)@.len() {
                    reports_fault(res, "Buffer too small"@) && final(buf)@ == old(buf)@
                } else {
                    res == Ok::<usize, MasqueError>(payload.len() as usize) && final(buf)@
                        == payload + old(buf)@.skip(payload.len() as int)
                },
            },
    {
        let (context_id, ctx_len) = match decode_varint(dgram) {
            Ok(pair) => pair,
            Err(e) => {
                return Err(e);
            },
        };
        if context_id != 0 {
            return Ok(0);
        }
        let payload_len: usize = dgram.len() - ctx_len;
        if payload_len > buf.len() {
            return Err(MasqueError::ConnectionError(String::from_str("Buffer too small")));
        }
        let ghost before = buf@;
        let ghost payload = dgram@.skip(ctx_len as int);
        let mut i: usize = 0;
        while i < payload_len
            invariant
                i <= payload_len == payload.len(),
                payload_len + ctx_len == dgram@.len() <= usize::MAX,
                payload == dgram@.skip(ctx_len as int),
                payload_len <= before.len() == buf@.len(),
                buf@ =~= payload.take(i as int) + before.skip(i as int),
            decreases payload_len - i,
        {
            let byte: u8 = dgram[ctx_len + i];
            buf.set(i, byte);
            i += 1;
        }
        assert(payload.take(payload_len as int) =~= payload);
        Ok(payload_len)
    }

    /// Takes the next bytes of the control stream; `fin`: there are no more.
    pub fn process_control_chunk(&mut self, chunk: &[u8], fin: bool) -> (res: Result<
        (),
        MasqueError,
    >)
        ensures
            final(self).control_state@ == after_chunk(old(self).control_state@, chunk@, fin).0,
            reports(res, after_chunk(old(self).control_state@, chunk@, fin).1),
            final(self).connect_stream_id == old(self).connect_stream_id,
            final(self).flow_id == old(self).flow_id,
            final(self).max_h3_dgram_len == old(self).max_h3_dgram_len,
    {
        self.control_state.process_control_chunk(chunk, fin)
    }

    /// The addresses that were assigned so far.
    pub fn assigned_addresses(&self) -> (list: &Vec<String>)
        ensures
            texts(list@) == self.control_state@.assigned,
    {
        &self.control_state.assigned_addresses
    }

    /// The routes that were advertised so far.
    pub fn advertised_routes(&self) -> (list: &Vec<String>)
        ensures
            texts(list@) == self.control_state@.routes,
    {
        &self.control_state.advertised_routes
    }
}

/// Whether `res` is a connection error with this text.
pub open spec fn reports_fault<T>(res: Result<T, MasqueError>, fault: Seq<char>) -> bool {
    res matches Err(MasqueError::ConnectionError(text)) && text@ == fault
}

/// The headers of the request that opens the tunnel, as values.
pub open spec fn connect_headers() -> Seq<(Seq<char>, Seq<char>)> {
    seq![
        (":method"@, "CONNECT"@),
        (":protocol"@, "cf-connect-ip"@),
        (":scheme"@, "https"@),
        (":authority"@, "cloudflareaccess.com"@),
        (":path"@, "/"@),
        ("capsule-protocol"@, "?1"@),
        ("user-agent"@, ""@),
    ]
}

/// The headers of the request that opens the tunnel.
pub fn connect_ip_headers() -> (list: Vec<(&'static str, &'static str)>)
    ensures
        list@.len() == connect_headers().len(),
        forall|i: int|
            0 <= i < list@.len() ==> (#[trigger] list@[i]).0@ == connect_headers()[i].0
                && list@[i].1@ == connect_headers()[i].1,
{
    vec![
        (":method", "CONNECT"),
        (":protocol", "cf-connect-ip"),
        (":scheme", "https"),
        (":authority", "cloudflareaccess.com"),
        (":path", "/"),
        ("capsule-protocol", "?1"),
        ("user-agent", ""),
    ]
}

/// `String::from_utf8` gives the text that the bytes encode, and fails exactly on bytes
/// that are not valid UTF-8.
#[verifier::external_body]
pub(crate) fn utf8_string(bytes: Vec<u8>) -> (res: Option<String>)
    ensures
        match res {
            Some(text) => valid_utf8(bytes@) && text@ == decode_utf8(bytes@),
            None => !valid_utf8(bytes@),
        },
{
    String::from_utf8(bytes).ok()
}

/// The name of the header that holds a response's status, as bytes.
pub open spec fn status_name() -> Seq<u8> {
    seq![58u8, 115, 116, 97, 116, 117, 115]
}

/// The status among the headers from `from` on: the value of the first `:status` header,
/// or "unknown" where there is none or its value is not text.
pub open spec fn status_text(headers: Seq<(Vec<u8>, Vec<u8>)>, from: int) -> Seq<char>
    decreases headers.len() - from,
{
    if from >= headers.len() {
        "unknown"@
    } else if headers[from].0@ == status_name() {
        if valid_utf8(headers[from].1@) {
            decode_utf8(headers[from].1@)
        } else {
            "unknown"@
        }
    } else {
        status_text(headers, from + 1)
    }
}

/// Bytes read as the text `200` if and only if they are the digits `2`, `0` and `0`.
pub proof fn success_in_bytes(bytes: Seq<u8>)
    ensures
        (valid_utf8(bytes) && decode_utf8(bytes) == "200"@) <==> bytes == seq![50u8, 48, 48],
{
    reveal_strlit("200");
    let digits = seq![50u8, 48, 48];
    assert("200"@ =~= seq!['2', '0', '0']);
    assert(encode_utf8("200"@) =~= digits) by {
        assert((50u32 & 0x7f) as u8 == 50u8) by (bit_vector);
        assert((48u32 & 0x7f) as u8 == 48u8) by (bit_vector);
        reveal_with_fuel(encode_utf8, 4);
        assert("200"@.drop_first() =~= seq!['0', '0']);
        assert("200"@.drop_first().drop_first() =~= seq!['0']);
        assert("200"@.drop_first().drop_first().drop_first() =~= Seq::<char>::empty());
    }
    encode_utf8_valid_utf8("200"@);
    encode_utf8_decode_utf8("200"@);
    if valid_utf8(bytes) {
        decode_utf8_encode_utf8(bytes);
    }
}

/// The status of a response is that of its first `:status` header.
proof fn status_of_first(headers: Seq<(Vec<u8>, Vec<u8>)>, from: int, at: int)
    requires
        0 <= from <= at <= headers.len(),
        forall|k: int|
            from <= k < at ==> (#[trigger] headers[k]).0@ != seq![58u8, 115, 116, 97, 116, 117, 115],
        at < headers.len() ==> headers[at].0@ == seq![58u8, 115, 116, 97, 116, 117, 115],
    ensures
        status_text(headers, from) == if at < headers.len() && valid_utf8(headers[at].1@) {
            decode_utf8(headers[at].1@)
        } else {
            "unknown"@
        },
    decreases at - from,
{
    if from < at {
        status_of_first(headers, from + 1, at);
    }
}

/// Where the first `:status` header stands, at `from` or behind it.
spec fn first_status(headers: Seq<(Vec<u8>, Vec<u8>)>, from: int) -> int
    decreases headers.len() - from,
{
    if 0 <= from < headers.len() && headers[from].0@ != status_name() {
        first_status(headers, from + 1)
    } else {
        from
    }
}

proof fn first_status_is_first(headers: Seq<(Vec<u8>, Vec<u8>)>, from: int)
    requires
        0 <= from <= headers.len(),
    ensures
        from <= first_status(headers, from) <= headers.len(),
        forall|k: int|
            from <= k < first_status(headers, from) ==> (#[trigger] headers[k]).0@ != status_name(),
        first_status(headers, from) < headers.len() ==> headers[first_status(headers, from)].0@
            == status_name(),
    decreases headers.len() - from,
{
    if from < headers.len() && headers[from].0@ != status_name() {
        first_status_is_first(headers, from + 1);
    }
}

/// The server opens the tunnel by the status 200 and by no other: headers on the stream of the
/// request establish the tunnel if and only if their first `:status` header holds the three bytes
/// `200`. With any other status, and with none, the opening fails with the status as its reason.
/// `at` is where the first `:status` header stands; their number, if there is none.
pub proof fn only_status_200_opens(
    progress: ConnectProgress,
    stream_id: u64,
    headers: Vec<(Vec<u8>, Vec<u8>)>,
    at: int,
)
    requires
        0 <= at <= headers@.len(),
        forall|k: int|
            0 <= k < at ==> (#[trigger] headers@[k]).0@ != seq![
                58u8,
                115,
                116,
                97,
                116,
                117,
                115,
            ],
        at < headers@.len() ==> headers@[at].0@ == seq![58u8, 115, 116, 97, 116, 117, 115],
    ensures
        progress.connect_stream_id == Some(stream_id) ==> match progress.after(
            ConnectEvent::Headers { stream_id, headers },
        ) {
            Ok((next, step)) => {
                &&& at < headers@.len() && headers@[at].1@ == seq![50u8, 48, 48]
                &&& next.connect_established && next.connect_recv
                &&& next.connect_stream_id == progress.connect_stream_id
                &&& next.flow == progress.flow
                &&& step == ConnectStep::KeepControl
            },
            Err(fault) => {
                &&& at == headers@.len() || headers@[at].1@ != seq![50u8, 48, 48]
                &&& fault == ConnectFault::Refused(
                    if at < headers@.len() && valid_utf8(headers@[at].1@) {
                        "status: "@ + decode_utf8(headers@[at].1@)
                    } else {
                        "status: unknown"@
                    },
                )
            },
        },
        progress.connect_stream_id != Some(stream_id) ==> progress.after(
            ConnectEvent::Headers { stream_id, headers },
        ) == Ok::<(ConnectProgress, ConnectStep), ConnectFault>((progress, ConnectStep::Ignore)),
{
    status_of_first(headers@, 0, at);
    if at < headers@.len() {
        success_in_bytes(headers@[at].1@);
    }
    reveal_strlit("200");
    reveal_strlit("unknown");
    reveal_strlit("status: ");
    reveal_strlit("status: unknown");
    assert("status: unknown"@ =~= "status: "@ + "unknown"@);
}

/// Nothing but the headers of its response establishes the tunnel, nothing but the tunnel's own
/// request gives it a stream, and the first flow of datagrams stays. Of the other events, failures
/// of the connection end the opening and the rest change nothing.
pub proof fn what_moves_the_opening(progress: ConnectProgress, event: ConnectEvent)
    ensures
        match progress.after(event) {
            Ok((next, step)) => {
                &&& next.connect_established != progress.connect_established ==> event is Headers
                &&& next.connect_recv != progress.connect_recv ==> event is Headers
                &&& next.connect_stream_id == match event {
                    ConnectEvent::RequestOpened { stream_id, request_id } => if request_id == 1 {
                        Some(stream_id)
                    } else {
                        progress.connect_stream_id
                    },
                    _ => progress.connect_stream_id,
                }
                &&& next.flow == match event {
                    ConnectEvent::NewFlow { flow_id } => if progress.flow is Some {
                        progress.flow
                    } else {
                        Some(flow_id)
                    },
                    _ => progress.flow,
                }
                &&& step == ConnectStep::KeepFlow <==> progress.flow is None && event is NewFlow
                &&& !(event is ConnectionFailed || event is ConnectionShutdown
                    || event is RequestRefused || event is Closed || event is TimedOut)
            },
            Err(fault) => match event {
                ConnectEvent::Headers { .. } => fault is Refused,
                ConnectEvent::ConnectionFailed(why) => fault == ConnectFault::Connection(
                    "H3 error: "@ + why@,
                ),
                ConnectEvent::ConnectionShutdown(why) => fault == ConnectFault::Connection(
                    "H3 shutdown: "@ + why@,
                ),
                ConnectEvent::RequestRefused => fault == ConnectFault::Connection(
                    "CONNECT-IP request channel closed"@,
                ),
                ConnectEvent::Closed => fault == ConnectFault::Connection(
                    "tokio-quiche event channel closed"@,
                ),
                ConnectEvent::TimedOut => fault is Timeout,
                _ => false,
            },
        },
{
}

fn response_status(headers: &Vec<(Vec<u8>, Vec<u8>)>) -> (status: String)
    ensures
        status@ == status_text(headers@, 0),
{
    let name: Vec<u8> = vec![58, 115, 116, 97, 116, 117, 115];
    assert(name@ =~= status_name());
    let mut i: usize = 0;
    while i < headers.len()
        invariant
            i <= headers@.len(),
            name@ == status_name(),
            status_text(headers@, 0) == status_text(headers@, i as int),
        decreases headers@.len() - i,
    {
        if same_bytes(&headers[i].0, &name) {
            let value: Vec<u8> = headers[i].1.clone();
            assert(value@ =~= headers@[i as int].1@);
            return match utf8_string(value) {
                Some(text) => text,
                None => String::from_str("unknown"),
            };
        }
        i += 1;
    }
    String::from_str("unknown")
}

/// What happens while the tunnel is being opened.
#[derive(Debug)]
pub enum ConnectEvent {
    /// A request was put on a stream.
    RequestOpened { stream_id: u64, request_id: u64 },
    /// A flow of datagrams was opened.
    NewFlow { flow_id: u64 },
    /// The headers of a response came in.
    Headers { stream_id: u64, headers: Vec<(Vec<u8>, Vec<u8>)> },
    /// HTTP/3 failed; how it describes this.
    ConnectionFailed(String),
    /// HTTP/3 was shut down; how it describes this.
    ConnectionShutdown(String),
    /// The request could not be handed over.
    RequestRefused,
    /// There will be no more events.
    Closed,
    /// No event came in time.
    TimedOut,
    /// Any other event.
    Other,
}

/// What the program keeps of an event.
#[derive(Debug, Clone, Copy, PartialEq, Eq, Structural)]
pub enum ConnectStep {
    /// Nothing.
    Ignore,
    /// The two ends of the flow of datagrams.
    KeepFlow,
    /// The body of the response: the control stream.
    KeepControl,
}

/// How far the opening of the tunnel has come.
#[derive(Debug, Clone, Copy, PartialEq, Eq, Structural)]
pub struct ConnectProgress {
    pub connect_stream_id: Option<u64>,
    pub connect_recv: bool,
    pub connect_established: bool,
    pub flow: Option<u64>,
}

/// Why the opening of the tunnel fails, as values.
pub enum ConnectFault {
    Connection(Seq<char>),
    Refused(Seq<char>),
    Timeout,
}

/// Whether `e` is this fault.
pub open spec fn tells(e: MasqueError, fault: ConnectFault) -> bool {
    match fault {
        ConnectFault::Connection(text) => e matches MasqueError::ConnectionError(told) && told@
            == text,
        ConnectFault::Refused(text) => e matches MasqueError::ConnectIpFailed(told) && told@
            == text,
        ConnectFault::Timeout => e is Timeout,
    }
}

impl ConnectProgress {
    /// The tunnel is open: the request was accepted, and both the control stream and a flow
    /// of datagrams are there.
    pub open spec fn complete(&self) -> bool {
        self.connect_established && self.flow is Some && self.connect_recv
    }

    /// A response is heeded only on the stream of the request.
    pub open spec fn wf(&self) -> bool {
        &&& self.connect_recv ==> self.connect_stream_id is Some
        &&& self.connect_established ==> self.connect_recv
    }

    /// The progress after an event, with what the program keeps of it, or the fault that ends
    /// the opening.
    pub open spec fn after(self, event: ConnectEvent) -> Result<
        (ConnectProgress, ConnectStep),
        ConnectFault,
    > {
        match event {
            ConnectEvent::RequestOpened { stream_id, request_id } => if request_id == 1 {
                Ok(
                    (
                        ConnectProgress { connect_stream_id: Some(stream_id), ..self },
                        ConnectStep::Ignore,
                    ),
                )
            } else {
                Ok((self, ConnectStep::Ignore))
            },
            ConnectEvent::NewFlow { flow_id } => if self.flow is None {
                Ok((ConnectProgress { flow: Some(flow_id), ..self }, ConnectStep::KeepFlow))
            } else {
                Ok((self, ConnectStep::Ignore))
            },
            ConnectEvent::Headers { stream_id, headers } => if self.connect_stream_id != Some(
                stream_id,
            ) {
                Ok((self, ConnectStep::Ignore))
            } else if status_text(headers@, 0) == "200"@ {
                Ok(
                    (
                        ConnectProgress { connect_recv: true, connect_established: true, ..self },
                        ConnectStep::KeepControl,
                    ),
                )
            } else {
                Err(ConnectFault::Refused("status: "@ + status_text(headers@, 0)))
            },
            ConnectEvent::ConnectionFailed(text) => Err(
                ConnectFault::Connection("H3 error: "@ + text@),
            ),
            ConnectEvent::ConnectionShutdown(text) => Err(
                ConnectFault::Connection("H3 shutdown: "@ + text@),
            ),
            ConnectEvent::RequestRefused => Err(
                ConnectFault::Connection("CONNECT-IP request channel closed"@),
            ),
            ConnectEvent::Closed => Err(
                ConnectFault::Connection("tokio-quiche event channel closed"@),
            ),
            ConnectEvent::TimedOut => Err(ConnectFault::Timeout),
            ConnectEvent::Other => Ok((self, ConnectStep::Ignore)),
        }
    }

    /// Nothing has happened yet.
    pub fn new() -> (progress: ConnectProgress)
        ensures
            progress.wf(),
            progress == (ConnectProgress {
                connect_stream_id: None,
                connect_recv: false,
                connect_established: false,
                flow: None,
            }),
    {
        ConnectProgress {
            connect_stream_id: None,
            connect_recv: false,
            connect_established: false,
            flow: None,
        }
    }

    /// Whether the tunnel is open.
    pub fn is_complete(&self) -> (res: bool)
        ensures
            res == self.complete(),
    {
        self.connect_established && self.flow.is_some() && self.connect_recv
    }

    /// Takes note of an event.
    pub fn on_event(&mut self, event: ConnectEvent) -> (res: Result<ConnectStep, MasqueError>)
        requires
            old(self).wf(),
        ensures
            final(self).wf(),
            match old(self).after(event) {
                Ok((next, step)) => res == Ok::<ConnectStep, MasqueError>(step) && *final(self)
                    == next,
                Err(fault) => res matches Err(e) && tells(e, fault) && *final(self) == *old(self),
            },
            event matches ConnectEvent::Headers { stream_id, headers } ==> (
            old(self).connect_stream_id == Some(stream_id) ==> (res is Ok <==> exists|at: int|
                0 <= at < headers@.len() && (#[trigger] headers@[at]).0@ == seq![
                    58u8,
                    115,
                    116,
                    97,
                    116,
                    117,
                    115,
                ] && headers@[at].1@ == seq![50u8, 48, 48] && forall|k: int|
                    0 <= k < at ==> (#[trigger] headers@[k]).0@ != seq![
                        58u8,
                        115,
                        116,
                        97,
                        116,
                        117,
                        115,
                    ])),
    {
        proof {
            if event is Headers {
                let headers = event->headers;
                let at = first_status(headers@, 0);
                first_status_is_first(headers@, 0);
                only_status_200_opens(*self, event->Headers_stream_id, headers, at);
            }
        }
        match event {
            ConnectEvent::RequestOpened { stream_id, request_id } => {
                if request_id == CONNECT_REQUEST_ID {
                    self.connect_stream_id = Some(stream_id);
                }
                Ok(ConnectStep::Ignore)
            },
            ConnectEvent::NewFlow { flow_id } => {
                if self.flow.is_none() {
                    self.flow = Some(flow_id);
                    Ok(ConnectStep::KeepFlow)
                } else {
                    Ok(ConnectStep::Ignore)
                }
            },
            ConnectEvent::Headers { stream_id, headers } => {
                let ours: bool = match self.connect_stream_id {
                    Some(id) => id == stream_id,
                    None => false,
                };
                if !ours {
                    return Ok(ConnectStep::Ignore);
                }
                let status: String = response_status(&headers);
                if crate::text::same_text(status.as_str(), "200") {
                    self.connect_recv = true;
                    self.connect_established = true;
                    Ok(ConnectStep::KeepControl)
                } else {
                    Err(
                        MasqueError::ConnectIpFailed(
                            String::from_str("status: ").concat(status.as_str()),
                        ),
                    )
                }
            },
            ConnectEvent::ConnectionFailed(text) => Err(
                MasqueError::ConnectionError(String::from_str("H3 error: ").concat(text.as_str())),
            ),
            ConnectEvent::ConnectionShutdown(text) => Err(
                MasqueError::ConnectionError(
                    String::from_str("H3 shutdown: ").concat(text.as_str()),
                ),
            ),
            ConnectEvent::RequestRefused => Err(
                MasqueError::ConnectionError(
                    String::from_str("CONNECT-IP request channel closed"),
                ),
            ),
            ConnectEvent::Closed => Err(
                MasqueError::ConnectionError(
                    String::from_str("tokio-quiche event channel closed"),
                ),
            ),
            ConnectEvent::TimedOut => Err(MasqueError::Timeout),
            ConnectEvent::Other => Ok(ConnectStep::Ignore),
        }
    }

    /// How much longer the program may wait for the next event.
    pub fn remaining(timeout_ns: u128, elapsed_ns: u128) -> (res: Result<u128, MasqueError>)
        ensures
            match res {
                Ok(left) => left == timeout_ns - elapsed_ns,
                Err(e) => e is Timeout && elapsed_ns > timeout_ns,
            },
    {
        if elapsed_ns > timeout_ns {
            Err(MasqueError::Timeout)
        } else {
            Ok(timeout_ns - elapsed_ns)
        }
    }

    /// The open tunnel. `max_writable` is the length of the longest QUIC datagram, of which
    /// the number of the flow takes its share.
    pub fn finish(&self, max_writable: Option<usize>) -> (tunnel: MasqueTunnel)
        requires
            self.wf(),
            self.complete(),
        ensures
            self.connect_stream_id == Some(tunnel.connect_stream_id),
            self.flow == Some(tunnel.flow_id),
            tunnel.max_h3_dgram_len == match max_writable {
                Some(max) => Some(
                    (if max >= shortest_len(tunnel.flow_id as nat) {
                        max - shortest_len(tunnel.flow_id as nat)
                    } else {
                        0
                    }) as usize,
                ),
                None => None,
            },
            tunnel.control_state@.pending.len() == 0,
            tunnel.control_state@.assigned.len() == 0,
            tunnel.control_state@.routes.len() == 0,
    {
        let connect_stream_id: u64 = self.connect_stream_id.unwrap();
        let flow_id: u64 = self.flow.unwrap();
        let max_h3_dgram_len: Option<usize> = match max_writable {
            Some(max) => Some(max.saturating_sub(varint_len(flow_id))),
            None => None,
        };
        MasqueTunnel {
            connect_stream_id,
            flow_id,
            max_h3_dgram_len,
            control_state: MasqueControlState::new(),
        }
    }
}

/// Checks the certificate that the server showed against the public key that is expected of
/// it. Without an expected key, or without a certificate, there is nothing to check.
pub fn check_peer_key(expected: Option<&Vec<u8>>, peer_cert: Option<&Vec<u8>>) -> (res: Result<
    (),
    MasqueError,
>)
    ensures
        match (expected, peer_cert) {
            (Some(key), Some(cert)) => if public_key_accepted(cert@, key@) {
                res is Ok
            } else {
                res matches Err(MasqueError::QuicError(QuicError::PublicKeyMismatch))
            },
            _ => res is Ok,
        },
{
    match (expected, peer_cert) {
        (Some(key), Some(cert)) => {
            if verify_peer_public_key(cert, key) {
                Ok(())
            } else {
                Err(MasqueError::QuicError(QuicError::PublicKeyMismatch))
            }
        },
        _ => Ok(()),
    }
}

/// The sizes of the buffers of the tunnel's UDP socket, and whether it may use all that the
/// system offers.
#[derive(Debug, Clone, Copy, PartialEq, Eq, Structural)]
pub struct SocketTuning {
    pub recv_buffer: usize,
    pub send_buffer: usize,
    pub apply_max_capabilities: bool,
}

impl SocketTuning {
    /// Reads the settings from the environment.
    pub fn from_env(vars: &Vars) -> (tuning: SocketTuning)
        ensures
            tuning.recv_buffer == vars.number_or(
                "USQUE_QUIC_UDP_RECVBUF"@,
                usize::MAX as nat,
                4194304,
            ),
            tuning.send_buffer == vars.number_or(
                "USQUE_QUIC_UDP_SNDBUF"@,
                usize::MAX as nat,
                2097152,
            ),
            tuning.apply_max_capabilities == (vars.flag("USQUE_QUIC_APPLY_MAX_CAPABILITIES"@)
                != Some(false)),
    {
        SocketTuning {
            recv_buffer: vars.env_usize("USQUE_QUIC_UDP_RECVBUF", 4194304),
            send_buffer: vars.env_usize("USQUE_QUIC_UDP_SNDBUF", 2097152),
            apply_max_capabilities: match vars.env_flag("USQUE_QUIC_APPLY_MAX_CAPABILITIES") {
                Some(apply) => apply,
                None => true,
            },
        }
    }
}

/// Where the tunnel's UDP socket is bound: any address of the endpoint's family, any port.
pub fn bind_address(endpoint_is_ipv4: bool) -> (text: &'static str)
    ensures
        text@ == if endpoint_is_ipv4 {
            "0.0.0.0:0"@
        } else {
            "[::]:0"@
        },
{
    if endpoint_is_ipv4 {
        "0.0.0.0:0"
    } else {
        "[::]:0"
    }
}

/// How a MASQUE error reads.
pub open spec fn masque_error_text(e: MasqueError) -> Seq<char> {
    match e {
        MasqueError::QuicError(e) => "QUIC error: "@ + quic_error_text(e),
        MasqueError::ConnectionError(why) => "connection error: "@ + why@,
        MasqueError::IoError(why) => "IO error: "@ + why@,
        MasqueError::TokioQuiche(why) => "tokio-quiche error: "@ + why@,
        MasqueError::ConnectIpFailed(why) => "connect-ip failed: "@ + why@,
        MasqueError::Timeout => "timeout"@,
    }
}

impl MasqueError {
    /// How the error reads.
    pub fn text(&self) -> (text: String)
        ensures
            text@ == masque_error_text(*self),
    {
        match self {
            MasqueError::QuicError(e) => String::from_str("QUIC error: ").concat(e.text().as_str()),
            MasqueError::ConnectionError(why) => String::from_str("connection error: ").concat(
                why.as_str(),
            ),
            MasqueError::IoError(why) => String::from_str("IO error: ").concat(why.as_str()),
            MasqueError::TokioQuiche(why) => String::from_str("tokio-quiche error: ").concat(
                why.as_str(),
            ),
            MasqueError::ConnectIpFailed(why) => String::from_str("connect-ip failed: ").concat(
                why.as_str(),
            ),
            MasqueError::Timeout => String::from_str("timeout"),
        }
    }
}

/// A datagram that is ready is the packet that is sent on behind one zero byte, and fits. A packet
/// is only answered as too big if it does not fit, and only dropped if it may not be sent on, or
/// does not fit and has no answer.
pub proof fn datagrams_fit(packet: Seq<u8>, max_len: Option<usize>)
    ensures
        match datagram_plan(packet, max_len) {
            DatagramPlan::Ready(bytes) => {
                &&& forwarded(packet) is Some
                &&& bytes.len() == forwarded(packet)->0.len() + 1
                &&& bytes[0] == 0
                &&& bytes.skip(1) == forwarded(packet)->0
                &&& max_len is Some ==> bytes.len() <= max_len->0
            },
            DatagramPlan::PacketTooBig(answer) => {
                &&& forwarded(packet) is Some
                &&& max_len is Some && forwarded(packet)->0.len() >= max_len->0
                &&& too_big_answer(packet, 1280) == Some(answer)
            },
            DatagramPlan::Dropped => {
                ||| forwarded(packet) is None
                ||| max_len is Some && forwarded(packet)->0.len() >= max_len->0 && too_big_answer(
                    packet,
                    1280,
                ) is None
            },
        },
{
    if datagram_plan(packet, max_len) is Ready {
        assert((seq![0u8] + forwarded(packet)->0).skip(1) =~= forwarded(packet)->0);
    }
}

/// A datagram of context zero carries what stands behind the context; one of another context is
/// passed over.
pub proof fn a_context_decides(context: u64, payload: Seq<u8>)
    requires
        context < 4611686018427387904,
    ensures
        datagram_payload(varint_bytes(context) + payload) == Ok::<Option<Seq<u8>>, Seq<char>>(
            if context == 0 {
                Some(payload)
            } else {
                None
            },
        ),
        datagram_payload(seq![0u8] + payload) == Ok::<Option<Seq<u8>>, Seq<char>>(Some(payload)),
        datagram_payload(Seq::empty()) is Err,
{
    encoding_reads_back(context, payload);
    encoding_reads_back(0, payload);
    assert((varint_bytes(context) + payload).skip(varint_bytes(context).len() as int) =~= payload);
    assert(varint_bytes(0) =~= seq![0u8]);
    assert((seq![0u8] + payload).skip(1) =~= payload);
}

/// A capsule is read whatever its type and its payload, and whatever follows it.
pub proof fn a_capsule_is_read(capsule_type: u64, payload: Seq<u8>, rest: Seq<u8>)
    requires
        capsule_type < 4611686018427387904,
        payload.len() < 4611686018427387904,
    ensures
        ({
            let head = varint_bytes(capsule_type) + varint_bytes(payload.len() as u64);
            let frame = leading_capsule(head + payload + rest);
            &&& frame is Some
            &&& frame->0.capsule_type == capsule_type
            &&& frame->0.payload == payload
            &&& frame->0.len == head.len() + payload.len()
            &&& payload.len() > 0 ==> leading_capsule(head) is None
            &&& payload.len() > 0 ==> leading_capsule(head + payload.drop_last()) is None
        }),
{
    let first = varint_bytes(capsule_type);
    let second = varint_bytes(payload.len() as u64);
    let head = first + second;
    let buf = head + payload + rest;
    assert(buf =~= first + (second + (payload + rest)));
    encoding_reads_back(capsule_type, second + (payload + rest));
    assert(buf.skip(first.len() as int) =~= second + (payload + rest));
    encoding_reads_back(payload.len() as u64, payload + rest);
    assert(buf.subrange(head.len() as int, (head.len() + payload.len()) as int) =~= payload);
    encoding_reads_back(capsule_type, second);
    assert(head.skip(first.len() as int) =~= second + Seq::<u8>::empty());
    encoding_reads_back(payload.len() as u64, Seq::empty());
    if payload.len() > 0 {
        let short = payload.drop_last();
        assert(head + short =~= first + (second + short));
        encoding_reads_back(capsule_type, second + short);
        assert((head + short).skip(first.len() as int) =~= second + short);
        encoding_reads_back(payload.len() as u64, short);
    }
}

/// Capsules of type 1 add to the assigned addresses and those of type 3 to the routes, behind what
/// is there. No capsule changes anything else, and one of another type nothing at all.
pub proof fn capsules_only_add(state: ControlView, capsule_type: u64, payload: Seq<u8>)
    ensures
        match capsule_effect(state, capsule_type, payload) {
            Ok(next) => {
                &&& next.pending == state.pending
                &&& next.assigned == state.assigned + (if capsule_type == 1 {
                    assigned_list(payload)->Ok_0
                } else {
                    Seq::empty()
                })
                &&& next.routes == state.routes + (if capsule_type == 3 {
                    route_list(payload)->Ok_0
                } else {
                    Seq::empty()
                })
            },
            Err(fault) => {
                ||| capsule_type == 1 && assigned_list(payload) == Err::<Seq<Seq<char>>, Seq<char>>(
                    fault,
                )
                ||| capsule_type == 3 && route_list(payload) == Err::<Seq<Seq<char>>, Seq<char>>(
                    fault,
                )
            },
        },
{
    assert(state.assigned + Seq::empty() =~= state.assigned);
    assert(state.routes + Seq::empty() =~= state.routes);
}

proof fn all_capsules_are_taken(state: ControlView)
    ensures
        ({
            let (after, fault) = drained(state);
            &&& fault is None ==> leading_capsule(after.pending) is None
            &&& after.pending.len() <= state.pending.len()
            &&& after.pending == state.pending.skip(
                state.pending.len() - after.pending.len() as int,
            )
            &&& state.assigned.is_prefix_of(after.assigned)
            &&& state.routes.is_prefix_of(after.routes)
        }),
    decreases state.pending.len(),
{
    capsule_len_positive(state.pending);
    let after = drained(state).0;
    match leading_capsule(state.pending) {
        None => {
            assert(state.pending.skip(0) =~= state.pending);
        },
        Some(frame) => {
            let rest = ControlView { pending: state.pending.skip(frame.len), ..state };
            match capsule_effect(rest, frame.capsule_type, frame.payload) {
                Err(_) => {},
                Ok(next) => {
                    capsules_only_add(rest, frame.capsule_type, frame.payload);
                    all_capsules_are_taken(next);
                    assert(after.pending =~= state.pending.skip(
                        state.pending.len() - after.pending.len() as int,
                    ));
                },
            }
        },
    }
}

/// After a chunk without a fault no whole capsule waits; what waits is the end of what has come in;
/// and addresses and routes are only ever added. At the end of the stream nothing may wait.
pub proof fn a_chunk_is_used_up(state: ControlView, chunk: Seq<u8>, fin: bool)
    ensures
        ({
            let (after, fault) = after_chunk(state, chunk, fin);
            let all = state.pending + chunk;
            &&& fault is None ==> leading_capsule(after.pending) is None
            &&& fault is None && fin ==> after.pending.len() == 0
            &&& after.pending.len() <= all.len()
            &&& after.pending == all.skip(all.len() - after.pending.len() as int)
            &&& state.assigned.is_prefix_of(after.assigned)
            &&& state.routes.is_prefix_of(after.routes)
        }),
{
    all_capsules_are_taken(ControlView { pending: state.pending + chunk, ..state });
}

/// A capsule that comes in with nothing before it takes effect.
pub proof fn a_capsule_takes_effect(
    state: ControlView,
    capsule_type: u64,
    payload: Seq<u8>,
    fin: bool,
)
    requires
        state.pending.len() == 0,
        capsule_type < 4611686018427387904,
        payload.len() < 4611686018427387904,
    ensures
        ({
            let bytes = varint_bytes(capsule_type) + varint_bytes(payload.len() as u64) + payload;
            let (after, fault) = after_chunk(state, bytes, fin);
            match capsule_effect(state, capsule_type, payload) {
                Ok(next) => fault is None && after == next,
                Err(why) => fault == Some(why) && after == state,
            }
        }),
{
    let head = varint_bytes(capsule_type) + varint_bytes(payload.len() as u64);
    let bytes = head + payload;
    a_capsule_is_read(capsule_type, payload, Seq::empty());
    assert(head + payload + Seq::<u8>::empty() =~= bytes);
    assert(state.pending + bytes =~= bytes);
    assert(bytes.skip(bytes.len() as int) =~= state.pending);
    let start = ControlView { pending: bytes, ..state };
    reveal_with_fuel(drained, 2);
    assert(leading_capsule(state.pending) is None);
    assert(ControlView { pending: bytes.skip(bytes.len() as int), ..start } == state);
}

/// The request opens a tunnel for IP packets with capsules, at the one place where there is one.
pub proof fn what_the_request_asks_for()
    ensures
        connect_headers().len() == 7,
        connect_headers()[0] == (":method"@, "CONNECT"@),
        connect_headers()[1] == (":protocol"@, "cf-connect-ip"@),
        connect_headers()[2] == (":scheme"@, "https"@),
        connect_headers()[3] == (":authority"@, "cloudflareaccess.com"@),
        connect_headers()[4] == (":path"@, "/"@),
        connect_headers()[5] == ("capsule-protocol"@, "?1"@),
        connect_headers()[6].0 == "user-agent"@ && connect_headers()[6].1.len() == 0,
{
    reveal_strlit("");
}

/// The tunnel is open when the server has accepted it, its flow of datagrams is there, and so is its
/// control stream; none of these is enough by itself.
pub proof fn when_the_tunnel_is_open(progress: ConnectProgress)
    ensures
        progress.complete() <==> progress.connect_established && progress.flow is Some
            && progress.connect_recv,
{
}

/// How a failure to open the tunnel is told: a refusal as that of the request, a lost connection as
/// such, each with its own text, and a time that ran out as that.
pub proof fn how_a_failed_opening_is_told(e: MasqueError, text: Seq<char>)
    ensures
        tells(e, ConnectFault::Refused(text)) <==> e is ConnectIpFailed && e->ConnectIpFailed_0@
            == text,
        tells(e, ConnectFault::Connection(text)) <==> e is ConnectionError && e->ConnectionError_0@
            == text,
        tells(e, ConnectFault::Timeout) <==> e is Timeout,
{
}

/// A fault on the control stream is told with its text, and success only where there is none.
pub proof fn how_a_control_fault_is_told(res: Result<(), MasqueError>, fault: Option<Seq<char>>)
    ensures
        reports(res, fault) && fault is None ==> res is Ok,
        reports(res, fault) && fault is Some ==> res is Err && res->Err_0 is ConnectionError
            && res->Err_0->ConnectionError_0@ == fault->0,
        fault is Some ==> (reports_fault(res, fault->0) <==> reports(res, fault)),
{
}

/// Each kind of error reads with its own words before its reason.
pub proof fn how_masque_errors_read(e: MasqueError)
    ensures
        e matches MasqueError::ConnectIpFailed(why) ==> masque_error_text(e) == "connect-ip failed: "@
            + why@,
        e matches MasqueError::ConnectionError(why) ==> masque_error_text(e) == "connection error: "@
            + why@,
        e matches MasqueError::IoError(why) ==> masque_error_text(e) == "IO error: "@ + why@,
        e matches MasqueError::TokioQuiche(why) ==> masque_error_text(e) == "tokio-quiche error: "@
            + why@,
        e matches MasqueError::QuicError(why) ==> masque_error_text(e) == "QUIC error: "@
            + quic_error_text(why),
        e is Timeout ==> masque_error_text(e) == "timeout"@,
{
}

} // verus!
