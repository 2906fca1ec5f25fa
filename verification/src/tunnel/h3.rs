//! The MASQUE tunnel over a bare QUIC connection: HTTP/3 is spoken step by step.

use crate::text::{same_bytes, same_text};
use crate::tunnel::capsule::{decode_varint, varint_fault};
use crate::tunnel::masque::{status_name, success_in_bytes, utf8_string, MasqueError};
use crate::tunnel::packet::{forwarded, process_outgoing_ip_packet};
use crate::tunnel::varint::{
    encode_varint, encoding_reads_back, leading_varint, shortest_len, varint_bytes, varint_len,
};
use vstd::prelude::*;
use vstd::slice::slice_subrange;
use vstd::utf8::{decode_utf8, valid_utf8};

verus! {

/// A datagram that carries a packet: a quarter of the number of the stream that opened the tunnel,
/// the context of IP packets, and the packet.
pub open spec fn framed(stream_id: u64, packet: Seq<u8>) -> Seq<u8> {
    varint_bytes(stream_id / 4) + seq![0u8] + packet
}

/// The packet in a datagram, if its context is that of IP packets.
pub open spec fn unframed(data: Seq<u8>) -> Option<Seq<u8>> {
    match leading_varint(data) {
        Some((_, len)) => match leading_varint(data.skip(len as int)) {
            Some((0, context_len)) => Some(data.skip(len + context_len)),
            _ => None,
        },
        None => None,
    }
}

/// The datagram that carries a packet.
pub fn frame_datagram(stream_id: u64, packet: &Vec<u8>) -> (dgram: Vec<u8>)
    ensures
        dgram@ == framed(stream_id, packet@),
{
    let quarter: u64 = stream_id / 4;
    let len: usize = varint_len(quarter);
    let mut dgram: Vec<u8> = Vec::new();
    while dgram.len() < len
        invariant
            dgram@.len() <= len,
        decreases len - dgram@.len(),
    {
        dgram.push(0);
    }
    let _ = encode_varint(quarter, &mut dgram);
    dgram.push(0);
    dgram.extend_from_slice(packet.as_slice());
    assert(dgram@ =~= framed(stream_id, packet@));
    dgram
}

/// What is said of a tunnel that was not opened.
pub open spec fn is_unopened(e: MasqueError) -> bool {
    e matches MasqueError::ConnectionError(text) && text@ == "No connect stream"@
}

/// The datagram for a packet that leaves, `None` where the packet is dropped.
pub fn send_datagram(connect_stream: Option<u64>, data: &Vec<u8>) -> (res: Result<
    Option<Vec<u8>>,
    MasqueError,
>)
    ensures
        match connect_stream {
            None => res matches Err(e) && is_unopened(e),
            Some(stream_id) => match forwarded(data@) {
                Some(packet) => res matches Ok(Some(dgram)) && dgram@ == framed(stream_id, packet),
                None => res matches Ok(None),
            },
        },
{
    let stream_id: u64 = match connect_stream {
        Some(stream_id) => stream_id,
        None => {
            return Err(MasqueError::ConnectionError(String::from_str("No connect stream")));
        },
    };
    let mut packet: Vec<u8> = data.clone();
    assert(packet@ =~= data@);
    match process_outgoing_ip_packet(&mut packet) {
        Ok(true) => Ok(Some(frame_datagram(stream_id, &packet))),
        Ok(false) => Ok(None),
        Err(e) => Err(e),
    }
}

/// What is wrong with the numbers at the front of a datagram.
pub open spec fn frame_fault(data: Seq<u8>) -> Option<Seq<char>> {
    match leading_varint(data) {
        Some((_, len)) => match leading_varint(data.skip(len as int)) {
            Some(_) => None,
            None => Some(varint_fault(data.skip(len as int))),
        },
        None => Some(varint_fault(data)),
    }
}

/// The packet in a datagram: nothing where its context is not that of IP packets, and an error
/// where the packet has more than `capacity` bytes.
pub fn recv_datagram(data: &[u8], capacity: usize) -> (res: Result<Vec<u8>, MasqueError>)
    ensures
        match frame_fault(data@) {
            Some(fault) => res matches Err(MasqueError::ConnectionError(text)) && text@ == fault,
            None => match unframed(data@) {
                Some(packet) => if packet.len() > capacity {
                    res matches Err(MasqueError::ConnectionError(text)) && text@
                        == "Buffer too small"@
                } else {
                    res matches Ok(found) && found@ == packet
                },
                None => res matches Ok(found) && found@.len() == 0,
            },
        },
{
    let (_, len): (u64, usize) = match decode_varint(data) {
        Ok(pair) => pair,
        Err(e) => {
            return Err(e);
        },
    };
    let rest: &[u8] = slice_subrange(data, len, data.len());
    assert(rest@ =~= data@.skip(len as int));
    let (context, context_len): (u64, usize) = match decode_varint(rest) {
        Ok(pair) => pair,
        Err(e) => {
            return Err(e);
        },
    };
    if context != 0 {
        return Ok(Vec::new());
    }
    if rest.len() - context_len > capacity {
        return Err(MasqueError::ConnectionError(String::from_str("Buffer too small")));
    }
    let mut packet: Vec<u8> = Vec::new();
    packet.extend_from_slice(slice_subrange(rest, context_len, rest.len()));
    assert(packet@ =~= data@.skip(len + context_len));
    Ok(packet)
}

/// A datagram that carries a packet gives that packet back.
pub proof fn framed_packet_reads_back(stream_id: u64, packet: Seq<u8>)
    ensures
        unframed(framed(stream_id, packet)) == Some(packet),
        frame_fault(framed(stream_id, packet)) is None,
{
    let head = varint_bytes(stream_id / 4);
    let rest = seq![0u8] + packet;
    let data = framed(stream_id, packet);
    assert(data =~= head + rest);
    encoding_reads_back(stream_id / 4, rest);
    let len = shortest_len((stream_id / 4) as nat);
    assert(head.len() == len);
    assert(data.skip(len as int) =~= rest);
    encoding_reads_back(0, packet);
    assert(varint_bytes(0) =~= seq![0u8]);
    assert(data.skip(len as int + 1) =~= packet);
}

/// What HTTP/3 reports of a stream.
#[derive(Debug)]
pub enum H3Event {
    Headers(Vec<(Vec<u8>, Vec<u8>)>),
    Data,
    Finished,
    Reset,
    PriorityUpdate,
    GoAway,
}

/// A status as text.
pub open spec fn shown_status(value: Seq<u8>) -> Seq<char> {
    if valid_utf8(value) {
        decode_utf8(value)
    } else {
        "unknown"@
    }
}

/// What the headers of a response from `from` on say: whether a status accepts the request before
/// one refuses it, and the status that refuses it.
pub open spec fn response_verdict(headers: Seq<(Vec<u8>, Vec<u8>)>, from: int) -> (
    bool,
    Option<Seq<char>>,
)
    decreases headers.len() - from,
{
    if !(0 <= from < headers.len()) {
        (false, None)
    } else if headers[from].0@ != status_name() {
        response_verdict(headers, from + 1)
    } else if shown_status(headers[from].1@) == "200"@ {
        (true, response_verdict(headers, from + 1).1)
    } else {
        (false, Some(shown_status(headers[from].1@)))
    }
}

fn status_of(value: &Vec<u8>) -> (status: String)
    ensures
        status@ == shown_status(value@),
{
    let copy: Vec<u8> = value.clone();
    assert(copy@ =~= value@);
    match utf8_string(copy) {
        Some(text) => text,
        None => String::from_str("unknown"),
    }
}

fn judge_response(headers: &Vec<(Vec<u8>, Vec<u8>)>) -> (res: (bool, Option<String>))
    ensures
        res.0 == response_verdict(headers@, 0).0,
        match res.1 {
            Some(status) => response_verdict(headers@, 0).1 == Some(status@),
            None => response_verdict(headers@, 0).1 is None,
        },
{
    let name: Vec<u8> = vec![58, 115, 116, 97, 116, 117, 115];
    assert(name@ =~= status_name());
    let mut accepted: bool = false;
    let mut at: usize = 0;
    while at < headers.len()
        invariant
            at <= headers@.len(),
            name@ == status_name(),
            response_verdict(headers@, 0).0 == (accepted || response_verdict(
                headers@,
                at as int,
            ).0),
            response_verdict(headers@, 0).1 == response_verdict(headers@, at as int).1,
        decreases headers@.len() - at,
    {
        if same_bytes(&headers[at].0, &name) {
            let status = status_of(&headers[at].1);
            if same_text(status.as_str(), "200") {
                accepted = true;
            } else {
                return (accepted, Some(status));
            }
        }
        at += 1;
    }
    (accepted, None)
}

/// The opening of a tunnel.
#[derive(Debug, Clone, Copy)]
pub struct H3Connect {
    /// When it was started, in nanoseconds.
    pub started: u64,
    /// Milliseconds that it may take.
    pub timeout: u64,
    /// The stream of the request.
    pub connect_stream: Option<u64>,
    /// Whether the request was accepted.
    pub established: bool,
}

impl H3Connect {
    /// An opening that starts now.
    pub fn new(now: u64, timeout: u64) -> (connect: H3Connect)
        ensures
            connect.started == now,
            connect.timeout == timeout,
            connect.connect_stream is None,
            !connect.established,
    {
        H3Connect { started: now, timeout, connect_stream: None, established: false }
    }

    /// Fails once the opening has taken too long.
    pub fn check_time(&self, now: u64) -> (res: Result<(), MasqueError>)
        ensures
            match res {
                Ok(_) => now - self.started <= self.timeout * 1_000_000,
                Err(e) => now - self.started > self.timeout * 1_000_000 && e is Timeout,
            },
    {
        if now as i128 - self.started as i128 > self.timeout as i128 * 1_000_000 {
            Err(MasqueError::Timeout)
        } else {
            Ok(())
        }
    }

    /// Fails if the server has closed the connection: with an error, whose number is a text here,
    /// or without one.
    pub fn check_open(peer_error: Option<(String, String)>, closed: bool) -> (res: Result<
        (),
        MasqueError,
    >)
        ensures
            match peer_error {
                Some((code, reason)) => res matches Err(MasqueError::ConnectionError(text))
                    && text@ == "peer closed: "@ + code@ + " - "@ + reason@,
                None => if closed {
                    res matches Err(MasqueError::ConnectionError(text)) && text@
                        == "connection closed"@
                } else {
                    res is Ok
                },
            },
    {
        match peer_error {
            Some((code, reason)) => Err(
                MasqueError::ConnectionError(
                    String::from_str("peer closed: ").concat(code.as_str()).concat(" - ").concat(
                        reason.as_str(),
                    ),
                ),
            ),
            None => if closed {
                Err(MasqueError::ConnectionError(String::from_str("connection closed")))
            } else {
                Ok(())
            },
        }
    }

    /// Notes the stream of the request.
    pub fn on_request_sent(&mut self, stream_id: u64)
        ensures
            *final(self) == (H3Connect { connect_stream: Some(stream_id), ..*old(self) }),
    {
        self.connect_stream = Some(stream_id);
    }

    /// What an event of HTTP/3 means for the opening.
    pub fn on_event(&mut self, stream_id: u64, event: H3Event) -> (res: Result<(), MasqueError>)
        ensures
            final(self).started == old(self).started,
            final(self).timeout == old(self).timeout,
            final(self).connect_stream == old(self).connect_stream,
            match event {
                H3Event::Headers(headers) => if old(self).connect_stream == Some(stream_id) {
                    let (accepted, fault) = response_verdict(headers@, 0);
                    &&& final(self).established == (old(self).established || accepted)
                    &&& match fault {
                        Some(status) => res matches Err(MasqueError::ConnectIpFailed(text))
                            && text@ == "status: "@ + status,
                        None => res is Ok,
                    }
                } else {
                    res is Ok && final(self).established == old(self).established
                },
                H3Event::GoAway => {
                    &&& final(self).established == old(self).established
                    &&& res matches Err(MasqueError::ConnectionError(text)) && text@
                        == "received GOAWAY"@
                },
                _ => res is Ok && final(self).established == old(self).established,
            },
    {
        match event {
            H3Event::Headers(headers) => {
                let ours: bool = match self.connect_stream {
                    Some(stream) => stream == stream_id,
                    None => false,
                };
                if !ours {
                    return Ok(());
                }
                let (accepted, fault): (bool, Option<String>) = judge_response(&headers);
                if accepted {
                    self.established = true;
                }
                match fault {
                    Some(status) => Err(
                        MasqueError::ConnectIpFailed(
                            String::from_str("status: ").concat(status.as_str()),
                        ),
                    ),
                    None => Ok(()),
                }
            },
            H3Event::GoAway => Err(
                MasqueError::ConnectionError(String::from_str("received GOAWAY")),
            ),
            _ => Ok(()),
        }
    }
}

proof fn verdict_from(headers: Seq<(Vec<u8>, Vec<u8>)>, from: int)
    requires
        0 <= from <= headers.len(),
    ensures
        response_verdict(headers, from).1 is Some <==> exists|i: int|
            from <= i < headers.len() && (#[trigger] headers[i]).0@ == seq![
                58u8,
                115,
                116,
                97,
                116,
                117,
                115,
            ] && headers[i].1@ != seq![50u8, 48, 48],
    decreases headers.len() - from,
{
    if from < headers.len() {
        verdict_from(headers, from + 1);
        success_in_bytes(headers[from].1@);
        reveal_strlit("200");
        reveal_strlit("unknown");
        assert("200"@.len() != "unknown"@.len());
        if response_verdict(headers, from + 1).1 is Some {
            let i = choose|i: int|
                from + 1 <= i < headers.len() && (#[trigger] headers[i]).0@ == seq![
                    58u8,
                    115,
                    116,
                    97,
                    116,
                    117,
                    115,
                ] && headers[i].1@ != seq![50u8, 48, 48];
            assert(headers[i].1@ != seq![50u8, 48, 48]);
        }
        if exists|i: int|
            from <= i < headers.len() && (#[trigger] headers[i]).0@ == seq![
                58u8,
                115,
                116,
                97,
                116,
                117,
                115,
            ] && headers[i].1@ != seq![50u8, 48, 48] {
            let i = choose|i: int|
                from <= i < headers.len() && (#[trigger] headers[i]).0@ == seq![
                    58u8,
                    115,
                    116,
                    97,
                    116,
                    117,
                    115,
                ] && headers[i].1@ != seq![50u8, 48, 48];
            assert(i == from || from + 1 <= i);
        }
    }
}

proof fn verdict_of_first(headers: Seq<(Vec<u8>, Vec<u8>)>, from: int, at: int)
    requires
        0 <= from <= at <= headers.len(),
        forall|k: int|
            from <= k < at ==> (#[trigger] headers[k]).0@ != seq![58u8, 115, 116, 97, 116, 117, 115],
        at < headers.len() ==> headers[at].0@ == seq![58u8, 115, 116, 97, 116, 117, 115],
    ensures
        response_verdict(headers, from).0 == (at < headers.len() && headers[at].1@ == seq![
            50u8,
            48,
            48,
        ]),
    decreases at - from,
{
    if from < at {
        verdict_of_first(headers, from + 1, at);
    } else if at < headers.len() {
        success_in_bytes(headers[at].1@);
        reveal_strlit("200");
        reveal_strlit("unknown");
        assert("200"@.len() != "unknown"@.len());
    }
}

/// A response opens the tunnel if and only if its first `:status` header holds the three bytes
/// `200`, and is a refusal if and only if any of its `:status` headers holds something else. `at` is
/// where the first one stands; the number of headers, if there is none.
pub proof fn only_status_200_is_accepted(headers: Seq<(Vec<u8>, Vec<u8>)>, at: int)
    requires
        0 <= at <= headers.len(),
        forall|k: int|
            0 <= k < at ==> (#[trigger] headers[k]).0@ != seq![58u8, 115, 116, 97, 116, 117, 115],
        at < headers.len() ==> headers[at].0@ == seq![58u8, 115, 116, 97, 116, 117, 115],
    ensures
        response_verdict(headers, 0).0 <==> at < headers.len() && headers[at].1@ == seq![
            50u8,
            48,
            48,
        ],
        response_verdict(headers, 0).1 is Some <==> exists|i: int|
            0 <= i < headers.len() && (#[trigger] headers[i]).0@ == seq![
                58u8,
                115,
                116,
                97,
                116,
                117,
                115,
            ] && headers[i].1@ != seq![50u8, 48, 48],
{
    verdict_of_first(headers, 0, at);
    verdict_from(headers, 0);
}

/// A datagram starts with a quarter of its stream's number and the context zero, and then holds the
/// packet.
pub proof fn what_a_datagram_starts_with(stream_id: u64, packet: Seq<u8>)
    ensures
        ({
            let dgram = framed(stream_id, packet);
            let n = varint_bytes(stream_id / 4).len() as int;
            &&& leading_varint(dgram) is Some
            &&& leading_varint(dgram) == Some((stream_id / 4, n as usize))
            &&& dgram[n] == 0
            &&& dgram.skip(n + 1) == packet
        }),
{
    let dgram = framed(stream_id, packet);
    let n = varint_bytes(stream_id / 4).len() as int;
    assert(dgram =~= varint_bytes(stream_id / 4) + (seq![0u8] + packet));
    encoding_reads_back(stream_id / 4, seq![0u8] + packet);
    assert(dgram.skip(n + 1) =~= packet);
}

} // verus!
