//! What a client sends and gets without a connection.

use crate::proxy::fragments::{
    assembled, has_expired, has_place, no_parts, with_part, FragBuffer, FragView,
};
use crate::addr::SocketAddress;
use crate::proxy::wire::{
    build_udp_response, read_udp_request, relayed, request_end, target_at, SocksTarget, TargetView, UdpRequest,
};
use crate::text::same_text;
use vstd::prelude::*;

verus! {

/// The fragments of a packet to one target.
#[derive(Debug)]
struct FragEntry {
    target: SocksTarget,
    buffer: FragBuffer,
}

/// The packets of one client that have come in part.
#[derive(Debug)]
pub struct UdpRelay {
    entries: Vec<FragEntry>,
    max_frag_count: usize,
    frag_timeout: u64,
}

/// A buffer that has not expired.
pub open spec fn unexpired(v: Option<FragView>, now: u64, timeout: u64) -> Option<FragView> {
    match v {
        Some(v) => if has_expired(v, now, timeout) {
            None
        } else {
            Some(v)
        },
        None => None,
    }
}

/// Whether two targets are the same.
pub fn same_target(a: &SocksTarget, b: &SocksTarget) -> (res: bool)
    ensures
        res == (a@ == b@),
{
    match (a, b) {
        (SocksTarget::Ip(x), SocksTarget::Ip(y)) => *x == *y,
        (SocksTarget::Domain(x, p), SocksTarget::Domain(y, q)) => *p == *q && same_text(
            x.as_str(),
            y.as_str(),
        ),
        _ => false,
    }
}

impl UdpRelay {
    spec fn is_at(&self, i: int, t: TargetView) -> bool {
        0 <= i < self.entries@.len() && self.entries@[i].target@ == t
    }

    /// The fragments of a packet to a target.
    pub closed spec fn at(&self, t: TargetView) -> Option<FragView> {
        if exists|i: int| self.is_at(i, t) {
            let i = choose|i: int| self.is_at(i, t);
            Some(self.entries@[i].buffer@)
        } else {
            None
        }
    }

    /// How many numbers a part can have, zero included.
    pub closed spec fn places(&self) -> nat {
        if self.max_frag_count >= 2 {
            self.max_frag_count as nat
        } else {
            2
        }
    }

    /// Seconds after which fragments are given up.
    pub closed spec fn timeout(&self) -> u64 {
        self.frag_timeout
    }

    /// Whether each target has at most one buffer.
    pub closed spec fn wf(&self) -> bool {
        &&& forall|i: int, j: int|
            0 <= i < j < self.entries@.len() ==> (#[trigger] self.entries@[i]).target@ != (
            #[trigger] self.entries@[j]).target@
        &&& forall|i: int|
            0 <= i < self.entries@.len() ==> (#[trigger] self.entries@[i]).buffer.wf()
                && self.entries@[i].buffer@.parts.len() == self.places()
    }

    proof fn at_is(&self, i: int)
        requires
            self.wf(),
            0 <= i < self.entries@.len(),
        ensures
            self.at(self.entries@[i].target@) == Some(self.entries@[i].buffer@),
    {
        let t = self.entries@[i].target@;
        assert(self.is_at(i, t));
        let j = choose|j: int| self.is_at(j, t);
        assert(self.is_at(j, t));
        if i < j {
            assert(self.entries@[i].target@ != self.entries@[j].target@);
        } else if j < i {
            assert(self.entries@[j].target@ != self.entries@[i].target@);
        }
    }

    /// What a buffer has in common with all others: places for the same numbers.
    pub proof fn buffers_are_alike(&self, t: TargetView)
        requires
            self.wf(),
        ensures
            self.at(t) matches Some(v) ==> v.parts.len() == self.places(),
    {
        if exists|i: int| self.is_at(i, t) {
            let i = choose|i: int| self.is_at(i, t);
            self.at_is(i);
        }
    }

    /// A relay without fragments.
    pub fn new(max_frag_count: usize, frag_timeout: u64) -> (relay: UdpRelay)
        ensures
            relay.wf(),
            relay.places() == if max_frag_count >= 2 {
                max_frag_count as nat
            } else {
                2
            },
            relay.timeout() == frag_timeout,
            forall|t: TargetView| relay.at(t) is None,
    {
        UdpRelay { entries: Vec::new(), max_frag_count, frag_timeout }
    }

    /// Gives up the fragments that have waited for too long.
    pub fn cleanup_fragments(&mut self, now: u64)
        requires
            old(self).wf(),
        ensures
            final(self).wf(),
            final(self).places() == old(self).places(),
            final(self).timeout() == old(self).timeout(),
            forall|t: TargetView| #[trigger]
                final(self).at(t) == unexpired(old(self).at(t), now, old(self).timeout()),
    {
        let ghost start = *self;
        let mut at: usize = 0;
        while at < self.entries.len()
            invariant
                at <= self.entries@.len(),
                self.wf(),
                self.max_frag_count == start.max_frag_count,
                self.frag_timeout == start.frag_timeout,
                forall|t: TargetView| #[trigger]
                    unexpired(self.at(t), now, self.frag_timeout) == unexpired(
                        start.at(t),
                        now,
                        self.frag_timeout,
                    ),
                forall|i: int|
                    0 <= i < at ==> !has_expired(
                        (#[trigger] self.entries@[i]).buffer@,
                        now,
                        self.frag_timeout,
                    ),
            decreases self.entries@.len() - at,
        {
            if self.entries[at].buffer.is_expired(now, self.frag_timeout) {
                let ghost before = *self;
                self.entries.remove(at);
                proof {
                    assert(self.wf());
                    assert forall|t: TargetView| #[trigger]
                        unexpired(self.at(t), now, self.frag_timeout) == unexpired(
                            before.at(t),
                            now,
                            self.frag_timeout,
                        ) by {
                        self.removed_at(before, at as int, t);
                        before.at_is(at as int);
                    }
                    assert forall|i: int| 0 <= i < at implies !has_expired(
                        (#[trigger] self.entries@[i]).buffer@,
                        now,
                        self.frag_timeout,
                    ) by {
                        assert(self.entries@[i] == before.entries@[i]);
                    }
                }
            } else {
                at += 1;
            }
        }
        proof {
            assert forall|t: TargetView| #[trigger]
                self.at(t) == unexpired(start.at(t), now, start.frag_timeout) by {
                assert(unexpired(self.at(t), now, self.frag_timeout) == unexpired(
                    start.at(t),
                    now,
                    self.frag_timeout,
                ));
                if exists|i: int| self.is_at(i, t) {
                    let i = choose|i: int| self.is_at(i, t);
                    self.at_is(i);
                    assert(!has_expired(self.entries@[i].buffer@, now, self.frag_timeout));
                }
            }
        }
    }

    proof fn removed_at(&self, before: UdpRelay, gone: int, t: TargetView)
        requires
            before.wf(),
            self.wf(),
            0 <= gone < before.entries@.len(),
            self.entries@ == before.entries@.remove(gone),
        ensures
            self.at(t) == if t == before.entries@[gone].target@ {
                None
            } else {
                before.at(t)
            },
    {
        if exists|i: int| self.is_at(i, t) {
            let i = choose|i: int| self.is_at(i, t);
            let j = if i < gone {
                i
            } else {
                i + 1
            };
            assert(self.entries@[i] == before.entries@[j]);
            self.at_is(i);
            before.at_is(j);
            if j < gone {
                assert(before.entries@[j].target@ != before.entries@[gone].target@);
            } else {
                assert(before.entries@[gone].target@ != before.entries@[j].target@);
            }
        } else if t != before.entries@[gone].target@ {
            if exists|j: int| before.is_at(j, t) {
                let j = choose|j: int| before.is_at(j, t);
                let i = if j < gone {
                    j
                } else {
                    j - 1
                };
                assert(self.entries@[i] == before.entries@[j]);
                assert(self.is_at(i, t));
            }
        }
    }

    /// Takes the fragments of a packet to a target out.
    fn take(&mut self, target: &SocksTarget) -> (res: Option<FragBuffer>)
        requires
            old(self).wf(),
        ensures
            final(self).wf(),
            final(self).places() == old(self).places(),
            final(self).timeout() == old(self).timeout(),
            final(self).max_frag_count == old(self).max_frag_count,
            match res {
                Some(buffer) => old(self).at(target@) == Some(buffer@) && buffer.wf()
                    && buffer@.parts.len() == old(self).places(),
                None => old(self).at(target@) is None,
            },
            forall|t: TargetView| #[trigger]
                final(self).at(t) == if t == target@ {
                    None
                } else {
                    old(self).at(t)
                },
    {
        let ghost start = *self;
        let mut at: usize = 0;
        while at < self.entries.len()
            invariant
                *self == start,
                start == *old(self),
                at <= self.entries@.len(),
                self.wf(),
                forall|i: int| 0 <= i < at ==> (#[trigger] self.entries@[i]).target@ != target@,
            decreases self.entries@.len() - at,
        {
            if same_target(&self.entries[at].target, target) {
                proof {
                    self.at_is(at as int);
                }
                let entry = self.entries.remove(at);
                proof {
                    assert(self.wf());
                    assert forall|t: TargetView| #[trigger]
                        self.at(t) == if t == target@ {
                            None
                        } else {
                            start.at(t)
                        } by {
                        self.removed_at(start, at as int, t);
                    }
                }
                return Some(entry.buffer);
            }
            at += 1;
        }
        assert forall|i: int| !self.is_at(i, target@) by {
            if 0 <= i < self.entries@.len() {
                assert(self.entries@[i].target@ != target@);
            }
        }
        None
    }

    /// Puts the fragments of a packet to a target in.
    fn put(&mut self, target: SocksTarget, buffer: FragBuffer)
        requires
            old(self).wf(),
            old(self).at(target@) is None,
            buffer.wf(),
            buffer@.parts.len() == old(self).places(),
        ensures
            final(self).wf(),
            final(self).places() == old(self).places(),
            final(self).timeout() == old(self).timeout(),
            forall|t: TargetView| #[trigger]
                final(self).at(t) == if t == target@ {
                    Some(buffer@)
                } else {
                    old(self).at(t)
                },
    {
        let ghost start = *self;
        let ghost key = target@;
        self.entries.push(FragEntry { target, buffer });
        proof {
            let n = start.entries@.len() as int;
            assert forall|i: int| 0 <= i < n implies (#[trigger] self.entries@[i]).target@
                != key by {
                assert(self.entries@[i] == start.entries@[i]);
                assert(!start.is_at(i, key));
            }
            assert(self.entries@[n].target@ == key);
            assert(self.wf());
            assert forall|t: TargetView| #[trigger]
                self.at(t) == if t == key {
                    Some(buffer@)
                } else {
                    start.at(t)
                } by {
                if t == key {
                    self.at_is(n);
                } else if exists|i: int| self.is_at(i, t) {
                    let i = choose|i: int| self.is_at(i, t);
                    assert(self.entries@[i] == start.entries@[i]);
                    self.at_is(i);
                    start.at_is(i);
                } else {
                    assert forall|i: int| !start.is_at(i, t) by {
                        if start.is_at(i, t) {
                            assert(self.entries@[i] == start.entries@[i]);
                            assert(self.is_at(i, t));
                        }
                    }
                }
            }
        }
    }

    /// What a packet from the client sends, and where to, if it is whole or its last missing part.
    pub fn on_request(&mut self, request: UdpRequest, now: u64) -> (res: Option<
        (SocksTarget, Vec<u8>),
    >)
        requires
            old(self).wf(),
        ensures
            final(self).wf(),
            final(self).places() == old(self).places(),
            final(self).timeout() == old(self).timeout(),
            others_wait(*old(self), *final(self), request.target@, now),
            takes_request(
                *old(self),
                *final(self),
                request.target@,
                request.frag,
                request.payload@,
                now,
                match res {
                    Some((target, data)) => Some((target@, data@)),
                    None => None,
                },
            ),
    {
        let ghost t = request.target@;
        self.cleanup_fragments(now);
        let UdpRequest { frag, target, payload } = request;
        let found: Option<FragBuffer> = self.take(&target);
        if frag == 0 {
            return Some((target, payload));
        }
        let seq: u8 = frag % 128;
        if seq == 0 {
            if let Some(buffer) = found {
                self.put(target, buffer);
            }
            return None;
        }
        let mut buffer: FragBuffer = match found {
            Some(buffer) => buffer,
            None => FragBuffer::new(now, self.max_frag_count),
        };
        match buffer.insert(seq, frag >= 128, payload, now) {
            Some(data) => Some((target, data)),
            None => {
                self.put(target, buffer);
                None
            },
        }
    }
}

impl UdpRelay {
    /// What a datagram from the client sends, and where to. One that is no packet is dropped.
    pub fn on_datagram(&mut self, data: &[u8], now: u64) -> (res: Option<(SocksTarget, Vec<u8>)>)
        requires
            old(self).wf(),
        ensures
            final(self).wf(),
            final(self).places() == old(self).places(),
            final(self).timeout() == old(self).timeout(),
            match request_end(data@) {
                None => res is None && *final(self) == *old(self),
                Some(end) => exists|t: TargetView| #[trigger]
                    target_at(data@, 3, t, end) && takes_request(
                        *old(self),
                        *final(self),
                        t,
                        data@[2],
                        data@.subrange(end, data@.len() as int),
                        now,
                        match res {
                            Some((target, data)) => Some((target@, data@)),
                            None => None,
                        },
                    ) && others_wait(*old(self), *final(self), t, now),
            },
    {
        match read_udp_request(data) {
            Some(request) => {
                assert(target_at(data@, 3, request.target@, request_end(data@).unwrap()));
                self.on_request(request, now)
            },
            None => None,
        }
    }
}

/// Whether the parts of packets to other targets still wait, unless they have waited for too long.
pub open spec fn others_wait(
    before: UdpRelay,
    after: UdpRelay,
    target: TargetView,
    now: u64,
) -> bool {
    forall|t: TargetView|
        t != target ==> #[trigger] after.at(t) == unexpired(before.at(t), now, before.timeout())
}

/// What a packet with the number `frag` does. Zero is a whole packet: it is sent, and what has come
/// in part is given up. The other numbers are those of parts, 128 more for the last one: the part
/// is added, and the packet is sent once all parts have come.
pub open spec fn takes_request(
    before: UdpRelay,
    after: UdpRelay,
    t: TargetView,
    frag: u8,
    payload: Seq<u8>,
    now: u64,
    sent: Option<(TargetView, Seq<u8>)>,
) -> bool {
    let kept = unexpired(before.at(t), now, before.timeout());
    let seq = (frag % 128) as u8;
    if frag == 0 {
        sent == Some((t, payload)) && after.at(t) is None
    } else if seq == 0 {
        sent is None && after.at(t) == kept
    } else {
        let buffer = match kept {
            Some(v) => v,
            None => no_parts(before.places(), now),
        };
        if !has_place(buffer, seq) {
            sent is None && after.at(t) == Some(buffer)
        } else {
            let full = with_part(buffer, seq, frag >= 128, payload, now);
            match assembled(full) {
                Some(data) => sent == Some((t, data)) && after.at(t) is None,
                None => sent is None && after.at(t) == Some(full),
            }
        }
    }
}

/// What the client gets of the data that a remote sent, once it is known where the client is.
pub fn relay_response(client: Option<SocketAddress>, remote: SocketAddress, data: &[u8]) -> (res:
    Option<(SocketAddress, Vec<u8>)>)
    ensures
        match client {
            Some(address) => res matches Some((to, packet)) && to == address && packet@ == relayed(
                remote,
                data@,
            ),
            None => res is None,
        },
{
    match client {
        Some(address) => match build_udp_response(remote, data) {
            Ok(packet) => Some((address, packet)),
            Err(_) => None,
        },
        None => None,
    }
}

/// A request that is no fragment goes out at once, as it came, and drops what waited for its target.
pub proof fn a_whole_request_goes_out(
    before: UdpRelay,
    after: UdpRelay,
    t: TargetView,
    payload: Seq<u8>,
    now: u64,
    sent: Option<(TargetView, Seq<u8>)>,
)
    requires
        takes_request(before, after, t, 0, payload, now, sent),
    ensures
        sent == Some((t, payload)),
        after.at(t) is None,
{
}

/// A fragment goes out together with the others of its target, once the last and all before it are
/// there; until then it waits. What waited too long counts no more. The seven low bits of its number
/// are its place, and the high bit marks the last one.
pub proof fn a_fragment_waits_for_the_others(
    before: UdpRelay,
    after: UdpRelay,
    t: TargetView,
    frag: u8,
    payload: Seq<u8>,
    now: u64,
    sent: Option<(TargetView, Seq<u8>)>,
)
    requires
        takes_request(before, after, t, frag, payload, now, sent),
        frag != 0,
    ensures
        sent matches Some((to, _)) ==> to == t && after.at(t) is None,
        frag == 128 ==> sent is None,
        frag % 128 > 0 ==> ({
            let waiting = if before.at(t) is Some && now <= before.at(t)->0.last_update
                + before.timeout() * 1_000_000_000 {
                before.at(t)->0
            } else {
                no_parts(before.places(), now)
            };
            let place = (frag % 128) as u8;
            let full = with_part(waiting, place, frag >= 128, payload, now);
            &&& place >= waiting.parts.len() ==> sent is None && after.at(t) == Some(waiting)
            &&& place < waiting.parts.len() && assembled(full) is None ==> sent is None
                && after.at(t) == Some(full)
            &&& place < waiting.parts.len() && assembled(full) is Some ==> sent == Some(
                (t, assembled(full)->0),
            )
        }),
{
}

/// The parts that wait for another target stay as long as their time is not over.
pub proof fn other_targets_keep_their_parts(
    before: UdpRelay,
    after: UdpRelay,
    target: TargetView,
    other: TargetView,
    now: u64,
)
    requires
        others_wait(before, after, target, now),
        other != target,
    ensures
        before.at(other) is None ==> after.at(other) is None,
        before.at(other) matches Some(v) ==> after.at(other) == if now <= v.last_update
            + before.timeout() * 1_000_000_000 {
            Some(v)
        } else {
            None
        },
{
}

} // verus!
