//! Packets from a client that come in fragments.

use vstd::prelude::*;

verus! {

/// The fragments of one packet.
#[derive(Debug)]
pub struct FragBuffer {
    fragments: Vec<Option<Vec<u8>>>,
    highest_seq: u8,
    end_seq: Option<u8>,
    last_update: u64,
}

/// The fragments of one packet as values: the parts that have come, each under its number, the
/// highest number so far, the number of the last part if it has come, and when a part came.
#[verifier::ext_equal]
pub struct FragView {
    pub parts: Seq<Option<Seq<u8>>>,
    pub highest: u8,
    pub end: Option<u8>,
    pub last_update: u64,
}

/// A part as values.
pub open spec fn part(fragment: Option<Vec<u8>>) -> Option<Seq<u8>> {
    match fragment {
        Some(data) => Some(data@),
        None => None,
    }
}

/// A buffer without parts.
pub open spec fn no_parts(len: nat, now: u64) -> FragView {
    FragView {
        parts: Seq::new(len, |i: int| None::<Seq<u8>>),
        highest: 0,
        end: None,
        last_update: now,
    }
}

/// Whether the parts from `from` up to `to` have all come.
pub open spec fn complete(parts: Seq<Option<Seq<u8>>>, from: int, to: int) -> bool {
    forall|i: int| from <= i <= to ==> #[trigger] parts[i] is Some
}

/// The parts from `from` up to `to`, in one.
pub open spec fn joined(parts: Seq<Option<Seq<u8>>>, from: int, to: int) -> Seq<u8>
    decreases to - from + 1,
{
    if from <= to {
        parts[from].unwrap() + joined(parts, from + 1, to)
    } else {
        Seq::empty()
    }
}

/// A buffer after a part with the number `seq` came, `last` if it is the last one. A part that
/// comes behind the last one, or before one that has come, starts the packet anew. A part that has
/// come before is not replaced.
pub open spec fn with_part(v: FragView, seq: u8, last: bool, data: Seq<u8>, now: u64) -> FragView {
    let len = v.parts.len();
    let a = if v.end matches Some(end) && seq > end {
        no_parts(len, now)
    } else {
        v
    };
    let b = if seq < a.highest {
        no_parts(len, now)
    } else {
        a
    };
    FragView {
        parts: if b.parts[seq as int] is None {
            b.parts.update(seq as int, Some(data))
        } else {
            b.parts
        },
        highest: if seq > b.highest {
            seq
        } else {
            b.highest
        },
        end: if last {
            Some(seq)
        } else {
            b.end
        },
        last_update: now,
    }
}

/// Whether a part can have this number.
pub open spec fn has_place(v: FragView, seq: u8) -> bool {
    0 < seq < v.parts.len()
}

/// The packet, if all of its parts have come.
pub open spec fn assembled(v: FragView) -> Option<Seq<u8>> {
    match v.end {
        Some(end) => if complete(v.parts, 1, end as int) {
            Some(joined(v.parts, 1, end as int))
        } else {
            None
        },
        None => None,
    }
}

/// Whether a buffer has waited for longer than `timeout` seconds.
pub open spec fn has_expired(v: FragView, now: u64, timeout: u64) -> bool {
    now - v.last_update > timeout * 1_000_000_000
}

impl View for FragBuffer {
    type V = FragView;

    closed spec fn view(&self) -> FragView {
        FragView {
            parts: Seq::new(self.fragments@.len(), |i: int| part(self.fragments@[i])),
            highest: self.highest_seq,
            end: self.end_seq,
            last_update: self.last_update,
        }
    }
}

fn empty_fragments(len: usize) -> (fragments: Vec<Option<Vec<u8>>>)
    ensures
        fragments@.len() == len,
        forall|i: int| 0 <= i < len ==> #[trigger] fragments@[i] is None,
{
    let mut fragments: Vec<Option<Vec<u8>>> = Vec::new();
    while fragments.len() < len
        invariant
            fragments@.len() <= len,
            forall|i: int| 0 <= i < fragments@.len() ==> #[trigger] fragments@[i] is None,
        decreases len - fragments@.len(),
    {
        fragments.push(None);
    }
    fragments
}

impl FragBuffer {
    /// Whether the last part has a place in the buffer.
    pub open spec fn wf(&self) -> bool {
        &&& self@.parts.len() >= 2
        &&& self@.end matches Some(end) ==> end < self@.parts.len()
    }

    /// A buffer without parts, with a place for each number below `max_frag_count`.
    pub fn new(now: u64, max_frag_count: usize) -> (buffer: FragBuffer)
        ensures
            buffer.wf(),
            buffer@ == no_parts(
                if max_frag_count >= 2 {
                    max_frag_count as nat
                } else {
                    2
                },
                now,
            ),
    {
        let len: usize = if max_frag_count >= 2 {
            max_frag_count
        } else {
            2
        };
        let buffer = FragBuffer {
            fragments: empty_fragments(len),
            highest_seq: 0,
            end_seq: None,
            last_update: now,
        };
        assert(buffer@.parts =~= no_parts(len as nat, now).parts);
        buffer
    }

    /// Whether the buffer has waited for longer than `timeout` seconds.
    pub fn is_expired(&self, now: u64, timeout: u64) -> (res: bool)
        ensures
            res == has_expired(self@, now, timeout),
    {
        now as i128 - self.last_update as i128 > timeout as i128 * 1_000_000_000
    }

    /// Forgets all parts.
    pub fn reset(&mut self, now: u64)
        requires
            old(self).wf(),
        ensures
            final(self).wf(),
            final(self)@ == no_parts(old(self)@.parts.len(), now),
    {
        let len: usize = self.fragments.len();
        self.fragments = empty_fragments(len);
        self.highest_seq = 0;
        self.end_seq = None;
        self.last_update = now;
        assert(self@.parts =~= no_parts(len as nat, now).parts);
    }

    /// Takes a part, and gives the packet if all of its parts have come.
    pub fn insert(&mut self, seq: u8, is_last: bool, data: Vec<u8>, now: u64) -> (res: Option<
        Vec<u8>,
    >)
        requires
            old(self).wf(),
        ensures
            final(self).wf(),
            !has_place(old(self)@, seq) ==> final(self)@ == old(self)@ && res is None,
            has_place(old(self)@, seq) ==> {
                &&& final(self)@ == with_part(old(self)@, seq, is_last, data@, now)
                &&& part(res) == assembled(final(self)@)
            },
    {
        if seq == 0 || seq as usize >= self.fragments.len() {
            return None;
        }
        if let Some(end_seq) = self.end_seq {
            if seq > end_seq {
                self.reset(now);
            }
        }
        if seq < self.highest_seq {
            self.reset(now);
        }
        let ghost before = self@;
        self.last_update = now;
        let at: usize = seq as usize;
        if self.fragments[at].is_none() {
            self.fragments.set(at, Some(data));
        }
        assert(self@.parts =~= (if before.parts[seq as int] is None {
            before.parts.update(seq as int, Some(data@))
        } else {
            before.parts
        }));
        if seq > self.highest_seq {
            self.highest_seq = seq;
        }
        if is_last {
            self.end_seq = Some(seq);
        }
        assert(self@ == with_part(old(self)@, seq, is_last, data@, now));
        match self.end_seq {
            Some(end) => self.merge(end),
            None => None,
        }
    }

    fn merge(&self, end: u8) -> (res: Option<Vec<u8>>)
        requires
            self.wf(),
            self@.end == Some(end),
        ensures
            part(res) == assembled(self@),
    {
        let mut merged: Vec<u8> = Vec::new();
        let mut at: usize = 1;
        assert(merged@ + joined(self@.parts, 1, end as int) =~= joined(self@.parts, 1, end as int));
        while at <= end as usize
            invariant
                self.wf(),
                self@.end == Some(end),
                1 <= at <= end + 1 || (at == 1 && end == 0),
                complete(self@.parts, 1, at - 1),
                merged@ + joined(self@.parts, at as int, end as int) == joined(
                    self@.parts,
                    1,
                    end as int,
                ),
            decreases end + 1 - at,
        {
            assert(self@.parts[at as int] == part(self.fragments@[at as int]));
            match &self.fragments[at] {
                Some(data) => {
                    let ghost before = merged@;
                    merged.extend_from_slice(data.as_slice());
                    assert(merged@ + joined(self@.parts, at + 1, end as int) =~= before + (data@
                        + joined(self@.parts, at + 1, end as int)));
                },
                None => {
                    assert(!complete(self@.parts, 1, end as int));
                    return None;
                },
            }
            at += 1;
        }
        assert(merged@ + joined(self@.parts, at as int, end as int) =~= merged@);
        Some(merged)
    }
}

/// A buffer after the first `count` of some parts came in order, the last of them marked as such.
pub open spec fn after_parts(len: nat, data: Seq<Seq<u8>>, count: int, now: u64) -> FragView
    decreases count,
{
    if count <= 0 {
        no_parts(len, now)
    } else {
        with_part(
            after_parts(len, data, count - 1, now),
            count as u8,
            count == data.len(),
            data[count - 1],
            now,
        )
    }
}

proof fn parts_so_far(len: nat, data: Seq<Seq<u8>>, count: int, now: u64)
    requires
        0 <= count < data.len() < len,
        data.len() <= 255,
    ensures
        ({
            let v = after_parts(len, data, count, now);
            &&& v.parts.len() == len
            &&& v.highest == count
            &&& v.end is None
            &&& forall|i: int| 1 <= i <= count ==> #[trigger] v.parts[i] == Some(data[i - 1])
            &&& forall|i: int| count < i < len ==> #[trigger] v.parts[i] is None
        }),
    decreases count,
{
    if count > 0 {
        parts_so_far(len, data, count - 1, now);
    }
}

/// Some parts from `from` on, in one.
pub open spec fn concatenated(data: Seq<Seq<u8>>, from: int) -> Seq<u8>
    decreases data.len() - from,
{
    if 0 <= from < data.len() {
        data[from] + concatenated(data, from + 1)
    } else {
        Seq::empty()
    }
}

proof fn joined_is_concatenated(parts: Seq<Option<Seq<u8>>>, data: Seq<Seq<u8>>, from: int)
    requires
        1 <= from <= data.len() + 1,
        forall|i: int| 1 <= i <= data.len() ==> #[trigger] parts[i] == Some(data[i - 1]),
    ensures
        joined(parts, from, data.len() as int) == concatenated(data, from - 1),
    decreases data.len() - from + 1,
{
    if from <= data.len() {
        assert(parts[from] == Some(data[from - 1]));
        joined_is_concatenated(parts, data, from + 1);
    }
}

/// Parts that come in order, the last of them marked as such, give the packet that they are parts
/// of, and none of them gives a packet before the last one has come.
pub proof fn parts_in_order_are_joined(len: nat, data: Seq<Seq<u8>>, count: int, now: u64)
    requires
        0 < count <= data.len() < len,
        data.len() <= 255,
    ensures
        assembled(after_parts(len, data, count, now)) == if count == data.len() {
            Some(concatenated(data, 0))
        } else {
            None
        },
{
    parts_so_far(len, data, count - 1, now);
    let v = after_parts(len, data, count, now);
    if count == data.len() {
        assert forall|i: int| 1 <= i <= data.len() implies #[trigger] v.parts[i] == Some(
            data[i - 1],
        ) by {}
        joined_is_concatenated(v.parts, data, 1);
    }
}

/// A part that is in its turn is kept unless its place is taken, and changes no other part. One that
/// comes behind the end or before one that is there begins a new datagram: all other parts are gone.
pub proof fn a_part_has_its_place(v: FragView, seq: u8, last: bool, data: Seq<u8>, now: u64, i: int)
    requires
        has_place(v, seq),
        0 <= i < v.parts.len(),
        i != seq,
    ensures
        ({
            let after = with_part(v, seq, last, data, now);
            let anew = (v.end is Some && seq > v.end->0) || seq < v.highest;
            &&& after.parts.len() == v.parts.len()
            &&& after.last_update == now
            &&& after.highest == seq
            &&& !anew ==> {
                &&& after.parts[i] == v.parts[i]
                &&& v.parts[seq as int] is None ==> after.parts[seq as int] == Some(data)
                &&& v.parts[seq as int] is Some ==> after.parts[seq as int] == v.parts[seq as int]
                &&& !last ==> after.end == v.end
            }
            &&& anew ==> {
                &&& after.parts[i] is None
                &&& after.parts[seq as int] == Some(data)
                &&& !last ==> after.end is None
            }
            &&& last ==> after.end == Some(seq)
        }),
{
}

/// A part has a place if its number is neither zero nor beyond the last place.
pub proof fn parts_count_from_one(v: FragView, seq: u8)
    ensures
        has_place(v, seq) <==> 1 <= seq && seq < v.parts.len(),
{
}

/// A datagram is there if and only if its end is known and no part up to it is missing.
pub proof fn no_part_is_missing(v: FragView)
    ensures
        assembled(v) is Some <==> v.end is Some && forall|i: int|
            1 <= i <= v.end->0 ==> #[trigger] v.parts[i] is Some,
{
}

proof fn concatenated_is_flattened(data: Seq<Seq<u8>>, from: int)
    requires
        0 <= from <= data.len(),
    ensures
        concatenated(data, from) == data.skip(from).flatten(),
    decreases data.len() - from,
{
    if from < data.len() {
        concatenated_is_flattened(data, from + 1);
        assert(data.skip(from).drop_first() =~= data.skip(from + 1));
        assert(data.skip(from).first() == data[from]);
    }
}

/// The parts of a datagram that come in their order give the datagram, and nothing before the last.
pub proof fn parts_give_the_datagram(len: nat, data: Seq<Seq<u8>>, count: int, now: u64)
    requires
        0 < count <= data.len() < len,
        data.len() <= 255,
    ensures
        assembled(after_parts(len, data, count, now)) == if count == data.len() {
            Some(data.flatten())
        } else {
            None
        },
{
    parts_in_order_are_joined(len, data, count, now);
    concatenated_is_flattened(data, 0);
    assert(data.skip(0) =~= data);
}

/// A datagram waits for its parts for so many seconds since the last one, and no longer.
pub proof fn parts_expire(v: FragView, now: u64, timeout: u64)
    ensures
        has_expired(v, now, timeout) <==> now > v.last_update + timeout * 1_000_000_000,
{
}

} // verus!
