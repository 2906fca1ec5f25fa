//! The byte queue between a TCP socket and the client that uses it.

use vstd::prelude::*;

verus! {

/// A ring of bytes. One cell always stays free, so that a full ring and an empty one
/// differ: a ring of capacity `n` holds `n - 1` bytes.
pub struct TcpRingBuffer {
    buffer: Vec<u8>,
    capacity: usize,
    write_pos: usize,
    read_pos: usize,
}

/// The smaller of two numbers.
pub open spec fn min_of(a: int, b: int) -> int {
    if a <= b {
        a
    } else {
        b
    }
}

/// `dst` with `bytes` at its front.
pub open spec fn with_front(dst: Seq<u8>, bytes: Seq<u8>) -> Seq<u8> {
    bytes + dst.skip(bytes.len() as int)
}

impl View for TcpRingBuffer {
    type V = Seq<u8>;

    /// The bytes in the queue, the oldest first.
    closed spec fn view(&self) -> Seq<u8> {
        Seq::new(self.used(), |i: int| self.cell(i))
    }
}

impl TcpRingBuffer {
    spec fn used(&self) -> nat {
        if self.write_pos >= self.read_pos {
            (self.write_pos - self.read_pos) as nat
        } else {
            (self.capacity - self.read_pos + self.write_pos) as nat
        }
    }

    spec fn cell(&self, i: int) -> u8 {
        if self.read_pos + i < self.capacity {
            self.buffer@[self.read_pos + i]
        } else {
            self.buffer@[self.read_pos + i - self.capacity]
        }
    }

    pub closed spec fn wf(&self) -> bool {
        &&& self.capacity >= 2
        &&& self.buffer@.len() == self.capacity
        &&& self.write_pos < self.capacity
        &&& self.read_pos < self.capacity
    }

    /// How many bytes the queue can hold at most.
    pub closed spec fn limit(&self) -> nat {
        (self.capacity - 1) as nat
    }

    /// The queue never holds more than its limit.
    pub proof fn never_overfull(&self)
        requires
            self.wf(),
        ensures
            self@.len() <= self.limit(),
            self.limit() >= 1,
    {
    }

    /// An empty ring of `capacity` cells, but at least two.
    pub fn new(capacity: usize) -> (ring: TcpRingBuffer)
        ensures
            ring.wf(),
            ring@ == Seq::<u8>::empty(),
            ring.limit() == if capacity > 2 {
                capacity - 1
            } else {
                1
            },
    {
        let capacity: usize = if capacity < 2 {
            2
        } else {
            capacity
        };
        let ring = TcpRingBuffer { buffer: vec![0; capacity], capacity, write_pos: 0, read_pos: 0 };
        assert(ring@ =~= Seq::<u8>::empty());
        ring
    }

    /// The number of bytes in the queue.
    pub fn len(&self) -> (n: usize)
        requires
            self.wf(),
        ensures
            n == self@.len(),
            n <= self.limit(),
    {
        if self.write_pos >= self.read_pos {
            self.write_pos - self.read_pos
        } else {
            self.capacity - self.read_pos + self.write_pos
        }
    }

    /// Whether the queue is empty.
    pub fn is_empty(&self) -> (res: bool)
        requires
            self.wf(),
        ensures
            res == (self@.len() == 0),
    {
        self.read_pos == self.write_pos
    }

    /// Whether the queue can take no more.
    pub fn is_full(&self) -> (res: bool)
        requires
            self.wf(),
        ensures
            res == (self@.len() == self.limit()),
    {
        self.remaining_capacity() == 0
    }

    /// How many more bytes the queue can take.
    pub fn remaining_capacity(&self) -> (n: usize)
        requires
            self.wf(),
        ensures
            n == self.limit() - self@.len(),
    {
        self.capacity - self.len() - 1
    }

    fn push_byte(&mut self, byte: u8)
        requires
            old(self).wf(),
            old(self)@.len() < old(self).limit(),
        ensures
            final(self).wf(),
            final(self).limit() == old(self).limit(),
            final(self)@ == old(self)@.push(byte),
    {
        let at: usize = self.write_pos;
        self.buffer.set(at, byte);
        self.write_pos = if at + 1 == self.capacity {
            0
        } else {
            at + 1
        };
        assert(self@ =~= old(self)@.push(byte));
    }

    /// Puts as much of `data` into the queue as it can take, and returns how much that is.
    pub fn enqueue_slice(&mut self, data: &[u8]) -> (n: usize)
        requires
            old(self).wf(),
        ensures
            final(self).wf(),
            final(self).limit() == old(self).limit(),
            n == min_of(data@.len() as int, old(self).limit() - old(self)@.len()),
            final(self)@ == old(self)@ + data@.take(n as int),
    {
        let room: usize = self.remaining_capacity();
        let to_write: usize = if data.len() < room {
            data.len()
        } else {
            room
        };
        let mut i: usize = 0;
        assert(old(self)@ + data@.take(0) =~= old(self)@);
        while i < to_write
            invariant
                i <= to_write <= data@.len(),
                to_write <= old(self).limit() - old(self)@.len(),
                self.wf(),
                self.limit() == old(self).limit(),
                self@ == old(self)@ + data@.take(i as int),
            decreases to_write - i,
        {
            self.push_byte(data[i]);
            assert(old(self)@ + data@.take(i + 1) =~= (old(self)@ + data@.take(i as int)).push(
                data@[i as int],
            ));
            i += 1;
        }
        to_write
    }

    /// Copies the oldest bytes to the front of `dst`, as many as there are or fit, and
    /// returns how many. They stay in the queue.
    pub fn peek_copy(&self, dst: &mut [u8]) -> (n: usize)
        requires
            self.wf(),
        ensures
            n == min_of(old(dst)@.len() as int, self@.len() as int),
            final(dst)@ == with_front(old(dst)@, self@.take(n as int)),
    {
        let have: usize = self.len();
        let to_read: usize = if dst.len() < have {
            dst.len()
        } else {
            have
        };
        let ghost before = dst@;
        let mut i: usize = 0;
        let mut pos: usize = self.read_pos;
        while i < to_read
            invariant
                self.wf(),
                i <= to_read <= self@.len(),
                to_read <= before.len(),
                pos < self.capacity,
                pos == if self.read_pos + i < self.capacity {
                    self.read_pos + i
                } else {
                    self.read_pos + i - self.capacity
                },
                dst@ =~= with_front(before, self@.take(i as int)),
            decreases to_read - i,
        {
            let byte: u8 = self.buffer[pos];
            assert(byte == self@[i as int]);
            dst[i] = byte;
            pos = if pos + 1 == self.capacity {
                0
            } else {
                pos + 1
            };
            i += 1;
        }
        to_read
    }

    /// Takes the `count` oldest bytes off the queue, or all of them if there are fewer.
    pub fn consume(&mut self, count: usize)
        requires
            old(self).wf(),
        ensures
            final(self).wf(),
            final(self).limit() == old(self).limit(),
            final(self)@ == old(self)@.skip(min_of(count as int, old(self)@.len() as int)),
    {
        let have: usize = self.len();
        let n: usize = if count < have {
            count
        } else {
            have
        };
        let left: usize = self.capacity - self.read_pos;
        self.read_pos = if n < left {
            self.read_pos + n
        } else {
            n - left
        };
        assert(self@ =~= old(self)@.skip(n as int));
    }

    /// Moves the oldest bytes to the front of `dst`, as many as there are or fit, and returns
    /// how many.
    pub fn dequeue_slice(&mut self, dst: &mut [u8]) -> (n: usize)
        requires
            old(self).wf(),
        ensures
            final(self).wf(),
            final(self).limit() == old(self).limit(),
            n == min_of(old(dst)@.len() as int, old(self)@.len() as int),
            final(dst)@ == with_front(old(dst)@, old(self)@.take(n as int)),
            final(self)@ == old(self)@.skip(n as int),
    {
        let n: usize = self.peek_copy(dst);
        self.consume(n);
        n
    }
}

/// What is done with a queue: bytes are offered to it, of which it takes what it has room for, or up to
/// a number of bytes are taken off it.
pub enum QueueStep {
    Offer(Seq<u8>),
    Take(nat),
}

/// A queue in use: the bytes in it, those that it took, and those that came out of it.
pub struct QueueRun {
    pub queued: Seq<u8>,
    pub went_in: Seq<u8>,
    pub came_out: Seq<u8>,
}

impl QueueRun {
    /// The queue after one more step: what is offered goes in as `enqueue_slice` says, and what is
    /// taken comes out as `dequeue_slice` says.
    pub open spec fn after(self, limit: nat, step: QueueStep) -> QueueRun {
        match step {
            QueueStep::Offer(data) => {
                let n = min_of(data.len() as int, limit - self.queued.len());
                QueueRun {
                    queued: self.queued + data.take(n),
                    went_in: self.went_in + data.take(n),
                    ..self
                }
            },
            QueueStep::Take(count) => {
                let n = min_of(count as int, self.queued.len() as int);
                QueueRun {
                    queued: self.queued.skip(n),
                    came_out: self.came_out + self.queued.take(n),
                    ..self
                }
            },
        }
    }

    /// The queue after some steps, one after the other.
    pub open spec fn after_all(self, limit: nat, steps: Seq<QueueStep>) -> QueueRun
        decreases steps.len(),
    {
        if steps.len() == 0 {
            self
        } else {
            self.after_all(limit, steps.drop_last()).after(limit, steps.last())
        }
    }
}

/// A queue that holds some bytes, before anything is done with it.
pub open spec fn queue_with(queued: Seq<u8>) -> QueueRun {
    QueueRun { queued, went_in: Seq::empty(), came_out: Seq::empty() }
}

/// What is taken off a queue is what was put on it, in the same order, however it is used: the bytes
/// that came out followed by those that are still queued are the bytes that were there at first,
/// followed by those that went in. There are never more of them in the queue than its limit.
pub proof fn queue_keeps_order(first: Seq<u8>, limit: nat, steps: Seq<QueueStep>)
    requires
        first.len() <= limit,
    ensures
        ({
            let run = queue_with(first).after_all(limit, steps);
            &&& run.came_out + run.queued == first + run.went_in
            &&& run.queued.len() <= limit
        }),
    decreases steps.len(),
{
    let run = queue_with(first).after_all(limit, steps);
    if steps.len() == 0 {
        assert(run.came_out + run.queued =~= first + run.went_in);
    } else {
        let before = queue_with(first).after_all(limit, steps.drop_last());
        queue_keeps_order(first, limit, steps.drop_last());
        match steps.last() {
            QueueStep::Offer(data) => {
                let n = min_of(data.len() as int, limit - before.queued.len());
                assert(run.came_out + run.queued =~= (before.came_out + before.queued) + data.take(
                    n,
                ));
                assert(first + run.went_in =~= (first + before.went_in) + data.take(n));
            },
            QueueStep::Take(count) => {
                let n = min_of(count as int, before.queued.len() as int);
                assert(run.came_out + run.queued =~= before.came_out + before.queued);
            },
        }
    }
}

/// The smaller of two numbers is one of them, and no greater than the other.
pub proof fn the_smaller_one(a: int, b: int)
    ensures
        min_of(a, b) <= a,
        min_of(a, b) <= b,
        min_of(a, b) == a || min_of(a, b) == b,
{
}

/// Bytes are laid over the front of a buffer, byte by byte; the rest of it stays.
pub proof fn bytes_are_laid_over_the_front(dst: Seq<u8>, bytes: Seq<u8>)
    requires
        bytes.len() <= dst.len(),
    ensures
        with_front(dst, bytes).len() == dst.len(),
        forall|i: int|
            0 <= i < dst.len() ==> #[trigger] with_front(dst, bytes)[i] == if i < bytes.len() {
                bytes[i]
            } else {
                dst[i]
            },
{
}

} // verus!
