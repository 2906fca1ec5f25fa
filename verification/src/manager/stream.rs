//! The stream between a client and its TCP socket.

use crate::manager::buffer::{min_of, with_front, TcpRingBuffer};
use vstd::prelude::*;

verus! {

/// What a stream tells the manager of.
#[derive(Debug, Clone, Copy, PartialEq, Eq, Structural)]
pub enum SocketEventKind {
    ReadReady,
    WriteReady,
    Closed,
}

impl SocketEventKind {
    /// The bit of this event in a set of events.
    pub open spec fn mask(self) -> u8 {
        match self {
            SocketEventKind::ReadReady => 1,
            SocketEventKind::WriteReady => 2,
            SocketEventKind::Closed => 4,
        }
    }

    /// The bit of this event in a set of events.
    pub fn bit(self) -> (bit: u8)
        ensures
            bit == self.mask(),
    {
        match self {
            SocketEventKind::ReadReady => 1,
            SocketEventKind::WriteReady => 2,
            SocketEventKind::Closed => 4,
        }
    }
}

/// An event of one socket, which is known by a number.
#[derive(Debug, Clone, Copy, PartialEq, Eq, Structural)]
pub struct SocketEvent {
    pub handle: u64,
    pub kind: SocketEventKind,
}

/// What a read from a stream brings.
#[derive(Debug, Clone, Copy, PartialEq, Eq, Structural)]
pub enum ReadPoll {
    /// This many bytes, and the event for the manager.
    Ready(usize, Option<SocketEvent>),
    /// The end of the stream.
    Eof,
    /// Nothing yet.
    Pending,
}

/// What a write to a stream brings.
#[derive(Debug, Clone, Copy, PartialEq, Eq, Structural)]
pub enum WritePoll {
    /// The stream took this many bytes; and the event for the manager.
    Ready(usize, Option<SocketEvent>),
    /// The stream takes nothing any more.
    BrokenPipe,
    /// The stream takes nothing now.
    Pending,
}

/// What became of the bytes that were offered to the stack or asked of it.
#[derive(Debug, Clone, Copy, PartialEq, Eq, Structural)]
pub enum StackTransfer {
    Moved(usize),
    Failed,
}

/// The two queues of a stream, its state, and the events that the manager has not seen yet.
pub struct SocketStreamHandle {
    pub handle: u64,
    pub recv_buffer: TcpRingBuffer,
    pub send_buffer: TcpRingBuffer,
    pub socket_dropped: bool,
    pub socket_closed: bool,
    pub read_closed: bool,
    pub write_closed: bool,
    pub write_shutdown: bool,
    pub read_event_queued: bool,
    pub write_event_queued: bool,
    pub close_event_queued: bool,
}

/// A stream as values: the bytes in its queues and how many there can be, its state, and its events.
#[verifier::ext_equal]
pub struct StreamView {
    pub handle: u64,
    pub recv: Seq<u8>,
    pub recv_limit: nat,
    pub send: Seq<u8>,
    pub send_limit: nat,
    pub socket_dropped: bool,
    pub socket_closed: bool,
    pub read_closed: bool,
    pub write_closed: bool,
    pub write_shutdown: bool,
    pub read_event_queued: bool,
    pub write_event_queued: bool,
    pub close_event_queued: bool,
}

impl StreamView {
    /// The stream after its socket is gone.
    pub open spec fn ended(self) -> StreamView {
        StreamView { socket_closed: true, read_closed: true, write_closed: true, ..self }
    }
}

impl View for SocketStreamHandle {
    type V = StreamView;

    open spec fn view(&self) -> StreamView {
        StreamView {
            handle: self.handle,
            recv: self.recv_buffer@,
            recv_limit: self.recv_buffer.limit(),
            send: self.send_buffer@,
            send_limit: self.send_buffer.limit(),
            socket_dropped: self.socket_dropped,
            socket_closed: self.socket_closed,
            read_closed: self.read_closed,
            write_closed: self.write_closed,
            write_shutdown: self.write_shutdown,
            read_event_queued: self.read_event_queued,
            write_event_queued: self.write_event_queued,
            close_event_queued: self.close_event_queued,
        }
    }
}

impl SocketStreamHandle {
    pub open spec fn wf(&self) -> bool {
        self.recv_buffer.wf() && self.send_buffer.wf()
    }

    /// Whether an event of this kind waits for the manager.
    pub open spec fn queued(&self, kind: SocketEventKind) -> bool {
        match kind {
            SocketEventKind::ReadReady => self.read_event_queued,
            SocketEventKind::WriteReady => self.write_event_queued,
            SocketEventKind::Closed => self.close_event_queued,
        }
    }

    /// The stream with this event waiting, or not.
    pub open spec fn with_queued(self, kind: SocketEventKind, queued: bool) -> SocketStreamHandle {
        match kind {
            SocketEventKind::ReadReady => SocketStreamHandle { read_event_queued: queued, ..self },
            SocketEventKind::WriteReady => SocketStreamHandle { write_event_queued: queued, ..self },
            SocketEventKind::Closed => SocketStreamHandle { close_event_queued: queued, ..self },
        }
    }

    /// The event for the manager: none while one of its kind still waits.
    pub open spec fn event(&self, kind: SocketEventKind) -> Option<SocketEvent> {
        if self.queued(kind) {
            None
        } else {
            Some(SocketEvent { handle: self.handle, kind })
        }
    }

    /// A new stream, whose queues hold this many bytes.
    pub fn new(handle: u64, send_capacity: usize, recv_capacity: usize) -> (stream: SocketStreamHandle)
        requires
            send_capacity < usize::MAX,
            recv_capacity < usize::MAX,
        ensures
            stream.wf(),
            stream.handle == handle,
            stream.recv_buffer@.len() == 0,
            stream.send_buffer@.len() == 0,
            stream.recv_buffer.limit() == if recv_capacity > 1 {
                recv_capacity as nat
            } else {
                1
            },
            stream.send_buffer.limit() == if send_capacity > 1 {
                send_capacity as nat
            } else {
                1
            },
            !stream.socket_dropped,
            !stream.socket_closed,
            !stream.read_closed,
            !stream.write_closed,
            !stream.write_shutdown,
            !stream.read_event_queued,
            !stream.write_event_queued,
            !stream.close_event_queued,
    {
        SocketStreamHandle {
            handle,
            recv_buffer: TcpRingBuffer::new(recv_capacity + 1),
            send_buffer: TcpRingBuffer::new(send_capacity + 1),
            socket_dropped: false,
            socket_closed: false,
            read_closed: false,
            write_closed: false,
            write_shutdown: false,
            read_event_queued: false,
            write_event_queued: false,
            close_event_queued: false,
        }
    }

    /// Tells the manager that there is room to read into.
    pub fn notify_read_ready(&mut self) -> (event: Option<SocketEvent>)
        ensures
            event == old(self).event(SocketEventKind::ReadReady),
            *final(self) == old(self).with_queued(SocketEventKind::ReadReady, true),
    {
        if self.read_event_queued {
            return None;
        }
        self.read_event_queued = true;
        Some(SocketEvent { handle: self.handle, kind: SocketEventKind::ReadReady })
    }

    /// Tells the manager that there is something to write.
    pub fn notify_write_ready(&mut self) -> (event: Option<SocketEvent>)
        ensures
            event == old(self).event(SocketEventKind::WriteReady),
            *final(self) == old(self).with_queued(SocketEventKind::WriteReady, true),
    {
        if self.write_event_queued {
            return None;
        }
        self.write_event_queued = true;
        Some(SocketEvent { handle: self.handle, kind: SocketEventKind::WriteReady })
    }

    /// Tells the manager that the client is gone.
    pub fn notify_closed(&mut self) -> (event: Option<SocketEvent>)
        ensures
            event == old(self).event(SocketEventKind::Closed),
            *final(self) == old(self).with_queued(SocketEventKind::Closed, true),
    {
        if self.close_event_queued {
            return None;
        }
        self.close_event_queued = true;
        Some(SocketEvent { handle: self.handle, kind: SocketEventKind::Closed })
    }

    /// The manager has seen an event.
    pub fn clear_event(&mut self, kind: SocketEventKind)
        ensures
            *final(self) == old(self).with_queued(kind, false),
    {
        match kind {
            SocketEventKind::ReadReady => {
                self.read_event_queued = false;
            },
            SocketEventKind::WriteReady => {
                self.write_event_queued = false;
            },
            SocketEventKind::Closed => {
                self.close_event_queued = false;
            },
        }
    }

    /// The client drops the stream: nothing is read or written any more.
    pub fn on_drop(&mut self) -> (event: Option<SocketEvent>)
        ensures
            event == old(self).event(SocketEventKind::Closed),
            *final(self) == (SocketStreamHandle {
                socket_dropped: true,
                read_closed: true,
                write_closed: true,
                close_event_queued: true,
                ..*old(self)
            }),
    {
        self.socket_dropped = true;
        self.read_closed = true;
        self.write_closed = true;
        self.notify_closed()
    }

    /// The client reads. Bytes that are queued are read even after the other side has closed;
    /// the end comes after them.
    pub fn poll_read(&mut self, buf: &mut [u8]) -> (res: ReadPoll)
        requires
            old(self).wf(),
        ensures
            final(self).wf(),
            if old(self).recv_buffer@.len() == 0 {
                &&& *final(self) == *old(self)
                &&& final(buf)@ == old(buf)@
                &&& res == if old(self).socket_closed || old(self).read_closed {
                    ReadPoll::Eof
                } else {
                    ReadPoll::Pending
                }
            } else {
                let n = min_of(old(buf)@.len() as int, old(self).recv_buffer@.len() as int);
                &&& res == ReadPoll::Ready(n as usize, old(self).event(SocketEventKind::ReadReady))
                &&& final(buf)@ == with_front(old(buf)@, old(self).recv_buffer@.take(n))
                &&& final(self).recv_buffer@ == old(self).recv_buffer@.skip(n)
                &&& final(self).recv_buffer.limit() == old(self).recv_buffer.limit()
                &&& *final(self) == (SocketStreamHandle {
                    recv_buffer: final(self).recv_buffer,
                    read_event_queued: true,
                    ..*old(self)
                })
            },
    {
        if self.recv_buffer.is_empty() {
            return if self.socket_closed || self.read_closed {
                ReadPoll::Eof
            } else {
                ReadPoll::Pending
            };
        }
        let n: usize = self.recv_buffer.dequeue_slice(buf);
        let event: Option<SocketEvent> = self.notify_read_ready();
        ReadPoll::Ready(n, event)
    }

    /// The client writes.
    pub fn poll_write(&mut self, data: &[u8]) -> (res: WritePoll)
        requires
            old(self).wf(),
        ensures
            final(self).wf(),
            if old(self).write_closed || old(self).write_shutdown {
                res == WritePoll::BrokenPipe && *final(self) == *old(self)
            } else if old(self).send_buffer@.len() == old(self).send_buffer.limit() {
                res == WritePoll::Pending && *final(self) == *old(self)
            } else {
                let n = min_of(
                    data@.len() as int,
                    old(self).send_buffer.limit() - old(self).send_buffer@.len(),
                );
                &&& res == WritePoll::Ready(
                    n as usize,
                    old(self).event(SocketEventKind::WriteReady),
                )
                &&& final(self).send_buffer@ == old(self).send_buffer@ + data@.take(n)
                &&& final(self).send_buffer.limit() == old(self).send_buffer.limit()
                &&& *final(self) == (SocketStreamHandle {
                    send_buffer: final(self).send_buffer,
                    write_event_queued: true,
                    ..*old(self)
                })
            },
    {
        if self.write_closed || self.write_shutdown {
            return WritePoll::BrokenPipe;
        }
        if self.send_buffer.is_full() {
            return WritePoll::Pending;
        }
        let n: usize = self.send_buffer.enqueue_slice(data);
        let event: Option<SocketEvent> = self.notify_write_ready();
        WritePoll::Ready(n, event)
    }

    /// The client asks for what it has written to be sent.
    pub fn poll_flush(&mut self) -> (event: Option<SocketEvent>)
        ensures
            event == old(self).event(SocketEventKind::WriteReady),
            *final(self) == old(self).with_queued(SocketEventKind::WriteReady, true),
    {
        self.notify_write_ready()
    }

    /// The client will write no more.
    pub fn poll_shutdown(&mut self) -> (event: Option<SocketEvent>)
        ensures
            event == old(self).event(SocketEventKind::WriteReady),
            *final(self) == (SocketStreamHandle {
                write_shutdown: true,
                write_event_queued: true,
                ..*old(self)
            }),
    {
        let event: Option<SocketEvent> = self.poll_flush();
        self.write_shutdown = true;
        event
    }

    /// The next bytes from the client for the stack: at most `chunk_size`, and none while the
    /// socket cannot send. They stay queued.
    pub fn next_chunk_to_stack(&self, may_send: bool, chunk_size: usize) -> (res: Option<Vec<u8>>)
        requires
            self.wf(),
        ensures
            ({
                let n = min_of(chunk_size as int, self.send_buffer@.len() as int);
                match res {
                    Some(chunk) => may_send && n > 0 && chunk@ == self.send_buffer@.take(n),
                    None => !may_send || n == 0,
                }
            }),
    {
        if !may_send {
            return None;
        }
        let have: usize = self.send_buffer.len();
        let n: usize = if chunk_size < have {
            chunk_size
        } else {
            have
        };
        if n == 0 {
            return None;
        }
        let mut chunk: Vec<u8> = vec![0; n];
        let _ = self.send_buffer.peek_copy(chunk.as_mut_slice());
        assert(chunk@ =~= self.send_buffer@.take(n as int));
        Some(chunk)
    }

    /// Takes note of how much of a chunk the stack took. Returns whether to go on: only if it took
    /// all of it.
    pub fn on_stack_sent(&mut self, chunk_len: usize, outcome: StackTransfer) -> (more: bool)
        requires
            old(self).wf(),
        ensures
            final(self).wf(),
            match outcome {
                StackTransfer::Moved(sent) if sent > 0 => {
                    &&& more == (sent >= chunk_len)
                    &&& final(self).send_buffer@ == old(self).send_buffer@.skip(
                        min_of(sent as int, old(self).send_buffer@.len() as int),
                    )
                    &&& final(self).send_buffer.limit() == old(self).send_buffer.limit()
                    &&& *final(self) == (SocketStreamHandle {
                        send_buffer: final(self).send_buffer,
                        ..*old(self)
                    })
                },
                _ => !more && *final(self) == *old(self),
            },
    {
        match outcome {
            StackTransfer::Moved(sent) => {
                if sent == 0 {
                    return false;
                }
                self.send_buffer.consume(sent);
                sent >= chunk_len
            },
            StackTransfer::Failed => false,
        }
    }

    /// How many bytes may be asked of the stack next: none once the client is leaving, or while
    /// the socket has nothing to give or the queue no room.
    pub fn next_read_len(&self, close_requested: bool, may_recv: bool, chunk_size: usize) -> (res:
        Option<usize>)
        requires
            self.wf(),
        ensures
            ({
                let room = self.recv_buffer.limit() - self.recv_buffer@.len();
                res == if !close_requested && may_recv && room > 0 {
                    Some(min_of(room, chunk_size as int) as usize)
                } else {
                    None
                }
            }),
    {
        if close_requested || !may_recv {
            return None;
        }
        let room: usize = self.recv_buffer.remaining_capacity();
        if room == 0 {
            return None;
        }
        Some(
            if chunk_size < room {
                chunk_size
            } else {
                room
            },
        )
    }

    /// Takes bytes that the stack gave. Returns whether to go on: only if there were any, and all
    /// of them found room.
    pub fn on_stack_received(&mut self, data: &[u8]) -> (more: bool)
        requires
            old(self).wf(),
        ensures
            final(self).wf(),
            ({
                let n = min_of(
                    data@.len() as int,
                    old(self).recv_buffer.limit() - old(self).recv_buffer@.len(),
                );
                &&& final(self).recv_buffer@ == old(self).recv_buffer@ + data@.take(n)
                &&& final(self).recv_buffer.limit() == old(self).recv_buffer.limit()
                &&& more == (data@.len() > 0 && n == data@.len())
            }),
            *final(self) == (SocketStreamHandle {
                recv_buffer: final(self).recv_buffer,
                ..*old(self)
            }),
    {
        let written: usize = self.recv_buffer.enqueue_slice(data);
        data.len() > 0 && written == data.len()
    }

    /// Takes note of what the socket can still do once its handshake is over. Returns whether the
    /// reader and the writer are to be woken.
    pub fn on_socket_halves(&mut self, past_handshake: bool, may_recv: bool, may_send: bool) -> (res:
        (bool, bool))
        ensures
            res == (past_handshake && !may_recv, past_handshake && !may_send),
            *final(self) == (SocketStreamHandle {
                read_closed: old(self).read_closed || past_handshake && !may_recv,
                write_closed: old(self).write_closed || past_handshake && !may_send,
                ..*old(self)
            }),
    {
        let wake_reader: bool = past_handshake && !may_recv;
        let wake_writer: bool = past_handshake && !may_send;
        if wake_reader {
            self.read_closed = true;
        }
        if wake_writer {
            self.write_closed = true;
        }
        (wake_reader, wake_writer)
    }

    /// The socket is gone.
    pub fn on_socket_closed(&mut self)
        ensures
            *final(self) == (SocketStreamHandle {
                socket_closed: true,
                read_closed: true,
                write_closed: true,
                ..*old(self)
            }),
    {
        self.socket_closed = true;
        self.read_closed = true;
        self.write_closed = true;
    }
}

/// What the stack took is no longer queued, and what it did not take is, in the same order.
pub proof fn stack_takes_a_prefix(queued: Seq<u8>, sent: int)
    requires
        0 <= sent <= queued.len(),
    ensures
        queued.take(sent) + queued.skip(sent) == queued,
{
    assert(queued.take(sent) + queued.skip(sent) =~= queued);
}

/// The manager is told of an event once: not again until it has taken note. Events of the three kinds
/// do not touch each other.
pub proof fn events_are_told_once(
    stream: SocketStreamHandle,
    kind: SocketEventKind,
    other: SocketEventKind,
    queued: bool,
)
    ensures
        stream.with_queued(kind, true).event(kind) is None,
        stream.with_queued(kind, false).event(kind) == Some(
            SocketEvent { handle: stream.handle, kind },
        ),
        other != kind ==> stream.with_queued(kind, queued).event(other) == stream.event(other),
        stream.with_queued(kind, queued).recv_buffer == stream.recv_buffer,
        stream.with_queued(kind, queued).send_buffer == stream.send_buffer,
        stream.with_queued(kind, queued).handle == stream.handle,
        stream.with_queued(kind, queued).write_shutdown == stream.write_shutdown,
        stream.with_queued(kind, queued).socket_closed == stream.socket_closed,
        stream.with_queued(kind, queued).read_closed == stream.read_closed,
        stream.with_queued(kind, queued).write_closed == stream.write_closed,
        stream.with_queued(kind, queued).socket_dropped == stream.socket_dropped,
        kind != other ==> kind.mask() != other.mask(),
{
}

/// The bits of the events are 1, 2 and 4.
pub proof fn bits_of_events()
    ensures
        SocketEventKind::ReadReady.mask() == 1,
        SocketEventKind::WriteReady.mask() == 2,
        SocketEventKind::Closed.mask() == 4,
{
}

/// A stream that has ended is closed both ways, and keeps what it holds.
pub proof fn an_ended_stream_is_closed(stream: StreamView)
    ensures
        stream.ended().socket_closed,
        stream.ended().read_closed,
        stream.ended().write_closed,
        stream.ended().recv == stream.recv,
        stream.ended().send == stream.send,
        stream.ended().recv_limit == stream.recv_limit,
        stream.ended().send_limit == stream.send_limit,
        stream.ended().handle == stream.handle,
        stream.ended().write_shutdown == stream.write_shutdown,
        stream.ended().socket_dropped == stream.socket_dropped,
{
}

} // verus!
