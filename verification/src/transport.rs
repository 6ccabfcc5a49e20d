//! What a channel sees of its transport.
//!
//! A connection-oriented stream and a connected datagram pair are driven the
//! same way. The driver reads from the socket and reports each result as an
//! [`Arrival`]; the endpoint answers with a [`Demand`] that says what to do
//! next. In between sits a [`FrameQueue`], which turns what arrived into
//! whole frames: a stream may deliver a frame in pieces, a datagram is one
//! frame or nothing.

use vstd::prelude::*;

verus! {

/// The kind of transport under a channel, fixed when the channel is made.
#[derive(Debug, Clone, Copy, PartialEq, Eq, Structural)]
pub enum TransportMode {
    /// A connection-oriented byte stream: ordered, and free to split or join
    /// what was written.
    Stream,
    /// A connected datagram pair: every arrival is one datagram as it was
    /// sent, with no promise of order or delivery.
    Datagram,
}

/// What one read on the transport produced.
#[derive(Debug)]
pub enum Arrival {
    /// Bytes were read: on a stream any number of them, on a datagram pair
    /// one datagram.
    Bytes(Vec<u8>),
    /// The read would have had to wait, and the transport was not to wait.
    WouldBlock,
    /// The peer closed the transport.
    Closed,
    /// The read failed in any other way.
    Failed,
}

/// What the driver is to do next for a receiving endpoint.
#[derive(Debug, Clone, Copy, PartialEq, Eq, Structural)]
pub enum Demand {
    /// Read from the transport and report the arrival. The number is how many
    /// bytes are still missing from the frame in progress.
    Read(usize),
    /// A whole frame is buffered: receive it.
    Deliver,
    /// The transport has nothing at the moment and no frame is buffered.
    Idle,
    /// The transport failed and no frame is buffered.
    Fail,
}

/// The state of a frame queue as a mathematical value.
pub struct QueueView {
    /// Kind of transport that feeds the queue.
    pub mode: TransportMode,
    /// Bytes that arrived and were not handed out yet, oldest first.
    pub pending: Seq<u8>,
    /// Whether a failure was reported that no receive has answered for yet.
    pub fault: bool,
}

impl QueueView {
    /// A queue that has seen nothing yet.
    pub open spec fn fresh(mode: TransportMode) -> QueueView {
        QueueView { mode, pending: Seq::empty(), fault: false }
    }

    /// Whether a whole frame of `frame_len` bytes is buffered.
    pub open spec fn has_frame(self, frame_len: nat) -> bool {
        self.pending.len() >= frame_len
    }

    /// Bytes still missing from the frame in progress.
    pub open spec fn missing(self, frame_len: nat) -> nat {
        if self.has_frame(frame_len) {
            0
        } else {
            (frame_len - self.pending.len()) as nat
        }
    }

    /// The oldest buffered frame.
    pub open spec fn front(self, frame_len: nat) -> Seq<u8>
        recommends
            self.has_frame(frame_len),
    {
        self.pending.subrange(0, frame_len as int)
    }

    /// The queue without its oldest frame.
    pub open spec fn pop(self, frame_len: nat) -> QueueView
        recommends
            self.has_frame(frame_len),
    {
        QueueView {
            pending: self.pending.subrange(frame_len as int, self.pending.len() as int),
            ..self
        }
    }

    /// The queue once a receive has answered for the recorded failure.
    pub open spec fn settle(self) -> QueueView {
        QueueView { fault: false, ..self }
    }

    /// The queue after the driver reported an arrival.
    ///
    /// Bytes from a stream join the pending bytes. A datagram joins them only
    /// if it is exactly one frame long; any other datagram is dropped and
    /// counts as a failure. A read that would block changes nothing. A closed
    /// or failed transport is recorded as a failure; what is buffered stays.
    pub open spec fn offer(self, arrival: Arrival, frame_len: nat) -> QueueView {
        match arrival {
            Arrival::Bytes(bytes) => {
                if self.mode == TransportMode::Stream || bytes@.len() == frame_len {
                    QueueView { pending: self.pending + bytes@, ..self }
                } else {
                    QueueView { fault: true, ..self }
                }
            },
            Arrival::WouldBlock => self,
            Arrival::Closed => QueueView { fault: true, ..self },
            Arrival::Failed => QueueView { fault: true, ..self },
        }
    }

    /// What the driver is to do when nothing was read yet: deliver a buffered
    /// frame, answer for a recorded failure, or read what is missing.
    pub open spec fn demand(self, frame_len: nat) -> Demand {
        if self.has_frame(frame_len) {
            Demand::Deliver
        } else if self.fault {
            Demand::Fail
        } else {
            Demand::Read(self.missing(frame_len) as usize)
        }
    }

    /// What the driver is to do in a queue that has just taken `arrival` in:
    /// as [`QueueView::demand`], but a read that would block ends the reading.
    pub open spec fn demand_after(self, arrival: Arrival, frame_len: nat) -> Demand {
        if !self.has_frame(frame_len) && !self.fault && arrival is WouldBlock {
            Demand::Idle
        } else {
            self.demand(frame_len)
        }
    }
}

/// The receiving side of a connected endpoint: reassembles fixed-size frames
/// from what the transport delivers and never hands out part of one.
///
/// The queue holds bytes only. The length of a frame belongs to the type that
/// the channel carries, and the endpoint passes it in with every call.
#[derive(Debug)]
pub struct FrameQueue {
    mode: TransportMode,
    pending: Vec<u8>,
    fault: bool,
}

impl View for FrameQueue {
    type V = QueueView;

    closed spec fn view(&self) -> QueueView {
        QueueView { mode: self.mode, pending: self.pending@, fault: self.fault }
    }
}

impl FrameQueue {
    /// An empty queue.
    pub fn new(mode: TransportMode) -> (queue: FrameQueue)
        ensures
            queue@ == QueueView::fresh(mode),
    {
        FrameQueue { mode, pending: Vec::new(), fault: false }
    }

    /// The kind of transport that feeds the queue.
    pub fn mode(&self) -> (mode: TransportMode)
        ensures
            mode == self@.mode,
    {
        self.mode
    }

    /// Whether a whole frame is buffered.
    pub fn has_frame(&self, frame_len: usize) -> (ready: bool)
        ensures
            ready == self@.has_frame(frame_len as nat),
    {
        self.pending.len() >= frame_len
    }

    /// What the driver is to do before anything was read.
    pub fn demand(&self, frame_len: usize) -> (demand: Demand)
        ensures
            demand == self@.demand(frame_len as nat),
    {
        if self.pending.len() >= frame_len {
            Demand::Deliver
        } else if self.fault {
            Demand::Fail
        } else {
            Demand::Read(frame_len - self.pending.len())
        }
    }

    /// Takes in what the driver read and says what to do next.
    pub fn offer(&mut self, arrival: Arrival, frame_len: usize) -> (demand: Demand)
        ensures
            final(self)@ == old(self)@.offer(arrival, frame_len as nat),
            demand == final(self)@.demand_after(arrival, frame_len as nat),
    {
        let mut idle = false;
        match arrival {
            Arrival::Bytes(mut bytes) => {
                let whole = match self.mode {
                    TransportMode::Stream => true,
                    TransportMode::Datagram => bytes.len() == frame_len,
                };
                if whole {
                    self.pending.append(&mut bytes);
                } else {
                    self.fault = true;
                }
            },
            Arrival::WouldBlock => {
                idle = true;
            },
            Arrival::Closed => {
                self.fault = true;
            },
            Arrival::Failed => {
                self.fault = true;
            },
        }
        if self.pending.len() >= frame_len {
            Demand::Deliver
        } else if self.fault {
            Demand::Fail
        } else if idle {
            Demand::Idle
        } else {
            Demand::Read(frame_len - self.pending.len())
        }
    }

    /// Hands out the oldest frame, if a whole one is buffered.
    pub fn take(&mut self, frame_len: usize) -> (frame: Option<Vec<u8>>)
        ensures
            old(self)@.has_frame(frame_len as nat) ==> frame is Some && frame.unwrap()@ == old(
                self,
            )@.front(frame_len as nat) && final(self)@ == old(self)@.pop(frame_len as nat),
            !old(self)@.has_frame(frame_len as nat) ==> frame is None && final(self)@ == old(
                self,
            )@,
    {
        if self.pending.len() >= frame_len {
            let mut rest = self.pending.split_off(frame_len);
            std::mem::swap(&mut self.pending, &mut rest);
            Some(rest)
        } else {
            None
        }
    }

    /// Answers for a recorded failure: tells whether there was one and
    /// forgets it.
    pub fn settle(&mut self) -> (fault: bool)
        ensures
            fault == old(self)@.fault,
            final(self)@ == old(self)@.settle(),
    {
        let fault = self.fault;
        self.fault = false;
        fault
    }
}

} // verus!
