//! The general stream channel: a listener, the sequence of connections it
//! accepts, and the connected endpoint that sends and receives values of one
//! type.

use vstd::prelude::*;
use std::marker::PhantomData;
use crate::bytes::ByteOrder;
use crate::error::ChannelError;
use crate::frame::FixedLayout;
use crate::layout::LayoutSignature;
use crate::transport::{Arrival, Demand, FrameQueue, QueueView, TransportMode};

verus! {

/// A control signal: one of three commands, one byte on the wire.
#[derive(Debug, Clone, Copy, PartialEq, Eq, Structural)]
pub enum CtrlSignal {
    /// Wire tag 0.
    Start,
    /// Wire tag 1.
    Stop,
    /// Wire tag 2.
    Reset,
}

impl CtrlSignal {
    /// The wire tag of a signal.
    pub open spec fn spec_tag(&self) -> u8 {
        match self {
            CtrlSignal::Start => 0,
            CtrlSignal::Stop => 1,
            CtrlSignal::Reset => 2,
        }
    }

    /// The signal that a wire tag names, or `InvalidEnumTag` with the byte
    /// for a tag that names none.
    pub open spec fn spec_from_tag(tag: u8) -> Result<CtrlSignal, ChannelError> {
        if tag == 0 {
            Ok(CtrlSignal::Start)
        } else if tag == 1 {
            Ok(CtrlSignal::Stop)
        } else if tag == 2 {
            Ok(CtrlSignal::Reset)
        } else {
            Err(ChannelError::InvalidEnumTag(tag))
        }
    }

    /// The wire tag of the signal.
    pub fn tag(&self) -> (tag: u8)
        ensures
            tag == self.spec_tag(),
            tag <= 2,
    {
        match self {
            CtrlSignal::Start => 0,
            CtrlSignal::Stop => 1,
            CtrlSignal::Reset => 2,
        }
    }

    /// Decodes a wire tag. Tags 0, 1 and 2 give `Start`, `Stop` and `Reset`;
    /// every other byte is refused.
    pub fn from_tag(tag: u8) -> (res: Result<CtrlSignal, ChannelError>)
        ensures
            res == Self::spec_from_tag(tag),
            tag == 0 ==> res == Ok::<CtrlSignal, ChannelError>(CtrlSignal::Start),
            tag == 1 ==> res == Ok::<CtrlSignal, ChannelError>(CtrlSignal::Stop),
            tag == 2 ==> res == Ok::<CtrlSignal, ChannelError>(CtrlSignal::Reset),
            tag > 2 ==> res == Err::<CtrlSignal, ChannelError>(ChannelError::InvalidEnumTag(tag)),
    {
        match tag {
            0 => Ok(CtrlSignal::Start),
            1 => Ok(CtrlSignal::Stop),
            2 => Ok(CtrlSignal::Reset),
            _ => Err(ChannelError::InvalidEnumTag(tag)),
        }
    }
}

/// Decoding is the inverse of tagging, and the three tags are the only bytes
/// that decode.
pub proof fn lemma_ctrl_signal_tags(signal: CtrlSignal, tag: u8)
    ensures
        CtrlSignal::spec_from_tag(signal.spec_tag()) == Ok::<CtrlSignal, ChannelError>(signal),
        CtrlSignal::spec_from_tag(tag) is Ok <==> tag <= 2,
        CtrlSignal::spec_from_tag(tag) is Ok ==> CtrlSignal::spec_from_tag(tag).unwrap().spec_tag()
            == tag,
        CtrlSignal::spec_from_tag(tag) is Err ==> CtrlSignal::spec_from_tag(tag)
            == Err::<CtrlSignal, ChannelError>(ChannelError::InvalidEnumTag(tag)),
{
}

impl FixedLayout for CtrlSignal {
    open spec fn spec_layout() -> LayoutSignature {
        LayoutSignature { size: 1, alignment: 1 }
    }

    open spec fn spec_bytes(&self, order: ByteOrder) -> Seq<u8> {
        seq![self.spec_tag()]
    }

    open spec fn spec_parse(bytes: Seq<u8>, order: ByteOrder) -> Result<Self, ChannelError> {
        CtrlSignal::spec_from_tag(bytes[0])
    }

    proof fn lemma_image_len(&self, order: ByteOrder) {
    }

    proof fn lemma_parse_of_image(&self, order: ByteOrder) {
    }

    proof fn lemma_image_of_parse(bytes: Seq<u8>, order: ByteOrder) {
        assert(seq![bytes[0]] =~= bytes);
    }

    proof fn lemma_parse_failure(bytes: Seq<u8>, order: ByteOrder) {
    }

    fn layout() -> (sig: LayoutSignature) {
        LayoutSignature::new(1, 1)
    }

    fn to_bytes(&self, order: ByteOrder) -> (out: Vec<u8>) {
        let mut out: Vec<u8> = Vec::new();
        out.push(self.tag());
        proof {
            assert(out@ =~= seq![self.spec_tag()]);
        }
        out
    }

    fn from_bytes(bytes: &[u8], order: ByteOrder) -> (res: Result<Self, ChannelError>) {
        CtrlSignal::from_tag(bytes[0])
    }
}

/// How setting up a socket ended, as the driver reports it.
#[derive(Debug, Clone, Copy, PartialEq, Eq, Structural)]
pub enum Opening {
    /// The socket is bound or connected as asked.
    Ready,
    /// The local address could not be bound.
    BindFailed,
    /// The peer could not be reached.
    ConnectFailed,
}

impl Opening {
    /// The result that a channel constructor gives for this report.
    pub open spec fn spec_outcome(self) -> Result<(), ChannelError> {
        match self {
            Opening::Ready => Ok(()),
            Opening::BindFailed => Err(ChannelError::BindError),
            Opening::ConnectFailed => Err(ChannelError::ConnectError),
        }
    }

    /// Maps the report to the error taxonomy of the channels.
    pub fn outcome(self) -> (res: Result<(), ChannelError>)
        ensures
            res == self.spec_outcome(),
    {
        match self {
            Opening::Ready => Ok(()),
            Opening::BindFailed => Err(ChannelError::BindError),
            Opening::ConnectFailed => Err(ChannelError::ConnectError),
        }
    }
}

/// The state of a connected endpoint as a mathematical value.
pub struct StreamView {
    /// The receiving side.
    pub queue: QueueView,
    /// Byte order of the frames, the same in both directions.
    pub order: ByteOrder,
}

/// Length of the frames that carry values of `T`.
pub open spec fn frame_len<T: FixedLayout>() -> nat {
    T::spec_layout().size as nat
}

impl StreamView {
    /// An endpoint on which nothing has happened yet.
    pub open spec fn fresh(mode: TransportMode, order: ByteOrder) -> StreamView {
        StreamView { queue: QueueView::fresh(mode), order }
    }

    /// The frame that carries `item` from this endpoint.
    pub open spec fn send<T: FixedLayout>(self, item: T) -> Seq<u8> {
        item.spec_bytes(self.order)
    }

    /// What the driver is to do before a receive of a `T`, with nothing read
    /// yet.
    pub open spec fn demand<T: FixedLayout>(self) -> Demand {
        self.queue.demand(frame_len::<T>())
    }

    /// The endpoint after the driver reported an arrival while a `T` was
    /// being received.
    pub open spec fn offer<T: FixedLayout>(self, arrival: Arrival) -> StreamView {
        StreamView { queue: self.queue.offer(arrival, frame_len::<T>()), ..self }
    }

    /// A blocking receive: the endpoint afterwards, and the result.
    ///
    /// The oldest buffered frame is taken and read. With no whole frame
    /// buffered the receive fails with `IoError`, which also answers for any
    /// recorded failure of the transport.
    pub open spec fn recv<T: FixedLayout>(self) -> (StreamView, Result<T, ChannelError>) {
        if self.queue.has_frame(frame_len::<T>()) {
            (
                StreamView { queue: self.queue.pop(frame_len::<T>()), ..self },
                T::spec_parse(self.queue.front(frame_len::<T>()), self.order),
            )
        } else {
            (StreamView { queue: self.queue.settle(), ..self }, Err(ChannelError::IoError))
        }
    }

    /// A non-blocking probe: the endpoint afterwards, and the result.
    ///
    /// The oldest buffered frame is taken and read. With no whole frame
    /// buffered the probe fails with `IoError` if the transport reported a
    /// failure, and otherwise reports that there is no data and changes
    /// nothing.
    pub open spec fn try_recv<T: FixedLayout>(self) -> (
        StreamView,
        Result<Option<T>, ChannelError>,
    ) {
        if self.queue.has_frame(frame_len::<T>()) {
            (
                StreamView { queue: self.queue.pop(frame_len::<T>()), ..self },
                match T::spec_parse(self.queue.front(frame_len::<T>()), self.order) {
                    Ok(value) => Ok(Some(value)),
                    Err(e) => Err(e),
                },
            )
        } else if self.queue.fault {
            (StreamView { queue: self.queue.settle(), ..self }, Err(ChannelError::IoError))
        } else {
            (self, Ok(None))
        }
    }
}

/// A connected endpoint for values of type `T`.
///
/// The endpoint frames what is sent and reassembles what is received. It
/// owns no socket: `send` returns the bytes to write, and the driver reports
/// what it read through `offer`.
#[derive(Debug)]
pub struct Stream<T> {
    queue: FrameQueue,
    order: ByteOrder,
    _marker: PhantomData<T>,
}

impl<T> View for Stream<T> {
    type V = StreamView;

    closed spec fn view(&self) -> StreamView {
        StreamView { queue: self.queue@, order: self.order }
    }
}

impl<T: FixedLayout> Stream<T> {
    /// An endpoint over a transport that is already established.
    pub(crate) fn established(mode: TransportMode, order: ByteOrder) -> (stream: Stream<T>)
        ensures
            stream@ == StreamView::fresh(mode, order),
    {
        Stream { queue: FrameQueue::new(mode), order, _marker: PhantomData }
    }

    /// An endpoint that goes on from what a queue has taken in already.
    pub(crate) fn resume(queue: FrameQueue, order: ByteOrder) -> (stream: Stream<T>)
        ensures
            stream@ == (StreamView { queue: queue@, order }),
    {
        Stream { queue, order, _marker: PhantomData }
    }

    /// The endpoint of a stream connection that the driver opened.
    ///
    /// Fails with the error that belongs to the driver's report, and gives a
    /// fresh endpoint over a stream transport otherwise.
    pub fn connect(opening: Opening, order: ByteOrder) -> (res: Result<Stream<T>, ChannelError>)
        ensures
            opening.spec_outcome() is Ok ==> res is Ok && res.unwrap()@ == StreamView::fresh(
                TransportMode::Stream,
                order,
            ),
            opening.spec_outcome() is Err ==> res is Err && res->Err_0
                == opening.spec_outcome()->Err_0,
    {
        match opening.outcome() {
            Ok(()) => Ok(Stream::established(TransportMode::Stream, order)),
            Err(e) => Err(e),
        }
    }

    /// The endpoint of a connected datagram pair that the driver bound to a
    /// local address and fixed on one remote.
    ///
    /// Fails with the error that belongs to the driver's report, and gives a
    /// fresh endpoint over a datagram transport otherwise.
    pub fn pair(opening: Opening, order: ByteOrder) -> (res: Result<Stream<T>, ChannelError>)
        ensures
            opening.spec_outcome() is Ok ==> res is Ok && res.unwrap()@ == StreamView::fresh(
                TransportMode::Datagram,
                order,
            ),
            opening.spec_outcome() is Err ==> res is Err && res->Err_0
                == opening.spec_outcome()->Err_0,
    {
        match opening.outcome() {
            Ok(()) => Ok(Stream::established(TransportMode::Datagram, order)),
            Err(e) => Err(e),
        }
    }

    /// The frame that carries `item`: the bytes to write to the transport, in
    /// one piece.
    pub fn send(&self, item: &T) -> (frame: Vec<u8>)
        ensures
            frame@ == self@.send(*item),
            frame@.len() == frame_len::<T>(),
    {
        proof {
            item.lemma_image_len(self.order);
        }
        item.to_bytes(self.order)
    }

    /// What the driver is to do before a receive, with nothing read yet.
    pub fn demand(&self) -> (demand: Demand)
        ensures
            demand == self@.demand::<T>(),
    {
        self.queue.demand(T::layout().size)
    }

    /// Takes in what the driver read and says what to do next.
    pub fn offer(&mut self, arrival: Arrival) -> (demand: Demand)
        ensures
            final(self)@ == old(self)@.offer::<T>(arrival),
            demand == final(self)@.queue.demand_after(arrival, frame_len::<T>()),
    {
        self.queue.offer(arrival, T::layout().size)
    }

    /// Receives one value, for a driver that waits for the transport.
    ///
    /// Gives the value of the oldest buffered frame. Fails with `IoError`
    /// when no whole frame is buffered, as after a closed or failed
    /// transport, and with `InvalidEnumTag` when the frame is no value of
    /// `T`; the frame is consumed either way.
    pub fn recv(&mut self) -> (res: Result<T, ChannelError>)
        ensures
            (final(self)@, res) == old(self)@.recv::<T>(),
    {
        match self.queue.take(T::layout().size) {
            Some(frame) => T::from_bytes(frame.as_slice(), self.order),
            None => {
                self.queue.settle();
                Err(ChannelError::IoError)
            },
        }
    }

    /// Probes for one value without waiting.
    ///
    /// Gives the value of the oldest buffered frame, if a whole one is
    /// buffered. Otherwise reports `None`, or fails with `IoError` if the
    /// transport reported a failure.
    pub fn try_recv(&mut self) -> (res: Result<Option<T>, ChannelError>)
        ensures
            (final(self)@, res) == old(self)@.try_recv::<T>(),
    {
        match self.queue.take(T::layout().size) {
            Some(frame) => match T::from_bytes(frame.as_slice(), self.order) {
                Ok(value) => Ok(Some(value)),
                Err(e) => Err(e),
            },
            None => {
                if self.queue.settle() {
                    Err(ChannelError::IoError)
                } else {
                    Ok(None)
                }
            },
        }
    }
}

/// What one accept on the listening socket produced, as the driver reports
/// it.
#[derive(Debug, Clone, Copy, PartialEq, Eq, Structural)]
pub enum AcceptEvent {
    /// A peer connected.
    Connected,
    /// The listening socket was shut down.
    ListenerClosed,
    /// The accept failed in any other way.
    Failed,
}

/// Why a sequence of accepted connections came to its end.
#[derive(Debug, Clone, Copy, PartialEq, Eq, Structural)]
pub enum Termination {
    /// The listening socket was shut down: no sequence can yield again.
    ListenerClosed,
    /// One accept failed: a new sequence from the same listener may yield.
    AcceptFailed,
}

/// A listening endpoint for connections that carry values of type `T`.
///
/// A listener holds no payload. It only makes connected endpoints, which
/// belong to the caller from then on.
#[derive(Debug)]
pub struct Listener<T> {
    order: ByteOrder,
    _marker: PhantomData<T>,
}

/// The state of an accept sequence as a mathematical value.
pub struct IncommingView {
    /// Byte order that the accepted endpoints get.
    pub order: ByteOrder,
    /// Why the sequence ended, once it has.
    pub ended: Option<Termination>,
}

impl IncommingView {
    /// One pull on the sequence: the sequence afterwards, and the endpoint
    /// it yields, if any.
    ///
    /// A sequence that has ended yields nothing more and stays as it is. A
    /// connected peer becomes a fresh endpoint over a stream transport. Any
    /// other report ends the sequence and records which one it was.
    pub open spec fn next(self, event: AcceptEvent) -> (IncommingView, Option<StreamView>) {
        if self.ended is Some {
            (self, None)
        } else {
            match event {
                AcceptEvent::Connected => (
                    self,
                    Some(StreamView::fresh(TransportMode::Stream, self.order)),
                ),
                AcceptEvent::ListenerClosed => (
                    IncommingView { ended: Some(Termination::ListenerClosed), ..self },
                    None,
                ),
                AcceptEvent::Failed => (
                    IncommingView { ended: Some(Termination::AcceptFailed), ..self },
                    None,
                ),
            }
        }
    }
}

/// The connections that a listener accepts, one per pull, until an accept
/// fails.
#[derive(Debug)]
pub struct Incomming<T> {
    order: ByteOrder,
    ended: Option<Termination>,
    _marker: PhantomData<T>,
}

impl<T> View for Incomming<T> {
    type V = IncommingView;

    closed spec fn view(&self) -> IncommingView {
        IncommingView { order: self.order, ended: self.ended }
    }
}

impl<T: FixedLayout> Listener<T> {
    /// Byte order that the accepted endpoints get.
    pub closed spec fn spec_order(&self) -> ByteOrder {
        self.order
    }

    /// The listener for a socket that the driver bound.
    ///
    /// Fails with the error that belongs to the driver's report: `BindError`
    /// for an address that could not be bound.
    pub fn listen(opening: Opening, order: ByteOrder) -> (res: Result<Listener<T>, ChannelError>)
        ensures
            opening.spec_outcome() is Ok ==> res is Ok && res.unwrap().spec_order() == order,
            opening.spec_outcome() is Err ==> res is Err && res->Err_0
                == opening.spec_outcome()->Err_0,
    {
        match opening.outcome() {
            Ok(()) => Ok(Listener { order, _marker: PhantomData }),
            Err(e) => Err(e),
        }
    }

    /// Byte order that the accepted endpoints get.
    pub fn order(&self) -> (order: ByteOrder)
        ensures
            order == self.spec_order(),
    {
        self.order
    }

    /// A new sequence of accepted connections. It has not ended, whatever
    /// became of earlier ones.
    pub fn incomming(&self) -> (accepted: Incomming<T>)
        ensures
            accepted@ == (IncommingView { order: self.spec_order(), ended: None }),
    {
        Incomming { order: self.order, ended: None, _marker: PhantomData }
    }
}

impl<T: FixedLayout> Incomming<T> {
    /// Pulls the next connection, given what the accept produced.
    ///
    /// Yields a fresh endpoint for a connected peer. Yields `None` for
    /// every other report and from then on; `termination` tells the two
    /// causes apart.
    pub fn next(&mut self, event: AcceptEvent) -> (res: Option<Stream<T>>)
        ensures
            final(self)@ == old(self)@.next(event).0,
            res is Some <==> old(self)@.next(event).1 is Some,
            res is Some ==> res.unwrap()@ == old(self)@.next(event).1.unwrap(),
    {
        if self.ended.is_some() {
            return None;
        }
        match event {
            AcceptEvent::Connected => Some(Stream::established(TransportMode::Stream, self.order)),
            AcceptEvent::ListenerClosed => {
                self.ended = Some(Termination::ListenerClosed);
                None
            },
            AcceptEvent::Failed => {
                self.ended = Some(Termination::AcceptFailed);
                None
            },
        }
    }

    /// Why the sequence ended, or `None` while it may still yield.
    pub fn termination(&self) -> (cause: Option<Termination>)
        ensures
            cause == self@.ended,
    {
        self.ended
    }
}

/// A value that one endpoint sends and the transport delivers whole is what
/// the peer receives, where both ends use one byte order and the peer had
/// nothing buffered. The frame that the peer would send for the received
/// value is the frame that arrived, byte for byte, and nothing is left
/// buffered.
pub proof fn lemma_round_trip<T: FixedLayout>(
    sender: StreamView,
    receiver: StreamView,
    item: T,
    wire: Vec<u8>,
)
    requires
        sender.order == receiver.order,
        receiver.queue.pending.len() == 0,
        wire@ == sender.send(item),
    ensures
        receiver.offer::<T>(Arrival::Bytes(wire)).recv::<T>().1 == Ok::<T, ChannelError>(item),
        receiver.offer::<T>(Arrival::Bytes(wire)).try_recv::<T>().1 == Ok::<
            Option<T>,
            ChannelError,
        >(Some(item)),
        receiver.offer::<T>(Arrival::Bytes(wire)).queue.demand_after(
            Arrival::Bytes(wire),
            frame_len::<T>(),
        ) == Demand::Deliver,
        receiver.offer::<T>(Arrival::Bytes(wire)).recv::<T>().0.queue.pending.len() == 0,
        receiver.send(item) == wire@,
{
    item.lemma_image_len(sender.order);
    item.lemma_parse_of_image(sender.order);
    let got = receiver.offer::<T>(Arrival::Bytes(wire));
    assert(got.queue.pending =~= wire@);
    assert(got.queue.front(frame_len::<T>()) =~= wire@);
}

/// A stream may deliver a frame in two pieces, cut anywhere. After the first
/// piece the endpoint asks for exactly what is missing and a probe sees no
/// data; after the second the value is received as it was sent.
pub proof fn lemma_round_trip_in_pieces<T: FixedLayout>(
    sender: StreamView,
    receiver: StreamView,
    item: T,
    first: Vec<u8>,
    second: Vec<u8>,
)
    requires
        sender.order == receiver.order,
        receiver.queue.mode == TransportMode::Stream,
        receiver.queue.pending.len() == 0,
        !receiver.queue.fault,
        first@ + second@ == sender.send(item),
        second@.len() > 0,
    ensures
        receiver.offer::<T>(Arrival::Bytes(first)).queue.demand_after(
            Arrival::Bytes(first),
            frame_len::<T>(),
        ) == Demand::Read(second@.len() as usize),
        receiver.offer::<T>(Arrival::Bytes(first)).try_recv::<T>() == (
            receiver.offer::<T>(Arrival::Bytes(first)),
            Ok::<Option<T>, ChannelError>(None),
        ),
        receiver.offer::<T>(Arrival::Bytes(first)).offer::<T>(Arrival::Bytes(second)).recv::<T>().1
            == Ok::<T, ChannelError>(item),
{
    item.lemma_image_len(sender.order);
    item.lemma_parse_of_image(sender.order);
    let wire = first@ + second@;
    let one = receiver.offer::<T>(Arrival::Bytes(first));
    let two = one.offer::<T>(Arrival::Bytes(second));
    assert(one.queue.pending =~= first@);
    assert(two.queue.pending =~= wire);
    assert(two.queue.front(frame_len::<T>()) =~= wire);
}

/// A probe on an endpoint that has nothing buffered and saw no failure
/// reports no data and changes nothing, also after a read that would have
/// had to wait. Once one frame has arrived, exactly one probe gives its
/// value; the probes after it report no data again. Types whose frames are
/// empty are left out: their frames need no bytes to arrive.
pub proof fn lemma_probe_sees_each_frame_once<T: FixedLayout>(
    sender: StreamView,
    receiver: StreamView,
    item: T,
    wire: Vec<u8>,
)
    requires
        frame_len::<T>() > 0,
        sender.order == receiver.order,
        receiver.queue.pending.len() == 0,
        !receiver.queue.fault,
        wire@ == sender.send(item),
    ensures
        receiver.try_recv::<T>() == (receiver, Ok::<Option<T>, ChannelError>(None)),
        receiver.offer::<T>(Arrival::WouldBlock).try_recv::<T>() == (
            receiver,
            Ok::<Option<T>, ChannelError>(None),
        ),
        receiver.offer::<T>(Arrival::WouldBlock).queue.demand_after(
            Arrival::WouldBlock,
            frame_len::<T>(),
        ) == Demand::Idle,
        receiver.offer::<T>(Arrival::Bytes(wire)).try_recv::<T>().1 == Ok::<
            Option<T>,
            ChannelError,
        >(Some(item)),
        receiver.offer::<T>(Arrival::Bytes(wire)).try_recv::<T>().0.try_recv::<T>().1 == Ok::<
            Option<T>,
            ChannelError,
        >(None),
        receiver.offer::<T>(Arrival::Bytes(wire)).try_recv::<T>().0.try_recv::<T>().0
            == receiver.offer::<T>(Arrival::Bytes(wire)).try_recv::<T>().0,
{
    item.lemma_image_len(sender.order);
    item.lemma_parse_of_image(sender.order);
    let got = receiver.offer::<T>(Arrival::Bytes(wire));
    assert(got.queue.pending =~= wire@);
    assert(got.queue.front(frame_len::<T>()) =~= wire@);
    let after = got.try_recv::<T>().0;
    assert(after.queue.pending.len() == 0);
}

/// A receive never exposes part of a frame: with fewer bytes buffered than
/// one frame, a blocking receive fails with `IoError` and a probe either
/// reports no data or fails with `IoError`, and neither consumes a byte.
pub proof fn lemma_no_partial_frame<T: FixedLayout>(endpoint: StreamView)
    requires
        endpoint.queue.pending.len() < frame_len::<T>(),
    ensures
        endpoint.recv::<T>().1 == Err::<T, ChannelError>(ChannelError::IoError),
        endpoint.recv::<T>().0.queue.pending == endpoint.queue.pending,
        endpoint.try_recv::<T>().1 == (if endpoint.queue.fault {
            Err::<Option<T>, ChannelError>(ChannelError::IoError)
        } else {
            Ok::<Option<T>, ChannelError>(None)
        }),
        endpoint.try_recv::<T>().0.queue.pending == endpoint.queue.pending,
{
}

} // verus!
