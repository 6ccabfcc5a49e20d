//! The signature-checked channel.
//!
//! A server waits for a client whose values have the same layout as its own.
//! The client announces its layout signature as the first bytes of the
//! connection; the server reads exactly that many bytes from every candidate
//! it accepts and compares. A candidate that announces another signature, or
//! fails before it has announced one, is passed over and the server accepts
//! the next. Nothing is negotiated and nothing is retried within one
//! connection.
//!
//! The waiting is a state machine. The driver accepts and reads on the
//! socket, reports each result as a [`HandshakeEvent`], and does what the
//! [`HandshakeStep`] it gets back says, until that is `Ready` or `Stop`.

use vstd::prelude::*;
use crate::bytes::ByteOrder;
use crate::connection::{frame_len, Opening, Stream, StreamView};
use crate::error::ChannelError;
use crate::frame::FixedLayout;
use crate::layout::{lemma_signature_roundtrip, LayoutSignature};
use crate::transport::{Arrival, Demand, FrameQueue, QueueView, TransportMode};

verus! {

/// What the driver reports to a server that waits for its client.
#[derive(Debug)]
pub enum HandshakeEvent {
    /// The listening socket accepted a candidate.
    Accepted,
    /// The listening socket was shut down or the accept failed.
    AcceptFailed,
    /// A read on the candidate's connection produced this.
    Arrival(Arrival),
}

/// What the driver is to do next for a server that waits for its client.
#[derive(Debug, Clone, Copy, PartialEq, Eq, Structural)]
pub enum HandshakeStep {
    /// Accept the next candidate.
    Accept,
    /// Read from the candidate; the number is how many bytes of its
    /// signature are still missing.
    Read(usize),
    /// Pass the candidate over, for the reason given, and accept the next:
    /// `SignatureMismatch` for a candidate that announced another layout,
    /// `IoError` for one that failed before it had announced any.
    Reject(ChannelError),
    /// A matching client is established.
    Ready,
    /// The listener cannot accept any more; waiting ends with this error.
    Stop(ChannelError),
}

/// Where a server stands, as a mathematical value.
pub enum StageView {
    /// No candidate at hand.
    Listening,
    /// A candidate was accepted and its signature is being read; the queue
    /// holds what arrived of it.
    Verifying(QueueView),
    /// A matching client is established; the endpoint talks to it.
    Connected(StreamView),
}

/// The state of a server as a mathematical value.
pub struct StreamerView {
    /// Byte order of signatures and frames.
    pub order: ByteOrder,
    /// Where the server stands.
    pub stage: StageView,
}

impl StreamerView {
    /// The queue of a candidate that was just accepted.
    pub open spec fn candidate() -> StageView {
        StageView::Verifying(QueueView::fresh(TransportMode::Stream))
    }

    /// What the driver is to do when nothing was reported yet.
    pub open spec fn pending_step(self) -> HandshakeStep {
        match self.stage {
            StageView::Listening => HandshakeStep::Accept,
            StageView::Verifying(queue) => match queue.demand(LayoutSignature::spec_wire_len()) {
                Demand::Read(n) => HandshakeStep::Read(n),
                _ => HandshakeStep::Read(0),
            },
            StageView::Connected(_) => HandshakeStep::Ready,
        }
    }

    /// Where a server for values of `T` stands once a candidate's signature
    /// has arrived in full, and what the driver is to do.
    ///
    /// The first two machine words of what arrived are the signature. If it
    /// is the signature of `T`, the candidate is the client; whatever arrived
    /// behind the signature is the start of its payload. Any other signature
    /// sends the server back to listening.
    pub open spec fn judge<T: FixedLayout>(self, arrived: QueueView) -> (
        StreamerView,
        HandshakeStep,
    ) {
        let len = LayoutSignature::spec_wire_len();
        if LayoutSignature::spec_decode(arrived.front(len), self.order) == Some(
            T::spec_layout(),
        ) {
            (
                StreamerView {
                    stage: StageView::Connected(
                        StreamView { queue: arrived.pop(len), order: self.order },
                    ),
                    ..self
                },
                HandshakeStep::Ready,
            )
        } else {
            (
                StreamerView { stage: StageView::Listening, ..self },
                HandshakeStep::Reject(ChannelError::SignatureMismatch),
            )
        }
    }

    /// One step of waiting for a matching client: the server afterwards, and
    /// what the driver is to do.
    ///
    /// An established client stays established whatever is reported. An
    /// accepted candidate takes the place of any candidate at hand. A failed
    /// accept ends the waiting with `IoError`. What arrives from a candidate
    /// is collected until its signature is whole and then judged; a
    /// candidate that closes, fails or keeps the server waiting before that
    /// is passed over with `IoError`. An arrival with no candidate at hand
    /// changes nothing.
    pub open spec fn step<T: FixedLayout>(self, event: HandshakeEvent) -> (
        StreamerView,
        HandshakeStep,
    ) {
        let len = LayoutSignature::spec_wire_len();
        match self.stage {
            StageView::Connected(_) => (self, HandshakeStep::Ready),
            StageView::Listening => match event {
                HandshakeEvent::Accepted => (
                    StreamerView { stage: Self::candidate(), ..self },
                    HandshakeStep::Read(len as usize),
                ),
                HandshakeEvent::AcceptFailed => (self, HandshakeStep::Stop(ChannelError::IoError)),
                HandshakeEvent::Arrival(_) => (self, HandshakeStep::Accept),
            },
            StageView::Verifying(queue) => match event {
                HandshakeEvent::Accepted => (
                    StreamerView { stage: Self::candidate(), ..self },
                    HandshakeStep::Read(len as usize),
                ),
                HandshakeEvent::AcceptFailed => (
                    StreamerView { stage: StageView::Listening, ..self },
                    HandshakeStep::Stop(ChannelError::IoError),
                ),
                HandshakeEvent::Arrival(arrival) => {
                    let arrived = queue.offer(arrival, len);
                    match arrived.demand_after(arrival, len) {
                        Demand::Deliver => self.judge::<T>(arrived),
                        Demand::Read(n) => (
                            StreamerView { stage: StageView::Verifying(arrived), ..self },
                            HandshakeStep::Read(n),
                        ),
                        _ => (
                            StreamerView { stage: StageView::Listening, ..self },
                            HandshakeStep::Reject(ChannelError::IoError),
                        ),
                    }
                },
            },
        }
    }

    /// The frame that carries `value` to the established client, or
    /// `NoPeerConnected` where there is none.
    pub open spec fn send<T: FixedLayout>(self, value: T) -> Result<Seq<u8>, ChannelError> {
        match self.stage {
            StageView::Connected(peer) => Ok(peer.send(value)),
            _ => Err(ChannelError::NoPeerConnected),
        }
    }
}

#[derive(Debug)]
enum Stage<T> {
    Listening,
    Verifying(FrameQueue),
    Connected(Stream<T>),
}

/// The server side of a signature-checked channel for values of type `T`.
#[derive(Debug)]
pub struct Streamer<T> {
    order: ByteOrder,
    stage: Stage<T>,
}

impl<T> View for Streamer<T> {
    type V = StreamerView;

    closed spec fn view(&self) -> StreamerView {
        StreamerView {
            order: self.order,
            stage: match self.stage {
                Stage::Listening => StageView::Listening,
                Stage::Verifying(queue) => StageView::Verifying(queue@),
                Stage::Connected(peer) => StageView::Connected(peer@),
            },
        }
    }
}

impl<T: FixedLayout> Streamer<T> {
    /// The server for a listening socket that the driver bound.
    ///
    /// Fails with the error that belongs to the driver's report, and starts
    /// out listening, with no client, otherwise.
    pub fn listen(opening: Opening, order: ByteOrder) -> (res: Result<Streamer<T>, ChannelError>)
        ensures
            opening.spec_outcome() is Ok ==> res is Ok && res.unwrap()@ == (StreamerView {
                order,
                stage: StageView::Listening,
            }),
            opening.spec_outcome() is Err ==> res is Err && res->Err_0
                == opening.spec_outcome()->Err_0,
    {
        match opening.outcome() {
            Ok(()) => Ok(Streamer { order, stage: Stage::Listening }),
            Err(e) => Err(e),
        }
    }

    /// Whether a matching client is established.
    pub fn is_connected(&self) -> (connected: bool)
        ensures
            connected == (self@.stage is Connected),
    {
        match &self.stage {
            Stage::Connected(_) => true,
            _ => false,
        }
    }

    /// What the driver is to do when nothing was reported yet.
    pub fn pending_step(&self) -> (step: HandshakeStep)
        ensures
            step == self@.pending_step(),
    {
        match &self.stage {
            Stage::Listening => HandshakeStep::Accept,
            Stage::Verifying(queue) => match queue.demand(LayoutSignature::wire_len()) {
                Demand::Read(n) => HandshakeStep::Read(n),
                _ => HandshakeStep::Read(0),
            },
            Stage::Connected(_) => HandshakeStep::Ready,
        }
    }

    /// One step of waiting for a client whose signature matches: takes in
    /// what the driver reports and says what to do next.
    ///
    /// The driver calls this after every accept and every read, and goes on
    /// until the step is `Ready` or `Stop`. A candidate with another
    /// signature never becomes the client: the step is `Reject` and the
    /// server listens again.
    pub fn await_matching_client(&mut self, event: HandshakeEvent) -> (step: HandshakeStep)
        ensures
            (final(self)@, step) == old(self)@.step::<T>(event),
    {
        let len = LayoutSignature::wire_len();
        let mut stage: Stage<T> = Stage::Listening;
        std::mem::swap(&mut self.stage, &mut stage);
        match stage {
            Stage::Connected(peer) => {
                self.stage = Stage::Connected(peer);
                HandshakeStep::Ready
            },
            Stage::Listening => match event {
                HandshakeEvent::Accepted => {
                    self.stage = Stage::Verifying(FrameQueue::new(TransportMode::Stream));
                    HandshakeStep::Read(len)
                },
                HandshakeEvent::AcceptFailed => HandshakeStep::Stop(ChannelError::IoError),
                HandshakeEvent::Arrival(_) => HandshakeStep::Accept,
            },
            Stage::Verifying(mut queue) => match event {
                HandshakeEvent::Accepted => {
                    self.stage = Stage::Verifying(FrameQueue::new(TransportMode::Stream));
                    HandshakeStep::Read(len)
                },
                HandshakeEvent::AcceptFailed => HandshakeStep::Stop(ChannelError::IoError),
                HandshakeEvent::Arrival(arrival) => match queue.offer(arrival, len) {
                    Demand::Deliver => {
                        let local = T::layout();
                        let announced = queue.take(len);
                        let same = match announced {
                            Some(bytes) => match LayoutSignature::decode(
                                bytes.as_slice(),
                                self.order,
                            ) {
                                Some(sig) => local.matches(&sig),
                                None => false,
                            },
                            None => false,
                        };
                        if same {
                            self.stage = Stage::Connected(Stream::resume(queue, self.order));
                            HandshakeStep::Ready
                        } else {
                            HandshakeStep::Reject(ChannelError::SignatureMismatch)
                        }
                    },
                    Demand::Read(n) => {
                        self.stage = Stage::Verifying(queue);
                        HandshakeStep::Read(n)
                    },
                    _ => HandshakeStep::Reject(ChannelError::IoError),
                },
            },
        }
    }

    /// The frame that carries `value` to the client: the bytes to write, in
    /// one piece. Fails with `NoPeerConnected`, at once, while no client is
    /// established.
    pub fn send(&self, value: &T) -> (res: Result<Vec<u8>, ChannelError>)
        ensures
            self@.stage is Connected ==> res is Ok && Ok::<Seq<u8>, ChannelError>(res.unwrap()@)
                == self@.send(*value) && res.unwrap()@.len() == frame_len::<T>(),
            !(self@.stage is Connected) ==> res == Err::<Vec<u8>, ChannelError>(
                ChannelError::NoPeerConnected,
            ),
    {
        match &self.stage {
            Stage::Connected(peer) => Ok(peer.send(value)),
            _ => Err(ChannelError::NoPeerConnected),
        }
    }

    /// Hands the endpoint of the established client over to the caller and
    /// listens again. Gives `None`, and changes nothing, while no client is
    /// established.
    pub fn take_peer(&mut self) -> (peer: Option<Stream<T>>)
        ensures
            old(self)@.stage is Connected ==> peer is Some && peer.unwrap()@ == old(
                self,
            )@.stage->Connected_0 && final(self)@ == (StreamerView {
                stage: StageView::Listening,
                ..old(self)@
            }),
            !(old(self)@.stage is Connected) ==> peer is None && final(self)@ == old(self)@,
    {
        let mut stage: Stage<T> = Stage::Listening;
        std::mem::swap(&mut self.stage, &mut stage);
        match stage {
            Stage::Connected(peer) => Some(peer),
            Stage::Listening => None,
            Stage::Verifying(queue) => {
                self.stage = Stage::Verifying(queue);
                None
            },
        }
    }
}

/// The client side of a signature-checked channel for values of type `T`.
///
/// Connecting gives the endpoint together with the greeting: the bytes that
/// announce the layout of `T`, which the driver writes before anything else.
#[derive(Debug)]
pub struct Client<T> {
    stream: Stream<T>,
}

impl<T> View for Client<T> {
    type V = StreamView;

    closed spec fn view(&self) -> StreamView {
        self.stream@
    }
}

/// The greeting of a client for values of `T`: the wire image of the layout
/// signature of `T`.
pub open spec fn greeting<T: FixedLayout>(order: ByteOrder) -> Seq<u8> {
    T::spec_layout().spec_encode(order)
}

impl<T: FixedLayout> Client<T> {
    /// The client for a stream connection that the driver opened, and its
    /// greeting.
    ///
    /// Fails with the error that belongs to the driver's report:
    /// `ConnectError` for a server that could not be reached.
    pub fn connect(opening: Opening, order: ByteOrder) -> (res: Result<
        (Client<T>, Vec<u8>),
        ChannelError,
    >)
        ensures
            opening.spec_outcome() is Ok ==> res is Ok && res.unwrap().0@ == StreamView::fresh(
                TransportMode::Stream,
                order,
            ) && res.unwrap().1@ == greeting::<T>(order),
            opening.spec_outcome() is Err ==> res is Err && res->Err_0
                == opening.spec_outcome()->Err_0,
    {
        match opening.outcome() {
            Ok(()) => {
                let stream = Stream::established(TransportMode::Stream, order);
                let hello = T::layout().encode(order);
                Ok((Client { stream }, hello))
            },
            Err(e) => Err(e),
        }
    }

    /// What the driver is to do before a receive, with nothing read yet.
    pub fn demand(&self) -> (demand: Demand)
        ensures
            demand == self@.demand::<T>(),
    {
        self.stream.demand()
    }

    /// Takes in what the driver read and says what to do next.
    pub fn offer(&mut self, arrival: Arrival) -> (demand: Demand)
        ensures
            final(self)@ == old(self)@.offer::<T>(arrival),
            demand == final(self)@.queue.demand_after(arrival, frame_len::<T>()),
    {
        self.stream.offer(arrival)
    }

    /// Receives one value from the server, for a driver that waits for the
    /// transport. Behaves as the receive of a connected endpoint.
    pub fn recv(&mut self) -> (res: Result<T, ChannelError>)
        ensures
            (final(self)@, res) == old(self)@.recv::<T>(),
    {
        self.stream.recv()
    }

    /// Gives up the client for its connected endpoint, which also sends and
    /// probes.
    pub fn into_stream(self) -> (stream: Stream<T>)
        ensures
            stream@ == self@,
    {
        self.stream
    }
}

/// A candidate that announces the signature of `T` to a server for `T`, in
/// the server's byte order, becomes its client, however the transport cuts
/// the greeting in two.
pub proof fn lemma_matching_client_is_accepted<T: FixedLayout>(
    server: StreamerView,
    first: Vec<u8>,
    second: Vec<u8>,
)
    requires
        server.stage == StageView::Listening,
        first@ + second@ == greeting::<T>(server.order),
        second@.len() > 0,
    ensures
        ({
            let accepted = server.step::<T>(HandshakeEvent::Accepted);
            let part = accepted.0.step::<T>(HandshakeEvent::Arrival(Arrival::Bytes(first)));
            let whole = part.0.step::<T>(HandshakeEvent::Arrival(Arrival::Bytes(second)));
            &&& accepted.1 == HandshakeStep::Read(LayoutSignature::spec_wire_len() as usize)
            &&& part.1 == HandshakeStep::Read(second@.len() as usize)
            &&& whole.1 == HandshakeStep::Ready
            &&& whole.0.stage == StageView::Connected(
                StreamView::fresh(TransportMode::Stream, server.order),
            )
        }),
{
    let len = LayoutSignature::spec_wire_len();
    lemma_signature_roundtrip(T::spec_layout(), server.order);
    let fresh = QueueView::fresh(TransportMode::Stream);
    let one = fresh.offer(Arrival::Bytes(first), len);
    let two = one.offer(Arrival::Bytes(second), len);
    assert(one.pending =~= first@);
    assert(two.pending =~= first@ + second@);
    assert(two.front(len) =~= greeting::<T>(server.order));
    assert(two.pop(len).pending =~= Seq::<u8>::empty());
    assert(two.pop(len) == fresh);
}

/// A candidate built for values of `A` never becomes the client of a server
/// for values of `B` when the two layouts differ in size or alignment. The
/// server passes it over with `SignatureMismatch`, listens again, and the
/// next candidate it accepts is judged like the first.
pub proof fn lemma_mismatched_client_is_rejected<A: FixedLayout, B: FixedLayout>(
    server: StreamerView,
    hello: Vec<u8>,
    value: B,
)
    requires
        server.stage == StageView::Listening,
        A::spec_layout() != B::spec_layout(),
        hello@ == greeting::<A>(server.order),
    ensures
        ({
            let accepted = server.step::<B>(HandshakeEvent::Accepted);
            let judged = accepted.0.step::<B>(HandshakeEvent::Arrival(Arrival::Bytes(hello)));
            &&& judged.1 == HandshakeStep::Reject(ChannelError::SignatureMismatch)
            &&& judged.0 == server
            &&& judged.0.send::<B>(value) == Err::<Seq<u8>, ChannelError>(
                ChannelError::NoPeerConnected,
            )
            &&& judged.0.step::<B>(HandshakeEvent::Accepted) == accepted
        }),
{
    let len = LayoutSignature::spec_wire_len();
    lemma_signature_roundtrip(A::spec_layout(), server.order);
    let fresh = QueueView::fresh(TransportMode::Stream);
    let one = fresh.offer(Arrival::Bytes(hello), len);
    assert(one.pending =~= hello@);
    assert(one.front(len) =~= hello@);
}

/// Whatever a server is told, it has a client afterwards only if it had one
/// before or the step it answers with is `Ready`; and a send fails with
/// `NoPeerConnected` exactly while it has none.
pub proof fn lemma_no_peer_no_send<T: FixedLayout>(
    server: StreamerView,
    event: HandshakeEvent,
    value: T,
)
    ensures
        server.send(value) is Err <==> !(server.stage is Connected),
        server.send(value) is Err ==> server.send(value) == Err::<Seq<u8>, ChannelError>(
            ChannelError::NoPeerConnected,
        ),
        server.step::<T>(event).0.stage is Connected <==> server.step::<T>(event).1
            == HandshakeStep::Ready,
        server.stage is Connected ==> server.step::<T>(event).0 == server,
{
}

} // verus!
