//! The homogeneous-array channel: a fixed number of values of one type per
//! frame.
//!
//! The frame of an array is the frames of its elements, one after the other
//! and with nothing in between. Over a stream the frame may arrive in
//! pieces; over a datagram pair one array is one datagram.

use vstd::prelude::*;
use std::marker::PhantomData;
use crate::bytes::ByteOrder;
use crate::connection::{frame_len, Opening, StreamView};
use crate::error::ChannelError;
use crate::frame::FixedLayout;
use crate::transport::{Arrival, Demand, FrameQueue, TransportMode};

verus! {

/// The frame of a sequence of values: the images of the values in order.
pub open spec fn elements_bytes<T: FixedLayout>(values: Seq<T>, order: ByteOrder) -> Seq<u8>
    decreases values.len(),
{
    if values.len() == 0 {
        Seq::empty()
    } else {
        elements_bytes(values.drop_last(), order) + values.last().spec_bytes(order)
    }
}

/// Length of the frame that carries `count` values of `T`.
pub open spec fn array_frame_len<T: FixedLayout>(count: nat) -> nat {
    count * frame_len::<T>()
}

/// What the first `count` element frames in `bytes` are read as: the values,
/// or the reason why the first frame that is no value is none.
pub open spec fn parse_elements<T: FixedLayout>(bytes: Seq<u8>, count: nat, order: ByteOrder)
    -> Result<Seq<T>, ChannelError>
    decreases count,
{
    if count == 0 {
        Ok(Seq::empty())
    } else {
        match parse_elements::<T>(bytes, (count - 1) as nat, order) {
            Err(e) => Err(e),
            Ok(init) => match T::spec_parse(
                bytes.subrange(
                    array_frame_len::<T>((count - 1) as nat) as int,
                    array_frame_len::<T>(count) as int,
                ),
                order,
            ) {
                Ok(value) => Ok(init.push(value)),
                Err(e) => Err(e),
            },
        }
    }
}

/// A receive of `count` values in one frame: the endpoint afterwards, and
/// the result.
///
/// The oldest buffered frame is taken and its elements are read in order.
/// With no whole frame buffered the receive fails with `IoError`, which also
/// answers for any recorded failure of the transport.
pub open spec fn recv_elements<T: FixedLayout>(endpoint: StreamView, count: nat) -> (
    StreamView,
    Result<Seq<T>, ChannelError>,
) {
    let len = array_frame_len::<T>(count);
    if endpoint.queue.has_frame(len) {
        (
            StreamView { queue: endpoint.queue.pop(len), ..endpoint },
            parse_elements::<T>(endpoint.queue.front(len), count, endpoint.order),
        )
    } else {
        (StreamView { queue: endpoint.queue.settle(), ..endpoint }, Err(ChannelError::IoError))
    }
}

/// The frame of no values is empty, and every further value makes the frame
/// longer by one element frame.
pub proof fn lemma_frame_len_step<T: FixedLayout>(count: nat)
    ensures
        array_frame_len::<T>(0) == 0,
        array_frame_len::<T>(count + 1) == array_frame_len::<T>(count) + frame_len::<T>(),
{
    let size = frame_len::<T>();
    assert(0 * size == 0) by (nonlinear_arith);
    assert((count + 1) * size == count * size + size) by (nonlinear_arith);
}

/// Fewer values make no longer a frame.
pub proof fn lemma_frame_len_monotonic<T: FixedLayout>(fewer: nat, more: nat)
    requires
        fewer <= more,
    ensures
        array_frame_len::<T>(fewer) <= array_frame_len::<T>(more),
{
    let size = frame_len::<T>();
    assert(fewer * size <= more * size) by (nonlinear_arith)
        requires
            fewer <= more,
    ;
}

/// The frame of `n` values is `n` element frames long.
pub proof fn lemma_elements_bytes_len<T: FixedLayout>(values: Seq<T>, order: ByteOrder)
    ensures
        elements_bytes(values, order).len() == array_frame_len::<T>(values.len()),
    decreases values.len(),
{
    lemma_frame_len_step::<T>(0);
    if values.len() > 0 {
        lemma_elements_bytes_len(values.drop_last(), order);
        values.last().lemma_image_len(order);
        lemma_frame_len_step::<T>((values.len() - 1) as nat);
    }
}

/// Reading the first `count` elements looks at the first `count` element
/// frames only.
pub proof fn lemma_parse_ignores_rest<T: FixedLayout>(
    bytes: Seq<u8>,
    rest: Seq<u8>,
    count: nat,
    order: ByteOrder,
)
    requires
        bytes.len() >= array_frame_len::<T>(count),
    ensures
        parse_elements::<T>(bytes + rest, count, order) == parse_elements::<T>(
            bytes,
            count,
            order,
        ),
    decreases count,
{
    if count > 0 {
        let fewer = (count - 1) as nat;
        lemma_frame_len_step::<T>(fewer);
        lemma_parse_ignores_rest::<T>(bytes, rest, fewer, order);
        let from = array_frame_len::<T>(fewer) as int;
        let to = array_frame_len::<T>(count) as int;
        assert((bytes + rest).subrange(from, to) =~= bytes.subrange(from, to));
    }
}

/// Reading the frame of a sequence of values gives the values.
pub proof fn lemma_parse_of_elements<T: FixedLayout>(values: Seq<T>, order: ByteOrder)
    ensures
        parse_elements::<T>(elements_bytes(values, order), values.len(), order) == Ok::<
            Seq<T>,
            ChannelError,
        >(values),
    decreases values.len(),
{
    if values.len() > 0 {
        let init = values.drop_last();
        let head = elements_bytes(init, order);
        let tail = values.last().spec_bytes(order);
        lemma_parse_of_elements(init, order);
        lemma_elements_bytes_len(init, order);
        values.last().lemma_image_len(order);
        values.last().lemma_parse_of_image(order);
        lemma_frame_len_step::<T>(init.len());
        lemma_parse_ignores_rest::<T>(head, tail, init.len(), order);
        let from = array_frame_len::<T>(init.len()) as int;
        let to = array_frame_len::<T>(values.len()) as int;
        assert((head + tail).subrange(from, to) =~= tail);
        assert(init.push(values.last()) =~= values);
    } else {
        assert(values =~= Seq::<T>::empty());
    }
}

/// A frame whose elements are all read as values is the frame of those
/// values: reading transforms nothing. There are as many values as
/// elements.
pub proof fn lemma_elements_of_parse<T: FixedLayout>(bytes: Seq<u8>, count: nat, order: ByteOrder)
    requires
        bytes.len() >= array_frame_len::<T>(count),
        parse_elements::<T>(bytes, count, order) is Ok,
    ensures
        parse_elements::<T>(bytes, count, order).unwrap().len() == count,
        elements_bytes(parse_elements::<T>(bytes, count, order).unwrap(), order)
            == bytes.subrange(0, array_frame_len::<T>(count) as int),
    decreases count,
{
    lemma_frame_len_step::<T>(0);
    if count > 0 {
        let fewer = (count - 1) as nat;
        lemma_frame_len_step::<T>(fewer);
        lemma_elements_of_parse::<T>(bytes, fewer, order);
        let from = array_frame_len::<T>(fewer) as int;
        let to = array_frame_len::<T>(count) as int;
        let init = parse_elements::<T>(bytes, fewer, order).unwrap();
        let piece = bytes.subrange(from, to);
        T::lemma_image_of_parse(piece, order);
        let value = T::spec_parse(piece, order).unwrap();
        let all = init.push(value);
        assert(all.drop_last() =~= init);
        assert(bytes.subrange(0, from) + piece =~= bytes.subrange(0, to));
    } else {
        assert(bytes.subrange(0, 0) =~= Seq::<u8>::empty());
    }
}

/// Once an element frame is no value, reading more elements fails for the
/// same reason; and that reason is a tag that names no variant.
pub proof fn lemma_parse_stays_failed<T: FixedLayout>(
    bytes: Seq<u8>,
    failed: nat,
    count: nat,
    order: ByteOrder,
)
    requires
        failed <= count,
        bytes.len() >= array_frame_len::<T>(count),
        parse_elements::<T>(bytes, failed, order) is Err,
    ensures
        parse_elements::<T>(bytes, count, order) == parse_elements::<T>(bytes, failed, order),
        parse_elements::<T>(bytes, count, order)->Err_0 is InvalidEnumTag,
    decreases count,
{
    if failed < count {
        lemma_frame_len_monotonic::<T>((count - 1) as nat, count);
        lemma_parse_stays_failed::<T>(bytes, failed, (count - 1) as nat, order);
    } else if count > 0 {
        let fewer = (count - 1) as nat;
        lemma_frame_len_step::<T>(fewer);
        if parse_elements::<T>(bytes, fewer, order) is Err {
            lemma_parse_stays_failed::<T>(bytes, fewer, fewer, order);
        } else {
            let from = array_frame_len::<T>(fewer) as int;
            let to = array_frame_len::<T>(count) as int;
            T::lemma_parse_failure(bytes.subrange(from, to), order);
        }
    }
}

/// Reads the `count` element frames that make up `frame`, in order, and
/// stops at the first that is no value.
pub fn read_elements<T: FixedLayout>(frame: &[u8], count: usize, order: ByteOrder) -> (res:
    Result<Vec<T>, ChannelError>)
    requires
        frame@.len() == array_frame_len::<T>(count as nat),
    ensures
        match parse_elements::<T>(frame@, count as nat, order) {
            Ok(values) => res is Ok && res.unwrap()@ == values && values.len() == count,
            Err(e) => res == Err::<Vec<T>, ChannelError>(e),
        },
{
    let size = T::layout().size;
    let total = frame.len();
    let mut values: Vec<T> = Vec::new();
    let mut i: usize = 0;
    let mut offset: usize = 0;
    proof {
        lemma_frame_len_step::<T>(0);
    }
    while i < count
        invariant
            i <= count,
            size == frame_len::<T>(),
            offset == array_frame_len::<T>(i as nat),
            total == frame@.len(),
            total == array_frame_len::<T>(count as nat),
            values@.len() == i,
            parse_elements::<T>(frame@, i as nat, order) == Ok::<Seq<T>, ChannelError>(values@),
        decreases count - i,
    {
        proof {
            lemma_frame_len_step::<T>(i as nat);
            lemma_frame_len_monotonic::<T>((i + 1) as nat, count as nat);
        }
        let piece = vstd::slice::slice_subrange(frame, offset, offset + size);
        match T::from_bytes(piece, order) {
            Ok(value) => {
                values.push(value);
            },
            Err(e) => {
                proof {
                    lemma_parse_stays_failed::<T>(frame@, (i + 1) as nat, count as nat, order);
                }
                return Err(e);
            },
        }
        offset = offset + size;
        i = i + 1;
    }
    Ok(values)
}

/// A connected endpoint that carries arrays of `N` values of type `T`, one
/// array per frame.
#[derive(Debug)]
pub struct Connection<const N: usize, T: FixedLayout> {
    queue: FrameQueue,
    order: ByteOrder,
    len: usize,
    _marker: PhantomData<T>,
}

impl<const N: usize, T: FixedLayout> View for Connection<N, T> {
    type V = StreamView;

    closed spec fn view(&self) -> StreamView {
        StreamView { queue: self.queue@, order: self.order }
    }
}

impl<const N: usize, T: FixedLayout> Connection<N, T> {
    #[verifier::type_invariant]
    spec fn frame_fits(self) -> bool {
        self.len == array_frame_len::<T>(N as nat)
    }

    /// The endpoint for a transport that the driver set up, over a stream or
    /// over a datagram pair.
    ///
    /// Fails with the error that belongs to the driver's report. Fails with
    /// `Unsupported` where a frame of `N` values would be longer than the
    /// machine can address. Gives a fresh endpoint otherwise.
    pub fn open(opening: Opening, mode: TransportMode, order: ByteOrder) -> (res: Result<
        Connection<N, T>,
        ChannelError,
    >)
        ensures
            opening.spec_outcome() is Err ==> res is Err && res->Err_0
                == opening.spec_outcome()->Err_0,
            opening.spec_outcome() is Ok && array_frame_len::<T>(N as nat) > usize::MAX ==> res
                is Err && res->Err_0 == ChannelError::Unsupported,
            opening.spec_outcome() is Ok && array_frame_len::<T>(N as nat) <= usize::MAX ==> res
                is Ok && res.unwrap()@ == StreamView::fresh(mode, order),
    {
        match opening.outcome() {
            Err(e) => Err(e),
            Ok(()) => match N.checked_mul(T::layout().size) {
                Some(len) => Ok(
                    Connection { queue: FrameQueue::new(mode), order, len, _marker: PhantomData },
                ),
                None => Err(ChannelError::Unsupported),
            },
        }
    }

    /// Length of the frames of this endpoint.
    pub fn frame_len(&self) -> (len: usize)
        ensures
            len == array_frame_len::<T>(N as nat),
    {
        proof {
            use_type_invariant(self);
        }
        self.len
    }

    /// The frame that carries `values`: the bytes to write to the transport,
    /// in one piece.
    pub fn send(&self, values: &[T; N]) -> (frame: Vec<u8>)
        ensures
            frame@ == elements_bytes(values@, self@.order),
            frame@.len() == array_frame_len::<T>(N as nat),
    {
        let mut frame: Vec<u8> = Vec::new();
        let mut i: usize = 0;
        proof {
            assert(values@.subrange(0, 0) =~= Seq::<T>::empty());
        }
        while i < N
            invariant
                i <= N,
                values@.len() == N,
                frame@ == elements_bytes(values@.subrange(0, i as int), self.order),
            decreases N - i,
        {
            let mut image = values[i].to_bytes(self.order);
            proof {
                let taken = values@.subrange(0, i + 1);
                assert(taken.drop_last() =~= values@.subrange(0, i as int));
                assert(taken.last() == values@[i as int]);
            }
            frame.append(&mut image);
            i = i + 1;
        }
        proof {
            assert(values@.subrange(0, N as int) =~= values@);
            lemma_elements_bytes_len(values@, self.order);
        }
        frame
    }

    /// What the driver is to do before a receive, with nothing read yet.
    pub fn demand(&self) -> (demand: Demand)
        ensures
            demand == self@.queue.demand(array_frame_len::<T>(N as nat)),
    {
        proof {
            use_type_invariant(self);
        }
        self.queue.demand(self.len)
    }

    /// Takes in what the driver read and says what to do next.
    pub fn offer(&mut self, arrival: Arrival) -> (demand: Demand)
        ensures
            final(self)@ == (StreamView {
                queue: old(self)@.queue.offer(arrival, array_frame_len::<T>(N as nat)),
                ..old(self)@
            }),
            demand == final(self)@.queue.demand_after(arrival, array_frame_len::<T>(N as nat)),
    {
        proof {
            use_type_invariant(&*self);
        }
        let mut queue = FrameQueue::new(TransportMode::Stream);
        std::mem::swap(&mut self.queue, &mut queue);
        let demand = queue.offer(arrival, self.len);
        self.queue = queue;
        demand
    }

    /// Receives one array into `out`, for a driver that waits for the
    /// transport.
    ///
    /// Takes the oldest buffered frame and reads its elements in order. On
    /// success `out` holds the values. Fails with `IoError` when no whole
    /// frame is buffered, and with `InvalidEnumTag` for the first element
    /// that is no value of `T`; the frame is consumed either way, and `out`
    /// is left as it was on every failure.
    pub fn recv(&mut self, out: &mut [T; N]) -> (res: Result<(), ChannelError>)
        ensures
            final(self)@ == recv_elements::<T>(old(self)@, N as nat).0,
            match recv_elements::<T>(old(self)@, N as nat).1 {
                Ok(values) => res is Ok && final(out)@ == values,
                Err(e) => res == Err::<(), ChannelError>(e) && *final(out) == *old(out),
            },
    {
        proof {
            use_type_invariant(&*self);
        }
        let mut queue = FrameQueue::new(TransportMode::Stream);
        std::mem::swap(&mut self.queue, &mut queue);
        let taken = queue.take(self.len);
        if taken.is_none() {
            queue.settle();
        }
        self.queue = queue;
        let frame = match taken {
            Some(frame) => frame,
            None => {
                return Err(ChannelError::IoError);
            },
        };
        match read_elements::<T>(frame.as_slice(), N, self.order) {
            Ok(values) => {
                store(out, values);
                Ok(())
            },
            Err(e) => Err(e),
        }
    }
}

/// Moves `values` into `out`, element for element.
fn store<const N: usize, T>(out: &mut [T; N], values: Vec<T>)
    requires
        values@.len() == N,
    ensures
        final(out)@ == values@,
{
    let ghost wanted = values@;
    let mut values = values;
    let mut k: usize = N;
    while k > 0
        invariant
            k <= N,
            wanted.len() == N,
            values@ == wanted.subrange(0, k as int),
            out@.len() == N,
            forall|j: int| k <= j < N ==> out@[j] == wanted[j],
        decreases k,
    {
        match values.pop() {
            Some(value) => {
                out[k - 1] = value;
            },
            None => {},
        }
        k = k - 1;
        proof {
            assert(values@ =~= wanted.subrange(0, k as int));
        }
    }
    proof {
        assert(out@ =~= wanted);
    }
}

/// An array that one endpoint sends and the transport delivers whole is
/// what the peer receives, element for element, where both ends use one
/// byte order and the peer had nothing buffered.
pub proof fn lemma_array_round_trip<T: FixedLayout>(
    receiver: StreamView,
    values: Seq<T>,
    wire: Vec<u8>,
)
    requires
        receiver.queue.pending.len() == 0,
        wire@ == elements_bytes(values, receiver.order),
    ensures
        recv_elements::<T>(
            StreamView {
                queue: receiver.queue.offer(
                    Arrival::Bytes(wire),
                    array_frame_len::<T>(values.len()),
                ),
                ..receiver
            },
            values.len(),
        ).1 == Ok::<Seq<T>, ChannelError>(values),
{
    let len = array_frame_len::<T>(values.len());
    lemma_elements_bytes_len(values, receiver.order);
    lemma_parse_of_elements(values, receiver.order);
    let got = receiver.queue.offer(Arrival::Bytes(wire), len);
    assert(got.pending =~= wire@);
    assert(got.front(len) =~= wire@);
}

} // verus!
