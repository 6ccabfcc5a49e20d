use epsilon::array::{read_elements, Connection};
use epsilon::bytes::ByteOrder;
use epsilon::connection::{CtrlSignal, Opening};
use epsilon::error::ChannelError;
use epsilon::transport::{Arrival, Demand, TransportMode};

#[test]
fn array_frame_is_the_element_frames_in_order() {
    let conn =
        Connection::<3, u16>::open(Opening::Ready, TransportMode::Stream, ByteOrder::Big).unwrap();
    assert_eq!(conn.frame_len(), 6);
    assert_eq!(conn.send(&[1, 0x0203, 0xffff]), vec![0u8, 1, 2, 3, 255, 255]);
}

#[test]
fn array_round_trips_over_a_stream() {
    let sender =
        Connection::<4, u32>::open(Opening::Ready, TransportMode::Stream, ByteOrder::Little)
            .unwrap();
    let mut receiver =
        Connection::<4, u32>::open(Opening::Ready, TransportMode::Stream, ByteOrder::Little)
            .unwrap();
    let values = [1u32, 42, 0xdead_beef, u32::MAX];
    let frame = sender.send(&values);
    assert_eq!(frame.len(), 16);
    assert_eq!(receiver.demand(), Demand::Read(16));
    assert_eq!(receiver.offer(Arrival::Bytes(frame[..10].to_vec())), Demand::Read(6));
    let mut out = [0u32; 4];
    assert_eq!(receiver.recv(&mut out), Err(ChannelError::IoError));
    assert_eq!(out, [0u32; 4]);
    assert_eq!(receiver.offer(Arrival::Bytes(frame[10..].to_vec())), Demand::Deliver);
    assert_eq!(receiver.recv(&mut out), Ok(()));
    assert_eq!(out, values);
}

#[test]
fn array_travels_as_one_datagram() {
    let sender =
        Connection::<2, u64>::open(Opening::Ready, TransportMode::Datagram, ByteOrder::Big)
            .unwrap();
    let mut receiver =
        Connection::<2, u64>::open(Opening::Ready, TransportMode::Datagram, ByteOrder::Big)
            .unwrap();
    let frame = sender.send(&[7, 8]);
    assert_eq!(receiver.offer(Arrival::Bytes(frame[..8].to_vec())), Demand::Fail);
    let mut out = [0u64; 2];
    assert_eq!(receiver.recv(&mut out), Err(ChannelError::IoError));
    assert_eq!(receiver.offer(Arrival::Bytes(frame)), Demand::Deliver);
    assert_eq!(receiver.recv(&mut out), Ok(()));
    assert_eq!(out, [7, 8]);
}

#[test]
fn array_with_an_element_that_is_no_value_fails_and_leaves_the_target() {
    let mut receiver =
        Connection::<3, CtrlSignal>::open(Opening::Ready, TransportMode::Stream, ByteOrder::Little)
            .unwrap();
    assert_eq!(receiver.offer(Arrival::Bytes(vec![0, 9, 8])), Demand::Deliver);
    let mut out = [CtrlSignal::Stop; 3];
    assert_eq!(receiver.recv(&mut out), Err(ChannelError::InvalidEnumTag(9)));
    assert_eq!(out, [CtrlSignal::Stop; 3]);
    assert_eq!(receiver.offer(Arrival::Bytes(vec![2, 1, 0])), Demand::Deliver);
    assert_eq!(receiver.recv(&mut out), Ok(()));
    assert_eq!(out, [CtrlSignal::Reset, CtrlSignal::Stop, CtrlSignal::Start]);
}

#[test]
fn array_of_no_elements_has_an_empty_frame() {
    let mut conn =
        Connection::<0, u32>::open(Opening::Ready, TransportMode::Stream, ByteOrder::Little)
            .unwrap();
    assert_eq!(conn.frame_len(), 0);
    assert_eq!(conn.send(&[]), Vec::<u8>::new());
    assert_eq!(conn.demand(), Demand::Deliver);
    let mut out: [u32; 0] = [];
    assert_eq!(conn.recv(&mut out), Ok(()));
}

#[test]
fn array_too_long_for_the_machine_is_unsupported() {
    assert!(matches!(
        Connection::<{ usize::MAX }, u64>::open(
            Opening::Ready,
            TransportMode::Datagram,
            ByteOrder::Little
        ),
        Err(ChannelError::Unsupported)
    ));
    assert!(matches!(
        Connection::<{ usize::MAX }, u64>::open(
            Opening::BindFailed,
            TransportMode::Datagram,
            ByteOrder::Little
        ),
        Err(ChannelError::BindError)
    ));
    assert!(matches!(
        Connection::<4, u64>::open(Opening::ConnectFailed, TransportMode::Stream, ByteOrder::Big),
        Err(ChannelError::ConnectError)
    ));
}

#[test]
fn read_elements_reads_in_order_and_stops_at_the_first_failure() {
    assert_eq!(
        read_elements::<u16>(&[1, 0, 2, 0, 3, 0], 3, ByteOrder::Little),
        Ok(vec![1u16, 2, 3])
    );
    assert_eq!(read_elements::<u16>(&[], 0, ByteOrder::Little), Ok(vec![]));
    assert_eq!(
        read_elements::<CtrlSignal>(&[1, 5, 6], 3, ByteOrder::Little),
        Err(ChannelError::InvalidEnumTag(5))
    );
}
