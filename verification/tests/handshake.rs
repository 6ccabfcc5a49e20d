use epsilon::bytes::ByteOrder;
use epsilon::connection::{Opening, Stream};
use epsilon::error::ChannelError;
use epsilon::frame::FixedLayout;
use epsilon::handshake::{Client, HandshakeEvent, HandshakeStep, Streamer};
use epsilon::layout::LayoutSignature;
use epsilon::transport::{Arrival, Demand};

fn server_u32() -> Streamer<u32> {
    Streamer::<u32>::listen(Opening::Ready, ByteOrder::Little).unwrap()
}

fn bytes(data: Vec<u8>) -> HandshakeEvent {
    HandshakeEvent::Arrival(Arrival::Bytes(data))
}

#[test]
fn greeting_is_the_signature_of_the_type() {
    let (_, hello) = Client::<u32>::connect(Opening::Ready, ByteOrder::Little).unwrap();
    assert_eq!(hello, LayoutSignature::new(4, 4).encode(ByteOrder::Little));
    assert_eq!(hello.len(), LayoutSignature::wire_len());
    let (_, hello) = Client::<u64>::connect(Opening::Ready, ByteOrder::Big).unwrap();
    assert_eq!(hello, <u64 as FixedLayout>::layout().encode(ByteOrder::Big));
}

#[test]
fn client_connect_reports_an_unreachable_server() {
    assert!(matches!(
        Client::<u32>::connect(Opening::ConnectFailed, ByteOrder::Little),
        Err(ChannelError::ConnectError)
    ));
}

#[test]
fn server_listen_reports_an_address_that_cannot_be_bound() {
    assert!(matches!(
        Streamer::<u32>::listen(Opening::BindFailed, ByteOrder::Little),
        Err(ChannelError::BindError)
    ));
}

#[test]
fn send_without_a_peer_fails_at_once() {
    let mut server = server_u32();
    assert!(!server.is_connected());
    assert_eq!(server.send(&42), Err(ChannelError::NoPeerConnected));
    assert_eq!(
        server.await_matching_client(HandshakeEvent::Accepted),
        HandshakeStep::Read(LayoutSignature::wire_len())
    );
    assert_eq!(server.send(&42), Err(ChannelError::NoPeerConnected));
    assert!(server.take_peer().is_none());
}

#[test]
fn matching_client_is_established() {
    let mut server = server_u32();
    assert_eq!(server.pending_step(), HandshakeStep::Accept);
    let (mut client, hello) = Client::<u32>::connect(Opening::Ready, ByteOrder::Little).unwrap();
    assert_eq!(
        server.await_matching_client(HandshakeEvent::Accepted),
        HandshakeStep::Read(hello.len())
    );
    assert_eq!(server.pending_step(), HandshakeStep::Read(hello.len()));
    assert_eq!(server.await_matching_client(bytes(hello)), HandshakeStep::Ready);
    assert!(server.is_connected());
    assert_eq!(server.pending_step(), HandshakeStep::Ready);
    let frame = server.send(&42).unwrap();
    assert_eq!(frame, vec![42u8, 0, 0, 0]);
    assert_eq!(client.demand(), Demand::Read(4));
    assert_eq!(client.offer(Arrival::Bytes(frame)), Demand::Deliver);
    assert_eq!(client.recv(), Ok(42));
    assert_eq!(client.recv(), Err(ChannelError::IoError));
}

#[test]
fn greeting_may_arrive_in_pieces() {
    let mut server = server_u32();
    let (_, hello) = Client::<u32>::connect(Opening::Ready, ByteOrder::Little).unwrap();
    let n = hello.len();
    server.await_matching_client(HandshakeEvent::Accepted);
    assert_eq!(server.await_matching_client(bytes(hello[..3].to_vec())), HandshakeStep::Read(n - 3));
    assert!(!server.is_connected());
    assert_eq!(server.pending_step(), HandshakeStep::Read(n - 3));
    assert_eq!(server.await_matching_client(bytes(hello[3..].to_vec())), HandshakeStep::Ready);
    assert!(server.is_connected());
}

#[test]
fn mismatched_client_is_passed_over() {
    let mut server = server_u32();
    let (_, hello) = Client::<u64>::connect(Opening::Ready, ByteOrder::Little).unwrap();
    server.await_matching_client(HandshakeEvent::Accepted);
    assert_eq!(
        server.await_matching_client(bytes(hello)),
        HandshakeStep::Reject(ChannelError::SignatureMismatch)
    );
    assert!(!server.is_connected());
    assert_eq!(server.send(&1), Err(ChannelError::NoPeerConnected));
    assert_eq!(server.pending_step(), HandshakeStep::Accept);
}

#[test]
fn client_of_another_byte_order_is_passed_over() {
    let mut server = server_u32();
    let (_, hello) = Client::<u32>::connect(Opening::Ready, ByteOrder::Big).unwrap();
    server.await_matching_client(HandshakeEvent::Accepted);
    assert_eq!(
        server.await_matching_client(bytes(hello)),
        HandshakeStep::Reject(ChannelError::SignatureMismatch)
    );
}

#[test]
fn client_that_differs_in_alignment_only_is_passed_over() {
    let mut server = server_u32();
    let hello = LayoutSignature::new(4, 2).encode(ByteOrder::Little);
    server.await_matching_client(HandshakeEvent::Accepted);
    assert_eq!(
        server.await_matching_client(bytes(hello)),
        HandshakeStep::Reject(ChannelError::SignatureMismatch)
    );
}

#[test]
fn candidate_that_goes_away_is_passed_over() {
    let mut server = server_u32();
    let (_, hello) = Client::<u32>::connect(Opening::Ready, ByteOrder::Little).unwrap();
    server.await_matching_client(HandshakeEvent::Accepted);
    server.await_matching_client(bytes(hello[..5].to_vec()));
    assert_eq!(
        server.await_matching_client(HandshakeEvent::Arrival(Arrival::Closed)),
        HandshakeStep::Reject(ChannelError::IoError)
    );
    assert_eq!(server.pending_step(), HandshakeStep::Accept);
    server.await_matching_client(HandshakeEvent::Accepted);
    assert_eq!(
        server.await_matching_client(HandshakeEvent::Arrival(Arrival::Failed)),
        HandshakeStep::Reject(ChannelError::IoError)
    );
    server.await_matching_client(HandshakeEvent::Accepted);
    assert_eq!(
        server.await_matching_client(HandshakeEvent::Arrival(Arrival::WouldBlock)),
        HandshakeStep::Reject(ChannelError::IoError)
    );
    server.await_matching_client(HandshakeEvent::Accepted);
    assert_eq!(server.await_matching_client(bytes(hello)), HandshakeStep::Ready);
}

#[test]
fn failed_accept_stops_the_waiting() {
    let mut server = server_u32();
    assert_eq!(
        server.await_matching_client(HandshakeEvent::AcceptFailed),
        HandshakeStep::Stop(ChannelError::IoError)
    );
    assert!(!server.is_connected());
    server.await_matching_client(HandshakeEvent::Accepted);
    assert_eq!(
        server.await_matching_client(HandshakeEvent::AcceptFailed),
        HandshakeStep::Stop(ChannelError::IoError)
    );
    assert_eq!(server.pending_step(), HandshakeStep::Accept);
}

#[test]
fn arrival_without_a_candidate_changes_nothing() {
    let mut server = server_u32();
    assert_eq!(server.await_matching_client(bytes(vec![1, 2, 3])), HandshakeStep::Accept);
    assert_eq!(server.pending_step(), HandshakeStep::Accept);
}

#[test]
fn established_client_stays_established() {
    let mut server = server_u32();
    let (_, hello) = Client::<u32>::connect(Opening::Ready, ByteOrder::Little).unwrap();
    server.await_matching_client(HandshakeEvent::Accepted);
    server.await_matching_client(bytes(hello));
    assert_eq!(server.await_matching_client(HandshakeEvent::Accepted), HandshakeStep::Ready);
    assert_eq!(server.await_matching_client(HandshakeEvent::AcceptFailed), HandshakeStep::Ready);
    assert_eq!(server.send(&7), Ok(vec![7u8, 0, 0, 0]));
}

#[test]
fn payload_behind_the_greeting_is_kept_for_the_peer() {
    let mut server = server_u32();
    let (client, mut wire) = Client::<u32>::connect(Opening::Ready, ByteOrder::Little).unwrap();
    let client = client.into_stream();
    wire.extend(client.send(&42));
    server.await_matching_client(HandshakeEvent::Accepted);
    assert_eq!(server.await_matching_client(bytes(wire)), HandshakeStep::Ready);
    let mut peer = server.take_peer().unwrap();
    assert_eq!(peer.demand(), Demand::Deliver);
    assert_eq!(peer.recv(), Ok(42));
}

#[test]
fn scenario_matching_client_then_mismatch_then_matching_again() {
    let order = ByteOrder::Little;
    let mut server = Streamer::<u32>::listen(Opening::Ready, order).unwrap();

    // Client A, of the matching type, connects and sends 42.
    let (client_a, hello_a) = Client::<u32>::connect(Opening::Ready, order).unwrap();
    let client_a: Stream<u32> = client_a.into_stream();
    assert_eq!(
        server.await_matching_client(HandshakeEvent::Accepted),
        HandshakeStep::Read(hello_a.len())
    );
    assert_eq!(server.await_matching_client(bytes(hello_a)), HandshakeStep::Ready);
    let mut channel = server.take_peer().unwrap();
    assert_eq!(channel.offer(Arrival::Bytes(client_a.send(&42))), Demand::Deliver);
    assert_eq!(channel.recv(), Ok(42));

    // Client B, of an 8-byte type, is not selected.
    assert!(!server.is_connected());
    let (_client_b, hello_b) = Client::<u64>::connect(Opening::Ready, order).unwrap();
    assert_eq!(
        server.await_matching_client(HandshakeEvent::Accepted),
        HandshakeStep::Read(hello_b.len())
    );
    assert_eq!(
        server.await_matching_client(bytes(hello_b)),
        HandshakeStep::Reject(ChannelError::SignatureMismatch)
    );
    assert!(!server.is_connected());

    // A later client of the matching type still connects.
    let (client_a2, hello_a2) = Client::<u32>::connect(Opening::Ready, order).unwrap();
    let client_a2 = client_a2.into_stream();
    server.await_matching_client(HandshakeEvent::Accepted);
    assert_eq!(server.await_matching_client(bytes(hello_a2)), HandshakeStep::Ready);
    assert!(server.is_connected());
    let mut second = server.take_peer().unwrap();
    assert_eq!(second.offer(Arrival::Bytes(client_a2.send(&43))), Demand::Deliver);
    assert_eq!(second.recv(), Ok(43));
}
