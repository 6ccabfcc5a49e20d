use epsilon::bytes::{decode_uint, encode_uint, ByteOrder};
use epsilon::connection::CtrlSignal;
use epsilon::error::ChannelError;
use epsilon::frame::{read_frame, FixedLayout};
use epsilon::layout::LayoutSignature;
use epsilon::packet::{DataPacket, PACKET_LEN, PAYLOAD_LEN};

fn word() -> usize {
    std::mem::size_of::<usize>()
}

#[test]
fn uint_little_endian_puts_low_byte_first() {
    assert_eq!(encode_uint(0x0102_0304, 4, ByteOrder::Little), vec![4u8, 3, 2, 1]);
}

#[test]
fn uint_big_endian_puts_high_byte_first() {
    assert_eq!(encode_uint(0x0102_0304, 4, ByteOrder::Big), vec![1u8, 2, 3, 4]);
}

#[test]
fn uint_wider_than_value_is_padded_with_zeros() {
    assert_eq!(encode_uint(42, 8, ByteOrder::Little), vec![42u8, 0, 0, 0, 0, 0, 0, 0]);
    assert_eq!(encode_uint(42, 8, ByteOrder::Big), vec![0u8, 0, 0, 0, 0, 0, 0, 42]);
}

#[test]
fn uint_narrower_than_value_keeps_low_digits() {
    assert_eq!(encode_uint(0x0102_0304, 2, ByteOrder::Little), vec![4u8, 3]);
    assert_eq!(encode_uint(0x0102_0304, 2, ByteOrder::Big), vec![3u8, 4]);
}

#[test]
fn uint_of_width_zero_is_empty() {
    assert_eq!(encode_uint(7, 0, ByteOrder::Little), Vec::<u8>::new());
    assert_eq!(decode_uint(&[], ByteOrder::Big), 0);
}

#[test]
fn uint_decodes_in_both_orders() {
    assert_eq!(decode_uint(&[4, 3, 2, 1], ByteOrder::Little), 0x0102_0304);
    assert_eq!(decode_uint(&[4, 3, 2, 1], ByteOrder::Big), 0x0403_0201);
    assert_eq!(decode_uint(&[255; 8], ByteOrder::Little), u64::MAX);
    assert_eq!(decode_uint(&[255; 8], ByteOrder::Big), u64::MAX);
}

#[test]
fn uint_round_trips() {
    for order in [ByteOrder::Little, ByteOrder::Big] {
        for value in [0u64, 1, 255, 256, 0xdead_beef, u64::MAX] {
            let bytes = encode_uint(value, 8, order);
            assert_eq!(bytes.len(), 8);
            assert_eq!(decode_uint(&bytes, order), value);
        }
    }
}

#[test]
fn signature_is_two_machine_words() {
    assert_eq!(LayoutSignature::wire_len(), 2 * word());
    let sig = LayoutSignature::new(4, 4);
    let bytes = sig.encode(ByteOrder::Little);
    let mut expected = vec![0u8; 2 * word()];
    expected[0] = 4;
    expected[word()] = 4;
    assert_eq!(bytes, expected);
}

#[test]
fn signature_big_endian_layout() {
    let sig = LayoutSignature::new(0x0102, 8);
    let bytes = sig.encode(ByteOrder::Big);
    let mut expected = vec![0u8; 2 * word()];
    expected[word() - 2] = 1;
    expected[word() - 1] = 2;
    expected[2 * word() - 1] = 8;
    assert_eq!(bytes, expected);
}

#[test]
fn signature_round_trips() {
    for order in [ByteOrder::Little, ByteOrder::Big] {
        let sig = LayoutSignature::new(128, 8);
        assert_eq!(LayoutSignature::decode(&sig.encode(order), order), Some(sig));
        let largest = LayoutSignature::new(usize::MAX, usize::MAX);
        assert_eq!(LayoutSignature::decode(&largest.encode(order), order), Some(largest));
    }
}

#[test]
fn signature_of_wrong_length_does_not_decode() {
    let sig = LayoutSignature::new(4, 4);
    let mut bytes = sig.encode(ByteOrder::Little);
    bytes.pop();
    assert_eq!(LayoutSignature::decode(&bytes, ByteOrder::Little), None);
    bytes.push(0);
    bytes.push(0);
    assert_eq!(LayoutSignature::decode(&bytes, ByteOrder::Little), None);
    assert_eq!(LayoutSignature::decode(&[], ByteOrder::Little), None);
}

#[test]
fn signatures_are_equal_when_both_fields_are() {
    let a = LayoutSignature::new(4, 4);
    assert!(a.matches(&LayoutSignature::new(4, 4)));
    assert!(!a.matches(&LayoutSignature::new(8, 4)));
    assert!(!a.matches(&LayoutSignature::new(4, 8)));
    assert_eq!(a.check(&LayoutSignature::new(4, 4)), Ok(()));
    assert_eq!(a.check(&LayoutSignature::new(8, 8)), Err(ChannelError::SignatureMismatch));
    assert_eq!(a.check(&LayoutSignature::new(4, 2)), Err(ChannelError::SignatureMismatch));
}

#[test]
fn layouts_of_the_integers() {
    assert_eq!(<u8 as FixedLayout>::layout(), LayoutSignature::new(1, 1));
    assert_eq!(<u16 as FixedLayout>::layout(), LayoutSignature::new(2, 2));
    assert_eq!(<u32 as FixedLayout>::layout(), LayoutSignature::new(4, 4));
    assert_eq!(<u64 as FixedLayout>::layout(), LayoutSignature::new(8, 8));
    assert_eq!(<CtrlSignal as FixedLayout>::layout(), LayoutSignature::new(1, 1));
    assert_eq!(<DataPacket as FixedLayout>::layout(), LayoutSignature::new(128, 8));
}

#[test]
fn integer_frames() {
    assert_eq!(42u32.to_bytes(ByteOrder::Little), vec![42u8, 0, 0, 0]);
    assert_eq!(42u32.to_bytes(ByteOrder::Big), vec![0u8, 0, 0, 42]);
    assert_eq!(0xabcdu16.to_bytes(ByteOrder::Little), vec![0xcdu8, 0xab]);
    assert_eq!(7u8.to_bytes(ByteOrder::Big), vec![7u8]);
    assert_eq!(1u64.to_bytes(ByteOrder::Big), vec![0u8, 0, 0, 0, 0, 0, 0, 1]);
}

#[test]
fn integer_frames_round_trip() {
    for order in [ByteOrder::Little, ByteOrder::Big] {
        for value in [0u32, 1, 42, 0x0102_0304, u32::MAX] {
            let frame = value.to_bytes(order);
            assert_eq!(u32::from_bytes(&frame, order), Ok(value));
            assert_eq!(read_frame::<u32>(&frame, order), Ok(value));
        }
        for value in [0u64, 42, u64::MAX] {
            assert_eq!(u64::from_bytes(&value.to_bytes(order), order), Ok(value));
        }
        for value in [0u16, 0x1234, u16::MAX] {
            assert_eq!(u16::from_bytes(&value.to_bytes(order), order), Ok(value));
        }
        for value in [0u8, 9, u8::MAX] {
            assert_eq!(u8::from_bytes(&value.to_bytes(order), order), Ok(value));
        }
    }
}

#[test]
fn every_byte_string_is_an_integer_frame() {
    let bytes = [0x11u8, 0x22, 0x33, 0x44];
    for order in [ByteOrder::Little, ByteOrder::Big] {
        let value = u32::from_bytes(&bytes, order).unwrap();
        assert_eq!(value.to_bytes(order), bytes.to_vec());
    }
}

#[test]
fn read_frame_refuses_other_lengths() {
    assert_eq!(read_frame::<u32>(&[1, 2, 3], ByteOrder::Little), Err(ChannelError::IoError));
    assert_eq!(read_frame::<u32>(&[1, 2, 3, 4, 5], ByteOrder::Little), Err(ChannelError::IoError));
    assert_eq!(read_frame::<u32>(&[], ByteOrder::Little), Err(ChannelError::IoError));
    assert_eq!(read_frame::<u32>(&[1, 0, 0, 0], ByteOrder::Little), Ok(1));
}

#[test]
fn control_signal_tags() {
    assert_eq!(CtrlSignal::from_tag(0), Ok(CtrlSignal::Start));
    assert_eq!(CtrlSignal::from_tag(1), Ok(CtrlSignal::Stop));
    assert_eq!(CtrlSignal::from_tag(2), Ok(CtrlSignal::Reset));
    assert_eq!(CtrlSignal::from_tag(7), Err(ChannelError::InvalidEnumTag(7)));
}

#[test]
fn control_signal_tags_are_closed() {
    for tag in 3u8..=255 {
        assert_eq!(CtrlSignal::from_tag(tag), Err(ChannelError::InvalidEnumTag(tag)));
    }
    for signal in [CtrlSignal::Start, CtrlSignal::Stop, CtrlSignal::Reset] {
        assert_eq!(CtrlSignal::from_tag(signal.tag()), Ok(signal));
    }
    assert_eq!(CtrlSignal::Start.tag(), 0);
    assert_eq!(CtrlSignal::Stop.tag(), 1);
    assert_eq!(CtrlSignal::Reset.tag(), 2);
}

#[test]
fn control_signal_frames() {
    assert_eq!(CtrlSignal::Reset.to_bytes(ByteOrder::Little), vec![2u8]);
    assert_eq!(CtrlSignal::from_bytes(&[1], ByteOrder::Big), Ok(CtrlSignal::Stop));
    assert_eq!(
        CtrlSignal::from_bytes(&[7], ByteOrder::Big),
        Err(ChannelError::InvalidEnumTag(7))
    );
}

#[test]
fn packet_frame_is_index_then_payload() {
    assert_eq!(PAYLOAD_LEN, 120);
    assert_eq!(PACKET_LEN, 128);
    let mut payload = [0u8; 120];
    for i in 0..120 {
        payload[i] = i as u8;
    }
    let packet = DataPacket { index: 0x0102_0304_0506_0708, payload };
    let frame = packet.to_bytes(ByteOrder::Big);
    assert_eq!(frame.len(), 128);
    assert_eq!(&frame[..8], &[1u8, 2, 3, 4, 5, 6, 7, 8]);
    assert_eq!(&frame[8..], &payload[..]);
    let little = packet.to_bytes(ByteOrder::Little);
    assert_eq!(&little[..8], &[8u8, 7, 6, 5, 4, 3, 2, 1]);
    assert_eq!(&little[8..], &payload[..]);
}

#[test]
fn packet_round_trips() {
    let mut payload = [0u8; 120];
    for i in 0..120 {
        payload[i] = (255 - i) as u8;
    }
    for order in [ByteOrder::Little, ByteOrder::Big] {
        let packet = DataPacket { index: u64::MAX - 5, payload };
        let frame = packet.to_bytes(order);
        assert_eq!(DataPacket::from_bytes(&frame, order), Ok(packet));
        assert_eq!(read_frame::<DataPacket>(&frame[..127], order), Err(ChannelError::IoError));
    }
}
