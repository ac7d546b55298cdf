use tokio_util::bytes::BytesMut;
use xtee::codec::{Codec, Handshake, HandshakeStep};
use xtee::protocol::Packet;
use xtee::Error;

#[test]
fn crc8_lte_check_value() {
    let codec = Codec::new();
    assert!(codec.validate_crc(b"123456789", 0xEA));
    assert!(!codec.validate_crc(b"123456789", 0xEB));
    assert!(codec.validate_crc(&[0x01], 0x9B));
}

#[test]
fn frame_payload_appends_checksum() {
    let codec = Codec::new();
    assert_eq!(codec.frame_payload(&Packet::Ready), vec![0x01, 0x9B]);
    assert_eq!(codec.frame_payload(&Packet::ActuatorStop), vec![0x0D, 0x43]);
}

#[test]
fn encode_is_cobs_framed() {
    let mut codec = Codec::new();
    assert_eq!(codec.encode(Packet::Ready), vec![0x03, 0x01, 0x9B, 0x00]);
    assert_eq!(
        codec.encode(Packet::MotorStop { slave: 1, gentle: false }),
        vec![0x03, 0x0B, 0x01, 0x02, 0xA9, 0x00]
    );
}

#[test]
fn decode_reads_what_encode_wrote() {
    let mut codec = Codec::new();
    let packets = vec![
        Packet::Ready,
        Packet::MotorStatus { slave: 1, running: true, stopping: false, outputs: true, position: 0, remaining: 300 },
        Packet::Data { value: 0 },
        Packet::ActuatorMove { direction: false },
    ];
    let mut src = BytesMut::new();
    for p in &packets {
        src.extend_from_slice(&codec.encode(*p));
    }
    for p in &packets {
        assert_eq!(codec.decode(&mut src), Ok(Some(*p)));
    }
    assert_eq!(codec.decode(&mut src), Ok(None));
}

#[test]
fn decode_waits_for_a_whole_frame() {
    let mut codec = Codec::new();
    let bytes = codec.encode(Packet::MotorRecognition { slave: 2, max_speed: 77 });
    let (head, tail) = bytes.split_at(3);
    let mut src = BytesMut::from(head);
    assert_eq!(codec.decode(&mut src), Ok(None));
    src.extend_from_slice(tail);
    assert_eq!(codec.decode(&mut src), Ok(Some(Packet::MotorRecognition { slave: 2, max_speed: 77 })));
}

#[test]
fn bad_checksum_frame_is_skipped() {
    let codec = Codec::new();
    assert_eq!(codec.decode_frame(&[0x01, 0x9C]), Ok(None));
    assert_eq!(codec.decode_frame(&[0x01, 0x9B]), Ok(Some(Packet::Ready)));
}

#[test]
fn short_frame_is_skipped() {
    let codec = Codec::new();
    assert_eq!(codec.decode_frame(&[0x01]), Ok(None));
    assert_eq!(codec.decode_frame(&[]), Ok(None));
}

#[test]
fn checked_frame_without_packet_is_an_error() {
    let codec = Codec::new();
    // 0x0E is no packet id; 0xD9 is its CRC-8/LTE.
    let crc = {
        let mut c: u8 = 0;
        for b in [0x0Eu8] {
            c ^= b;
            for _ in 0..8 {
                c = if c & 0x80 != 0 { (c << 1) ^ 0x9B } else { c << 1 };
            }
        }
        c
    };
    assert_eq!(codec.decode_frame(&[0x0E, crc]), Err(Error::Packet));
}

#[test]
fn cobs_error_is_a_packet_error() {
    let mut codec = Codec::new();
    let mut src = BytesMut::from(&[0x00u8, 0x01][..]);
    assert_eq!(codec.decode(&mut src), Err(Error::Packet));
}

#[test]
fn handshake_waits_for_ready_then_delivers() {
    let mut h = Handshake::new();
    assert!(!h.is_done());
    assert_eq!(h.on_packet(Packet::Data { value: 1 }), HandshakeStep::Drop);
    assert!(!h.is_done());
    assert_eq!(h.on_packet(Packet::Ready), HandshakeStep::Acknowledge);
    assert!(h.is_done());
    assert_eq!(h.on_packet(Packet::Ready), HandshakeStep::Deliver(Packet::Ready));
    assert_eq!(
        h.on_packet(Packet::Data { value: 2 }),
        HandshakeStep::Deliver(Packet::Data { value: 2 })
    );
}

#[test]
fn cobs_results_are_interpreted() {
    let codec = Codec::new();
    assert_eq!(codec.decode_result(Err(())), Err(Error::Packet));
    assert_eq!(codec.decode_result(Ok(None)), Ok(None));
    assert_eq!(codec.decode_result(Ok(Some(vec![0x01, 0x9B]))), Ok(Some(Packet::Ready)));
    assert_eq!(codec.decode_result(Ok(Some(vec![0x01, 0x9C]))), Ok(None));
}

#[test]
fn frame_in_three_pieces() {
    let mut codec = Codec::new();
    let p = Packet::MotorMove { slave: 2, direction: true, rotations: 500 };
    let bytes = codec.encode(p);
    let mut src = BytesMut::from(&bytes[..2]);
    assert_eq!(codec.decode(&mut src), Ok(None));
    assert!(src.is_empty());
    src.extend_from_slice(&bytes[2..5]);
    assert_eq!(codec.decode(&mut src), Ok(None));
    src.extend_from_slice(&bytes[5..]);
    src.extend_from_slice(&[0x03]);
    assert_eq!(codec.decode(&mut src), Ok(Some(p)));
    assert_eq!(&src[..], &[0x03]);
}

#[test]
fn cobs_framing_errors_are_packet_errors() {
    let mut codec = Codec::new();
    let mut src = BytesMut::from(&[0x00u8, 0x02, 0x0D, 0x43, 0x00][..]);
    assert_eq!(codec.decode(&mut src), Err(Error::Packet));
    assert_eq!(&src[..], &[0x02, 0x0D, 0x43, 0x00]);
    let mut codec = Codec::new();
    let mut src = BytesMut::from(&[0x04u8, 0x01, 0x00, 0x9B, 0x00][..]);
    assert_eq!(codec.decode(&mut src), Err(Error::Packet));
    let mut codec = Codec::new();
    let mut long = vec![0xFFu8];
    long.extend(std::iter::repeat(0x01u8).take(300));
    let mut src = BytesMut::from(&long[..]);
    assert_eq!(codec.decode(&mut src), Err(Error::Packet));
}
