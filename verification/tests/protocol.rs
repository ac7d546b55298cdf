use xtee::protocol::Packet;
use xtee::Error;

fn all_packets() -> Vec<Packet> {
    vec![
        Packet::Ready,
        Packet::Data { value: -123456 },
        Packet::MotorMove { slave: 1, direction: true, rotations: 70_000 },
        Packet::MotorSetSpeed { slave: 2, apply: true, speed: 4_000_000_000 },
        Packet::MotorSetAcceleration { slave: 1, acceleration: 1000 },
        Packet::MotorSetOutputs { slave: 2, outputs: false },
        Packet::MotorAskStatus { slave: 1 },
        Packet::MotorStatus {
            slave: 2,
            running: true,
            stopping: false,
            outputs: true,
            position: -5,
            remaining: 99,
        },
        Packet::MotorRecognition { slave: 1, max_speed: 3200 },
        Packet::MotorKeep { slave: 2, direction: false },
        Packet::MotorStop { slave: 1, gentle: true },
        Packet::ActuatorMove { direction: true },
        Packet::ActuatorStop,
    ]
}

#[test]
fn packet_bytes_are_little_endian_with_id_first() {
    let p = Packet::MotorSetSpeed { slave: 2, apply: false, speed: 0x0102_0304 };
    assert_eq!(p.to_bytes(), vec![0x05, 2, 0, 0x04, 0x03, 0x02, 0x01]);
    let p = Packet::Data { value: -2 };
    assert_eq!(p.to_bytes(), vec![0x02, 0xFE, 0xFF, 0xFF, 0xFF]);
    let p = Packet::MotorMove { slave: 1, direction: true, rotations: 0x0C0D_0A0B };
    assert_eq!(p.to_bytes(), vec![0x03, 1, 1, 0x0B, 0x0A, 0x0D, 0x0C]);
    let p = Packet::MotorStatus {
        slave: 3,
        running: true,
        stopping: true,
        outputs: false,
        position: 1,
        remaining: 2,
    };
    assert_eq!(p.to_bytes(), vec![0x0A, 3, 1, 1, 0, 1, 0, 0, 0, 2, 0, 0, 0]);
}

#[test]
fn packet_ids() {
    let ids: Vec<u8> = all_packets().iter().map(|p| p.to_bytes()[0]).collect();
    assert_eq!(ids, vec![0x01, 0x02, 0x03, 0x05, 0x06, 0x07, 0x09, 0x0A, 0x08, 0x04, 0x0B, 0x0C, 0x0D]);
}

#[test]
fn every_packet_reads_back() {
    for p in all_packets() {
        let mut bytes = p.to_bytes();
        let n = bytes.len();
        assert_eq!(Packet::from_bytes(&bytes), Ok((n, p)));
        bytes.extend_from_slice(&[0xAA, 0x00, 0x55]);
        assert_eq!(Packet::from_bytes(&bytes), Ok((n, p)));
    }
}

#[test]
fn truncated_packets_are_errors() {
    for p in all_packets() {
        let bytes = p.to_bytes();
        for cut in 0..bytes.len() {
            if cut == 0 || bytes.len() > 1 {
                if cut < bytes.len() {
                    assert_eq!(Packet::from_bytes(&bytes[..cut]), Err(Error::Packet), "{:?} cut at {}", p, cut);
                }
            }
        }
    }
}

#[test]
fn bad_bool_is_a_packet_error() {
    assert_eq!(Packet::from_bytes(&[0x0C, 2]), Err(Error::Packet));
    assert_eq!(Packet::from_bytes(&[0x0B, 1, 0xFF]), Err(Error::Packet));
    assert_eq!(Packet::from_bytes(&[0x05, 1, 2, 0, 0, 0, 0]), Err(Error::Packet));
    assert_eq!(Packet::from_bytes(&[0x0A, 1, 1, 0, 2, 0, 0, 0, 0, 0, 0, 0, 0]), Err(Error::Packet));
}

#[test]
fn unknown_id_is_a_packet_error() {
    assert_eq!(Packet::from_bytes(&[0x00]), Err(Error::Packet));
    assert_eq!(Packet::from_bytes(&[0x0E, 1, 2]), Err(Error::Packet));
    assert_eq!(Packet::from_bytes(&[]), Err(Error::Packet));
}
