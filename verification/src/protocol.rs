//! The packet format spoken with the controller boards.
//!
//! A packet is one identifier byte followed by its fields in declaration
//! order; integers are little-endian, booleans are one byte that is `0x00`
//! or `0x01`.
use vstd::bytes::{spec_u32_from_le_bytes, spec_u32_to_le_bytes};
use vstd::prelude::*;

use crate::error::Error;

verus! {

/// A message exchanged with a controller board.
#[derive(Clone, Copy, Debug, PartialEq, Eq, Structural)]
pub enum Packet {
    Ready,
    Data { value: i32 },
    MotorMove { slave: u8, direction: bool, rotations: u32 },
    MotorSetSpeed { slave: u8, apply: bool, speed: u32 },
    MotorSetAcceleration { slave: u8, acceleration: u32 },
    MotorSetOutputs { slave: u8, outputs: bool },
    MotorAskStatus { slave: u8 },
    MotorStatus {
        slave: u8,
        running: bool,
        stopping: bool,
        outputs: bool,
        position: i32,
        remaining: u32,
    },
    MotorRecognition { slave: u8, max_speed: u32 },
    MotorKeep { slave: u8, direction: bool },
    MotorStop { slave: u8, gentle: bool },
    ActuatorMove { direction: bool },
    ActuatorStop,
}

/// The wire byte of a boolean.
pub open spec fn bool_byte(b: bool) -> u8 {
    if b {
        1u8
    } else {
        0u8
    }
}

/// The boolean a wire byte stands for; only `0x00` and `0x01` are booleans.
pub open spec fn byte_bool(b: u8) -> Option<bool> {
    if b == 0 {
        Some(false)
    } else if b == 1 {
        Some(true)
    } else {
        None
    }
}

/// Little-endian `u32` stored at `at`.
pub open spec fn le_u32_at(s: Seq<u8>, at: int) -> u32 {
    spec_u32_from_le_bytes(s.subrange(at, at + 4))
}

/// The bytes of a packet on the wire.
pub open spec fn packet_bytes(p: Packet) -> Seq<u8> {
    match p {
        Packet::Ready => seq![0x01u8],
        Packet::Data { value } => seq![0x02u8] + spec_u32_to_le_bytes(value as u32),
        Packet::MotorMove { slave, direction, rotations } => seq![
            0x03u8,
            slave,
            bool_byte(direction),
        ] + spec_u32_to_le_bytes(rotations),
        Packet::MotorKeep { slave, direction } => seq![0x04u8, slave, bool_byte(direction)],
        Packet::MotorSetSpeed { slave, apply, speed } => seq![0x05u8, slave, bool_byte(apply)]
            + spec_u32_to_le_bytes(speed),
        Packet::MotorSetAcceleration { slave, acceleration } => seq![0x06u8, slave]
            + spec_u32_to_le_bytes(acceleration),
        Packet::MotorSetOutputs { slave, outputs } => seq![0x07u8, slave, bool_byte(outputs)],
        Packet::MotorRecognition { slave, max_speed } => seq![0x08u8, slave]
            + spec_u32_to_le_bytes(max_speed),
        Packet::MotorAskStatus { slave } => seq![0x09u8, slave],
        Packet::MotorStatus { slave, running, stopping, outputs, position, remaining } => seq![
            0x0Au8,
            slave,
            bool_byte(running),
            bool_byte(stopping),
            bool_byte(outputs),
        ] + spec_u32_to_le_bytes(position as u32) + spec_u32_to_le_bytes(remaining),
        Packet::MotorStop { slave, gentle } => seq![0x0Bu8, slave, bool_byte(gentle)],
        Packet::ActuatorMove { direction } => seq![0x0Cu8, bool_byte(direction)],
        Packet::ActuatorStop => seq![0x0Du8],
    }
}

/// The packet at the start of `b`, if `b` starts with one; bytes after it
/// are not looked at.
pub open spec fn parse_packet(b: Seq<u8>) -> Option<Packet> {
    if b.len() < 1 {
        None
    } else {
        let id = b[0];
        if id == 0x01 {
            Some(Packet::Ready)
        } else if id == 0x02 {
            if b.len() >= 5 {
                Some(Packet::Data { value: le_u32_at(b, 1) as i32 })
            } else {
                None
            }
        } else if id == 0x03 {
            if b.len() >= 7 && byte_bool(b[2]) is Some {
                Some(
                    Packet::MotorMove {
                        slave: b[1],
                        direction: byte_bool(b[2])->0,
                        rotations: le_u32_at(b, 3),
                    },
                )
            } else {
                None
            }
        } else if id == 0x04 {
            if b.len() >= 3 && byte_bool(b[2]) is Some {
                Some(Packet::MotorKeep { slave: b[1], direction: byte_bool(b[2])->0 })
            } else {
                None
            }
        } else if id == 0x05 {
            if b.len() >= 7 && byte_bool(b[2]) is Some {
                Some(
                    Packet::MotorSetSpeed {
                        slave: b[1],
                        apply: byte_bool(b[2])->0,
                        speed: le_u32_at(b, 3),
                    },
                )
            } else {
                None
            }
        } else if id == 0x06 {
            if b.len() >= 6 {
                Some(Packet::MotorSetAcceleration { slave: b[1], acceleration: le_u32_at(b, 2) })
            } else {
                None
            }
        } else if id == 0x07 {
            if b.len() >= 3 && byte_bool(b[2]) is Some {
                Some(Packet::MotorSetOutputs { slave: b[1], outputs: byte_bool(b[2])->0 })
            } else {
                None
            }
        } else if id == 0x08 {
            if b.len() >= 6 {
                Some(Packet::MotorRecognition { slave: b[1], max_speed: le_u32_at(b, 2) })
            } else {
                None
            }
        } else if id == 0x09 {
            if b.len() >= 2 {
                Some(Packet::MotorAskStatus { slave: b[1] })
            } else {
                None
            }
        } else if id == 0x0A {
            if b.len() >= 13 && byte_bool(b[2]) is Some && byte_bool(b[3]) is Some && byte_bool(
                b[4],
            ) is Some {
                Some(
                    Packet::MotorStatus {
                        slave: b[1],
                        running: byte_bool(b[2])->0,
                        stopping: byte_bool(b[3])->0,
                        outputs: byte_bool(b[4])->0,
                        position: le_u32_at(b, 5) as i32,
                        remaining: le_u32_at(b, 9),
                    },
                )
            } else {
                None
            }
        } else if id == 0x0B {
            if b.len() >= 3 && byte_bool(b[2]) is Some {
                Some(Packet::MotorStop { slave: b[1], gentle: byte_bool(b[2])->0 })
            } else {
                None
            }
        } else if id == 0x0C {
            if b.len() >= 2 && byte_bool(b[1]) is Some {
                Some(Packet::ActuatorMove { direction: byte_bool(b[1])->0 })
            } else {
                None
            }
        } else if id == 0x0D {
            Some(Packet::ActuatorStop)
        } else {
            None
        }
    }
}

/// Every packet takes between one and thirteen bytes.
pub proof fn lemma_packet_len(p: Packet)
    ensures
        1 <= packet_bytes(p).len() <= 13,
{
    vstd::bytes::lemma_auto_spec_u32_to_from_le_bytes();
}

proof fn lemma_i32_bits(x: i32)
    ensures
        (x as u32) as i32 == x,
{
    assert((x as u32) as i32 == x) by (bit_vector);
}

proof fn lemma_u32_bits(x: u32)
    ensures
        (x as i32) as u32 == x,
{
    assert((x as i32) as u32 == x) by (bit_vector);
}

/// Reading back the bytes of a packet gives the packet, whatever bytes
/// follow them.
pub proof fn lemma_packet_roundtrip(p: Packet, rest: Seq<u8>)
    ensures
        parse_packet(packet_bytes(p) + rest) == Some(p),
{
    vstd::bytes::lemma_auto_spec_u32_to_from_le_bytes();
    let b = packet_bytes(p) + rest;
    match p {
        Packet::Data { value } => {
            assert(b.subrange(1, 5) =~= spec_u32_to_le_bytes(value as u32));
            lemma_i32_bits(value);
        },
        Packet::MotorMove { slave, direction, rotations } => {
            assert(b.subrange(3, 7) =~= spec_u32_to_le_bytes(rotations));
        },
        Packet::MotorSetSpeed { slave, apply, speed } => {
            assert(b.subrange(3, 7) =~= spec_u32_to_le_bytes(speed));
        },
        Packet::MotorSetAcceleration { slave, acceleration } => {
            assert(b.subrange(2, 6) =~= spec_u32_to_le_bytes(acceleration));
        },
        Packet::MotorRecognition { slave, max_speed } => {
            assert(b.subrange(2, 6) =~= spec_u32_to_le_bytes(max_speed));
        },
        Packet::MotorStatus { slave, running, stopping, outputs, position, remaining } => {
            assert(b.subrange(5, 9) =~= spec_u32_to_le_bytes(position as u32));
            assert(b.subrange(9, 13) =~= spec_u32_to_le_bytes(remaining));
            lemma_i32_bits(position);
        },
        _ => {},
    }
}

/// A packet has exactly one encoding: bytes that read as a packet start
/// with the bytes of that packet.
pub proof fn lemma_packet_canonical(b: Seq<u8>)
    ensures
        parse_packet(b) matches Some(p) ==> packet_bytes(p).len() <= b.len() && b.subrange(
            0,
            packet_bytes(p).len() as int,
        ) == packet_bytes(p),
{
    vstd::bytes::lemma_auto_spec_u32_to_from_le_bytes();
    if let Some(p) = parse_packet(b) {
        let n = packet_bytes(p).len() as int;
        match p {
            Packet::Data { value } => {
                lemma_u32_bits(le_u32_at(b, 1));
                assert(spec_u32_to_le_bytes(le_u32_at(b, 1)) == b.subrange(1, 5));
            },
            Packet::MotorMove { slave, direction, rotations } => {
                assert(spec_u32_to_le_bytes(le_u32_at(b, 3)) == b.subrange(3, 7));
            },
            Packet::MotorSetSpeed { slave, apply, speed } => {
                assert(spec_u32_to_le_bytes(le_u32_at(b, 3)) == b.subrange(3, 7));
            },
            Packet::MotorSetAcceleration { slave, acceleration } => {
                assert(spec_u32_to_le_bytes(le_u32_at(b, 2)) == b.subrange(2, 6));
            },
            Packet::MotorRecognition { slave, max_speed } => {
                assert(spec_u32_to_le_bytes(le_u32_at(b, 2)) == b.subrange(2, 6));
            },
            Packet::MotorStatus { slave, running, stopping, outputs, position, remaining } => {
                lemma_u32_bits(le_u32_at(b, 5));
                assert(spec_u32_to_le_bytes(le_u32_at(b, 5)) == b.subrange(5, 9));
                assert(spec_u32_to_le_bytes(le_u32_at(b, 9)) == b.subrange(9, 13));
            },
            _ => {},
        }
        assert(b.subrange(0, n) =~= packet_bytes(p));
    }
}

fn bool_to_byte(b: bool) -> (r: u8)
    ensures
        r == bool_byte(b),
{
    if b {
        1
    } else {
        0
    }
}

fn byte_to_bool(b: u8) -> (r: Option<bool>)
    ensures
        r == byte_bool(b),
{
    if b == 0 {
        Some(false)
    } else if b == 1 {
        Some(true)
    } else {
        None
    }
}

fn push_u32(out: &mut Vec<u8>, x: u32)
    ensures
        final(out)@ == old(out)@ + spec_u32_to_le_bytes(x),
{
    let mut bytes = vstd::bytes::u32_to_le_bytes(x);
    out.append(&mut bytes);
}

fn read_u32(data: &[u8], at: usize) -> (r: u32)
    requires
        at + 4 <= data@.len(),
    ensures
        r == le_u32_at(data@, at as int),
{
    let n = data.len();
    assert(at + 4 <= n);
    vstd::bytes::u32_from_le_bytes(vstd::slice::slice_subrange(data, at, at + 4))
}

impl Packet {
    /// Serialises the packet.
    pub fn to_bytes(&self) -> (r: Vec<u8>)
        ensures
            r@ == packet_bytes(*self),
    {
        let mut out: Vec<u8> = Vec::new();
        match *self {
            Packet::Ready => {
                out.push(0x01);
            },
            Packet::Data { value } => {
                out.push(0x02);
                push_u32(&mut out, value as u32);
            },
            Packet::MotorMove { slave, direction, rotations } => {
                out.push(0x03);
                out.push(slave);
                out.push(bool_to_byte(direction));
                push_u32(&mut out, rotations);
            },
            Packet::MotorKeep { slave, direction } => {
                out.push(0x04);
                out.push(slave);
                out.push(bool_to_byte(direction));
            },
            Packet::MotorSetSpeed { slave, apply, speed } => {
                out.push(0x05);
                out.push(slave);
                out.push(bool_to_byte(apply));
                push_u32(&mut out, speed);
            },
            Packet::MotorSetAcceleration { slave, acceleration } => {
                out.push(0x06);
                out.push(slave);
                push_u32(&mut out, acceleration);
            },
            Packet::MotorSetOutputs { slave, outputs } => {
                out.push(0x07);
                out.push(slave);
                out.push(bool_to_byte(outputs));
            },
            Packet::MotorRecognition { slave, max_speed } => {
                out.push(0x08);
                out.push(slave);
                push_u32(&mut out, max_speed);
            },
            Packet::MotorAskStatus { slave } => {
                out.push(0x09);
                out.push(slave);
            },
            Packet::MotorStatus { slave, running, stopping, outputs, position, remaining } => {
                out.push(0x0A);
                out.push(slave);
                out.push(bool_to_byte(running));
                out.push(bool_to_byte(stopping));
                out.push(bool_to_byte(outputs));
                push_u32(&mut out, position as u32);
                push_u32(&mut out, remaining);
            },
            Packet::MotorStop { slave, gentle } => {
                out.push(0x0B);
                out.push(slave);
                out.push(bool_to_byte(gentle));
            },
            Packet::ActuatorMove { direction } => {
                out.push(0x0C);
                out.push(bool_to_byte(direction));
            },
            Packet::ActuatorStop => {
                out.push(0x0D);
            },
        }
        proof {
            assert(out@ =~= packet_bytes(*self));
        }
        out
    }

    /// Reads the packet at the start of `data`; returns the number of bytes
    /// it takes and the packet. Bytes after it are left alone.
    pub fn from_bytes(data: &[u8]) -> (r: Result<(usize, Packet), Error>)
        ensures
            match parse_packet(data@) {
                Some(p) => r == Ok::<(usize, Packet), Error>((packet_bytes(p).len() as usize, p)),
                None => r == Err::<(usize, Packet), Error>(Error::Packet),
            },
    {
        proof {
            vstd::bytes::lemma_auto_spec_u32_to_from_le_bytes();
                }
        let len = data.len();
        if len < 1 {
            return Err(Error::Packet);
        }
        let id = data[0];
        if id == 0x01 {
            Ok((1, Packet::Ready))
        } else if id == 0x02 {
            if len >= 5 {
                Ok((5, Packet::Data { value: read_u32(data, 1) as i32 }))
            } else {
                Err(Error::Packet)
            }
        } else if id == 0x03 {
            if len >= 7 {
                match byte_to_bool(data[2]) {
                    Some(direction) => Ok(
                        (7, Packet::MotorMove { slave: data[1], direction, rotations: read_u32(data, 3) }),
                    ),
                    None => Err(Error::Packet),
                }
            } else {
                Err(Error::Packet)
            }
        } else if id == 0x04 {
            if len >= 3 {
                match byte_to_bool(data[2]) {
                    Some(direction) => Ok((3, Packet::MotorKeep { slave: data[1], direction })),
                    None => Err(Error::Packet),
                }
            } else {
                Err(Error::Packet)
            }
        } else if id == 0x05 {
            if len >= 7 {
                match byte_to_bool(data[2]) {
                    Some(apply) => Ok(
                        (7, Packet::MotorSetSpeed { slave: data[1], apply, speed: read_u32(data, 3) }),
                    ),
                    None => Err(Error::Packet),
                }
            } else {
                Err(Error::Packet)
            }
        } else if id == 0x06 {
            if len >= 6 {
                Ok(
                    (
                        6,
                        Packet::MotorSetAcceleration {
                            slave: data[1],
                            acceleration: read_u32(data, 2),
                        },
                    ),
                )
            } else {
                Err(Error::Packet)
            }
        } else if id == 0x07 {
            if len >= 3 {
                match byte_to_bool(data[2]) {
                    Some(outputs) => Ok((3, Packet::MotorSetOutputs { slave: data[1], outputs })),
                    None => Err(Error::Packet),
                }
            } else {
                Err(Error::Packet)
            }
        } else if id == 0x08 {
            if len >= 6 {
                Ok((6, Packet::MotorRecognition { slave: data[1], max_speed: read_u32(data, 2) }))
            } else {
                Err(Error::Packet)
            }
        } else if id == 0x09 {
            if len >= 2 {
                Ok((2, Packet::MotorAskStatus { slave: data[1] }))
            } else {
                Err(Error::Packet)
            }
        } else if id == 0x0A {
            if len >= 13 {
                match (byte_to_bool(data[2]), byte_to_bool(data[3]), byte_to_bool(data[4])) {
                    (Some(running), Some(stopping), Some(outputs)) => Ok(
                        (
                            13,
                            Packet::MotorStatus {
                                slave: data[1],
                                running,
                                stopping,
                                outputs,
                                position: read_u32(data, 5) as i32,
                                remaining: read_u32(data, 9),
                            },
                        ),
                    ),
                    _ => Err(Error::Packet),
                }
            } else {
                Err(Error::Packet)
            }
        } else if id == 0x0B {
            if len >= 3 {
                match byte_to_bool(data[2]) {
                    Some(gentle) => Ok((3, Packet::MotorStop { slave: data[1], gentle })),
                    None => Err(Error::Packet),
                }
            } else {
                Err(Error::Packet)
            }
        } else if id == 0x0C {
            if len >= 2 {
                match byte_to_bool(data[1]) {
                    Some(direction) => Ok((2, Packet::ActuatorMove { direction })),
                    None => Err(Error::Packet),
                }
            } else {
                Err(Error::Packet)
            }
        } else if id == 0x0D {
            Ok((1, Packet::ActuatorStop))
        } else {
            Err(Error::Packet)
        }
    }
}

} // verus!
