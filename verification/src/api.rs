//! What the user interface is offered: serial ports and stop modes.
use vstd::prelude::*;

use crate::components::motor::MotorMessage;

verus! {

/// A USB serial port the user can pick for a controller.
#[derive(Debug)]
pub struct Port {
    pub name: String,
    pub manufacturer: Option<String>,
    pub serial_number: Option<String>,
}

/// The USB description of a serial port.
#[derive(Debug)]
pub struct UsbDetails {
    pub manufacturer: Option<String>,
    pub serial_number: Option<String>,
}

/// A serial port found on the machine; `usb` is there for USB ports only.
#[derive(Debug)]
pub struct FoundPort {
    pub port_name: String,
    pub usb: Option<UsbDetails>,
}

/// Whether a port is a USB port, and the view the user gets of it.
pub open spec fn offered(p: FoundPort) -> bool {
    p.usb is Some
}

pub open spec fn port_view(p: FoundPort) -> (Seq<char>, Option<String>, Option<String>) {
    (p.port_name@, p.usb->0.manufacturer, p.usb->0.serial_number)
}

/// The USB ports among the found ones, in order.
pub open spec fn usb_port_views(found: Seq<FoundPort>) -> Seq<(Seq<char>, Option<String>, Option<String>)>
    decreases found.len(),
{
    if found.len() == 0 {
        seq![]
    } else if offered(found.last()) {
        usb_port_views(found.drop_last()).push(port_view(found.last()))
    } else {
        usb_port_views(found.drop_last())
    }
}

pub open spec fn offered_view(p: Port) -> (Seq<char>, Option<String>, Option<String>) {
    (p.name@, p.manufacturer, p.serial_number)
}

/// Keeps the USB ports, with their manufacturer and serial number.
pub fn usb_ports(found: Vec<FoundPort>) -> (r: Vec<Port>)
    ensures
        r@.map_values(|p: Port| offered_view(p)) == usb_port_views(found@),
{
    let ghost all = found@;
    let mut r: Vec<Port> = Vec::new();
    let mut rest = found;
    let n = rest.len();
    assert(rest@ =~= all.subrange(0, n as int));
    for i in 0..n
        invariant
            n == all.len(),
            rest@ == all.subrange(i as int, n as int),
            r@.map_values(|p: Port| offered_view(p)) == usb_port_views(all.take(i as int)),
    {
        let port = rest.remove(0);
        proof {
            assert(port == all[i as int]);
            assert(rest@ =~= all.subrange(i + 1, n as int));
            assert(all.take(i + 1).drop_last() =~= all.take(i as int));
        }
        match port.usb {
            Some(usb) => {
                r.push(
                    Port {
                        name: port.port_name,
                        manufacturer: usb.manufacturer,
                        serial_number: usb.serial_number,
                    },
                );
                assert(r@.map_values(|p: Port| offered_view(p)) =~= usb_port_views(
                    all.take(i as int),
                ).push(port_view(all[i as int])));
            },
            None => {},
        }
    }
    assert(all.take(n as int) =~= all);
    r
}

/// How a motor is asked to stop.
#[derive(Clone, Copy, Debug, PartialEq, Eq, Structural)]
pub enum MotorStopMode {
    Graceful,
    Emergency,
}

impl MotorStopMode {
    /// The message that stops a motor in this mode.
    pub fn message(self) -> (r: MotorMessage)
        ensures
            r == (if self == MotorStopMode::Graceful {
                MotorMessage::GracefulStop
            } else {
                MotorMessage::EmergencyStop
            }),
    {
        if self == MotorStopMode::Graceful {
            MotorMessage::GracefulStop
        } else {
            MotorMessage::EmergencyStop
        }
    }
}

} // verus!
