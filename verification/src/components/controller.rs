//! Controllers: one board on one serial port, and the components it drives.
use vstd::prelude::*;

use crate::components::actuator::Actuator;
use crate::components::motor::Motor;
use crate::error::Error;
use crate::protocol::Packet;

verus! {

/// A board, as the user configures it.
#[derive(Debug)]
pub struct Controller {
    pub id: String,
    pub group: ControllerGroup,
    pub serial_port: String,
    pub baud_rate: u32,
}

impl Clone for Controller {
    fn clone(&self) -> (r: Controller)
        ensures
            r == *self,
    {
        Controller {
            id: self.id.clone(),
            group: self.group,
            serial_port: self.serial_port.clone(),
            baud_rate: self.baud_rate,
        }
    }
}

impl Controller {
    /// The name the controller's multiplexer is registered under: `mux-`
    /// and the controller's id.
    pub fn mux_name(&self) -> (r: String)
        ensures
            r@ == "mux-"@ + self.id@,
    {
        "mux-".to_owned().concat(self.id.as_str())
    }
}

/// The connection status of a controller.
#[derive(Debug)]
pub enum ControllerStatus {
    Connected,
    Disconnected,
    Failed { reason: String },
}

impl Clone for ControllerStatus {
    fn clone(&self) -> (r: ControllerStatus)
        ensures
            r == *self,
    {
        match self {
            ControllerStatus::Connected => ControllerStatus::Connected,
            ControllerStatus::Disconnected => ControllerStatus::Disconnected,
            ControllerStatus::Failed { reason } => ControllerStatus::Failed { reason: reason.clone() },
        }
    }
}

/// The kind of board, which fixes the components it drives.
#[derive(Clone, Copy, Debug, PartialEq, Eq, Hash, Structural)]
pub enum ControllerGroup {
    Default,
    Motors,
}

/// A component driven by a controller.
#[derive(Clone, Copy, Debug, PartialEq, Eq, Structural)]
pub enum ControllerChild {
    Motor(Motor),
    Actuator(Actuator),
}

/// The name of a group.
pub open spec fn group_name(g: ControllerGroup) -> Seq<char> {
    match g {
        ControllerGroup::Default => "default"@,
        ControllerGroup::Motors => "motors"@,
    }
}

/// The components of a group: the default board drives the actuator, the
/// motors board drives motors 1 and 2.
pub open spec fn group_children(g: ControllerGroup) -> Seq<ControllerChild> {
    match g {
        ControllerGroup::Default => seq![ControllerChild::Actuator(Actuator)],
        ControllerGroup::Motors => seq![
            ControllerChild::Motor(Motor { slave: 1 }),
            ControllerChild::Motor(Motor { slave: 2 }),
        ],
    }
}

/// The packet that stops a component.
pub open spec fn stop_packet(c: ControllerChild) -> Packet {
    match c {
        ControllerChild::Motor(m) => Packet::MotorStop { slave: m.slave, gentle: false },
        ControllerChild::Actuator(_) => Packet::ActuatorStop,
    }
}

impl ControllerGroup {
    /// Every group, in the order offered to the user.
    pub fn all() -> (r: Vec<ControllerGroup>)
        ensures
            r@ == seq![ControllerGroup::Default, ControllerGroup::Motors],
    {
        vec![ControllerGroup::Default, ControllerGroup::Motors]
    }

    pub fn name(self) -> (r: String)
        ensures
            r@ == group_name(self),
    {
        match self {
            ControllerGroup::Default => "default".to_owned(),
            ControllerGroup::Motors => "motors".to_owned(),
        }
    }

    pub fn children(self) -> (r: Vec<ControllerChild>)
        ensures
            r@ == group_children(self),
    {
        match self {
            ControllerGroup::Default => vec![ControllerChild::Actuator(Actuator)],
            ControllerGroup::Motors => vec![
                ControllerChild::Motor(Motor { slave: 1 }),
                ControllerChild::Motor(Motor { slave: 2 }),
            ],
        }
    }
}

impl ControllerChild {
    /// The packet that stops this component.
    pub fn stoppable(&self) -> (r: Packet)
        ensures
            r == stop_packet(*self),
    {
        match self {
            ControllerChild::Motor(motor) => motor.packet(),
            ControllerChild::Actuator(actuator) => actuator.packet(),
        }
    }
}

/// A request to a controller.
#[derive(Clone, Copy, Debug, PartialEq, Eq, Structural)]
pub enum ControllerMessage {
    Connect,
    Forward(Packet),
}

/// What a controller keeps: the handle of its multiplexer, once connected,
/// and how many times the multiplexer was restarted.
pub struct ControllerState<M> {
    pub mux: Option<M>,
    pub restart_count: u32,
}

/// The number of multiplexer restarts after which a controller gives up.
pub const MAX_MUX_RESTARTS: u32 = 3;

impl<M> ControllerState<M> {
    /// A controller that is not connected yet.
    pub fn new() -> (r: ControllerState<M>)
        ensures
            r.mux is None,
            r.restart_count == 0,
    {
        ControllerState { mux: None, restart_count: 0 }
    }

    /// The multiplexer to forward a packet to; a controller that is not
    /// connected misses it.
    pub fn forward_target(&self) -> (r: Result<&M, Error>)
        ensures
            match self.mux {
                Some(m) => r == Ok::<&M, Error>(&m),
                None => r == Err::<&M, Error>(Error::MissingMux),
            },
    {
        match &self.mux {
            Some(m) => Ok(m),
            None => Err(Error::MissingMux),
        }
    }

    /// Records that a child stopped; `is_mux` tells whether it was the
    /// current multiplexer, which a controller has only once connected.
    pub fn child_terminated(&mut self, is_mux: bool) -> (r: Result<(), Error>)
        requires
            is_mux ==> old(self).mux is Some,
        ensures
            final(self).mux == old(self).mux,
            match restart_after_termination(old(self).restart_count, is_mux) {
                Ok(n) => r is Ok && final(self).restart_count == n,
                Err(e) => r == Err::<(), Error>(e) && final(self).restart_count == old(
                    self,
                ).restart_count,
            },
    {
        if is_mux {
            if self.restart_count > MAX_MUX_RESTARTS {
                return Err(Error::MissingMux);
            }
            self.restart_count = self.restart_count + 1;
        }
        Ok(())
    }
}

/// The restart count after a child of a controller stops: a stopped
/// multiplexer counts one restart, and one more after three restarts makes
/// the controller fail.
pub open spec fn restart_after_termination(count: u32, is_mux: bool) -> Result<u32, Error> {
    if is_mux {
        if count > MAX_MUX_RESTARTS {
            Err(Error::MissingMux)
        } else {
            Ok((count + 1) as u32)
        }
    } else {
        Ok(count)
    }
}

/// The restart count of a controller never goes above four: from at most
/// four, a child's termination either fails the controller or leaves at
/// most four.
pub proof fn lemma_restart_count_bounded(count: u32, is_mux: bool)
    requires
        count <= MAX_MUX_RESTARTS + 1,
    ensures
        restart_after_termination(count, is_mux) matches Ok(n) ==> n <= MAX_MUX_RESTARTS + 1,
{
}

} // verus!
