//! The load actuator: its directions, and the decisions it takes on requests
//! and on weight readings. The weights themselves, the PID controller and the
//! pulse lengths are floating-point and stay with the caller, which hands
//! the outcome of each comparison in as a boolean.
use vstd::prelude::*;

use crate::protocol::Packet;

verus! {

/// The actuator component.
#[derive(Clone, Copy, Debug, PartialEq, Eq, Structural)]
pub struct Actuator;

impl Actuator {
    /// The name the actuator's actor is registered under.
    pub fn name(&self) -> (r: String)
        ensures
            r@ == "actuator"@,
    {
        "actuator".to_owned()
    }

    /// The packet that stops the actuator.
    pub fn packet(&self) -> (r: Packet)
        ensures
            r == Packet::ActuatorStop,
    {
        Packet::ActuatorStop
    }
}

/// A movement the user asks for.
#[derive(Clone, Copy, Debug, PartialEq, Eq, Structural)]
pub enum ActuatorMovement {
    Load,
    Unload,
}

/// The physical direction of the actuator: forward unloads, backward loads.
#[derive(Clone, Copy, Debug, PartialEq, Eq, Structural)]
pub enum ActuatorDirection {
    Forward,
    Backward,
}

impl ActuatorMovement {
    pub fn is_unload(self) -> (r: bool)
        ensures
            r == (self == ActuatorMovement::Unload),
    {
        self == ActuatorMovement::Unload
    }

    pub fn is_load(self) -> (r: bool)
        ensures
            r == (self == ActuatorMovement::Load),
    {
        self == ActuatorMovement::Load
    }

    /// The direction that performs the movement.
    pub fn direction(self) -> (r: ActuatorDirection)
        ensures
            r == movement_direction(self),
    {
        match self {
            ActuatorMovement::Load => ActuatorDirection::load(),
            ActuatorMovement::Unload => ActuatorDirection::unload(),
        }
    }

    /// The packet that starts the movement.
    pub fn into_packet(self) -> (r: Packet)
        ensures
            r == (Packet::ActuatorMove { direction: self == ActuatorMovement::Unload }),
    {
        self.direction().into_packet()
    }
}

/// The direction of a movement.
pub open spec fn movement_direction(m: ActuatorMovement) -> ActuatorDirection {
    match m {
        ActuatorMovement::Load => ActuatorDirection::Backward,
        ActuatorMovement::Unload => ActuatorDirection::Forward,
    }
}

impl ActuatorDirection {
    /// The direction that unloads.
    pub fn unload() -> (r: ActuatorDirection)
        ensures
            r == ActuatorDirection::Forward,
    {
        ActuatorDirection::Forward
    }

    /// The direction that loads.
    pub fn load() -> (r: ActuatorDirection)
        ensures
            r == ActuatorDirection::Backward,
    {
        ActuatorDirection::Backward
    }

    pub fn is_unload(self) -> (r: bool)
        ensures
            r == (self == ActuatorDirection::Forward),
    {
        self == ActuatorDirection::unload()
    }

    pub fn is_load(self) -> (r: bool)
        ensures
            r == (self == ActuatorDirection::Backward),
    {
        self == ActuatorDirection::load()
    }

    /// The packet that moves the actuator in this direction; its flag is set
    /// when the direction unloads.
    pub fn into_packet(self) -> (r: Packet)
        ensures
            r == (Packet::ActuatorMove { direction: self == ActuatorDirection::Forward }),
    {
        Packet::ActuatorMove { direction: self.is_unload() }
    }
}

impl From<ActuatorMovement> for ActuatorDirection {
    fn from(value: ActuatorMovement) -> (r: ActuatorDirection) {
        value.direction()
    }
}

impl vstd::std_specs::convert::FromSpecImpl<ActuatorMovement> for ActuatorDirection {
    open spec fn obeys_from_spec() -> bool {
        true
    }

    open spec fn from_spec(v: ActuatorMovement) -> ActuatorDirection {
        movement_direction(v)
    }
}

/// A direction unloads exactly when it does not load, and a movement keeps
/// its sense when turned into a direction and into a packet.
pub proof fn lemma_direction_sense(m: ActuatorMovement, d: ActuatorDirection)
    ensures
        (d == ActuatorDirection::Forward) != (d == ActuatorDirection::Backward),
        (movement_direction(m) == ActuatorDirection::Forward) == (m == ActuatorMovement::Unload),
        (movement_direction(m) == ActuatorDirection::Backward) == (m == ActuatorMovement::Load),
{
}

/// What the actuator is doing. The targets of loading and keeping are
/// weights and are held by the caller.
#[derive(Clone, Copy, Debug, PartialEq, Eq, Structural)]
pub enum ActuatorMode {
    Overloaded,
    Unloading,
    Loading,
    Keeping,
    Idle,
}

/// A request to the actuator; the target weight of `Load` and `Keep` is
/// held by the caller.
#[derive(Clone, Copy, Debug, PartialEq, Eq, Structural)]
pub enum ActuatorRequest {
    Load,
    Keep,
    Move(ActuatorMovement),
    Unload,
    Stop,
    Packet(Packet),
    ReloadSettings,
}

impl From<Packet> for ActuatorRequest {
    fn from(value: Packet) -> (r: ActuatorRequest) {
        ActuatorRequest::Packet(value)
    }
}

impl vstd::std_specs::convert::FromSpecImpl<Packet> for ActuatorRequest {
    open spec fn obeys_from_spec() -> bool {
        true
    }

    open spec fn from_spec(v: Packet) -> ActuatorRequest {
        ActuatorRequest::Packet(v)
    }
}

/// What the caller does after a decision, in the order given.
#[derive(Clone, Copy, Debug, PartialEq, Eq, Structural)]
pub enum ActuatorAction {
    /// Take the pending end of the current pulse, if any, and cancel it.
    AbortStep,
    /// Send a packet to the board.
    Forward(Packet),
    /// Report the current status to the master.
    SendStatus,
    /// Reset the PID controller and aim it at the requested target, clamped
    /// to the load limits.
    SetTarget,
    /// Ask the master to stop every board.
    SystemStop,
    /// Run a PID step on the reading and move for the correction it gives.
    StepPid,
    /// Read the actuator settings again and apply them.
    ReloadSettings,
    /// Turn a raw scale value into a weight, report it, cancel the pending
    /// pulse end, and decide on the reading.
    ProcessReading(i32),
}

/// Outcome of the comparisons made on a weight reading.
#[derive(Clone, Copy, Debug, PartialEq, Eq, Structural)]
pub struct Reading {
    /// The weight is above the maximum load.
    pub over_max_load: bool,
    /// The weight is closer to the target than the precision.
    pub at_setpoint: bool,
    /// The weight is below the precision.
    pub below_precision: bool,
}

/// The decision state of the actuator.
#[derive(Clone, Copy, Debug, PartialEq, Eq, Structural)]
pub struct ActuatorControl {
    pub mode: ActuatorMode,
    /// Overload protection is bypassed for an unloading move.
    pub bypass: bool,
}

/// Next state and actions for a request. While overloaded, loading and
/// keeping are refused and only unloading moves are let through.
pub open spec fn request_step(c: ActuatorControl, req: ActuatorRequest) -> (ActuatorControl, Seq<ActuatorAction>) {
    let overloaded = c.mode == ActuatorMode::Overloaded;
    match req {
        ActuatorRequest::Stop => (
            ActuatorControl {
                mode: if overloaded {
                    ActuatorMode::Overloaded
                } else {
                    ActuatorMode::Idle
                },
                bypass: false,
            },
            seq![
                ActuatorAction::AbortStep,
                ActuatorAction::Forward(Packet::ActuatorStop),
                ActuatorAction::SendStatus,
            ],
        ),
        ActuatorRequest::Load => if overloaded {
            (c, seq![])
        } else {
            (
                ActuatorControl { mode: ActuatorMode::Loading, ..c },
                seq![ActuatorAction::SetTarget, ActuatorAction::SendStatus],
            )
        },
        ActuatorRequest::Keep => if overloaded {
            (c, seq![])
        } else {
            (
                ActuatorControl { mode: ActuatorMode::Keeping, ..c },
                seq![ActuatorAction::SetTarget, ActuatorAction::SendStatus],
            )
        },
        ActuatorRequest::Unload => (
            ActuatorControl { mode: ActuatorMode::Unloading, ..c },
            seq![
                ActuatorAction::Forward(Packet::ActuatorMove { direction: true }),
                ActuatorAction::SendStatus,
            ],
        ),
        ActuatorRequest::Move(m) => if overloaded && m == ActuatorMovement::Load {
            (c, seq![])
        } else {
            (
                ActuatorControl { bypass: overloaded && m == ActuatorMovement::Unload, ..c },
                seq![
                    ActuatorAction::Forward(
                        Packet::ActuatorMove { direction: m == ActuatorMovement::Unload },
                    ),
                ],
            )
        },
        ActuatorRequest::Packet(p) => match p {
            Packet::Data { value } => (c, seq![ActuatorAction::ProcessReading(value)]),
            _ => (c, seq![]),
        },
        ActuatorRequest::ReloadSettings => (c, seq![ActuatorAction::ReloadSettings]),
    }
}

/// Next state and actions for a weight reading. Above the maximum load,
/// unless bypassed, the actuator is overloaded and every board is stopped.
pub open spec fn input_step(c: ActuatorControl, r: Reading) -> (ActuatorControl, Seq<ActuatorAction>) {
    if r.over_max_load && !c.bypass {
        (
            ActuatorControl { mode: ActuatorMode::Overloaded, ..c },
            seq![ActuatorAction::SystemStop, ActuatorAction::SendStatus],
        )
    } else {
        match c.mode {
            ActuatorMode::Keeping => if r.at_setpoint {
                (c, seq![])
            } else {
                (c, seq![ActuatorAction::StepPid])
            },
            ActuatorMode::Loading => if r.at_setpoint {
                (
                    ActuatorControl { mode: ActuatorMode::Idle, ..c },
                    seq![ActuatorAction::Forward(Packet::ActuatorStop), ActuatorAction::SendStatus],
                )
            } else {
                (c, seq![ActuatorAction::StepPid])
            },
            ActuatorMode::Overloaded => if c.bypass {
                (c, seq![])
            } else {
                (ActuatorControl { mode: ActuatorMode::Idle, ..c }, seq![ActuatorAction::SendStatus])
            },
            ActuatorMode::Unloading => if r.below_precision {
                (
                    ActuatorControl { mode: ActuatorMode::Idle, ..c },
                    seq![ActuatorAction::Forward(Packet::ActuatorStop), ActuatorAction::SendStatus],
                )
            } else {
                (c, seq![])
            },
            ActuatorMode::Idle => (c, seq![]),
        }
    }
}

impl ActuatorControl {
    /// An idle actuator, not bypassing the overload protection.
    pub fn new() -> (r: ActuatorControl)
        ensures
            r.mode == ActuatorMode::Idle,
            !r.bypass,
    {
        ActuatorControl { mode: ActuatorMode::Idle, bypass: false }
    }

    /// Decides on a request.
    pub fn handle(&mut self, req: ActuatorRequest) -> (r: Vec<ActuatorAction>)
        ensures
            *final(self) == request_step(*old(self), req).0,
            r@ == request_step(*old(self), req).1,
    {
        let overloaded = self.mode == ActuatorMode::Overloaded;
        let (next, actions) = match req {
            ActuatorRequest::Stop => {
                let mode = if overloaded {
                    ActuatorMode::Overloaded
                } else {
                    ActuatorMode::Idle
                };
                (
                    ActuatorControl { mode, bypass: false },
                    vec![
                        ActuatorAction::AbortStep,
                        ActuatorAction::Forward(Packet::ActuatorStop),
                        ActuatorAction::SendStatus,
                    ],
                )
            },
            ActuatorRequest::Load if !overloaded => (
                ActuatorControl { mode: ActuatorMode::Loading, bypass: self.bypass },
                vec![ActuatorAction::SetTarget, ActuatorAction::SendStatus],
            ),
            ActuatorRequest::Keep if !overloaded => (
                ActuatorControl { mode: ActuatorMode::Keeping, bypass: self.bypass },
                vec![ActuatorAction::SetTarget, ActuatorAction::SendStatus],
            ),
            ActuatorRequest::Unload => (
                ActuatorControl { mode: ActuatorMode::Unloading, bypass: self.bypass },
                vec![
                    ActuatorAction::Forward(ActuatorDirection::unload().into_packet()),
                    ActuatorAction::SendStatus,
                ],
            ),
            ActuatorRequest::Move(movement) if !overloaded || movement.is_unload() => (
                ActuatorControl { mode: self.mode, bypass: overloaded && movement.is_unload() },
                vec![ActuatorAction::Forward(movement.into_packet())],
            ),
            ActuatorRequest::Packet(packet) => match packet {
                Packet::Data { value } => (*self, vec![ActuatorAction::ProcessReading(value)]),
                _ => (*self, Vec::new()),
            },
            ActuatorRequest::ReloadSettings => (*self, vec![ActuatorAction::ReloadSettings]),
            _ => (*self, Vec::new()),
        };
        *self = next;
        actions
    }

    /// Decides on a weight reading.
    pub fn handle_input(&mut self, reading: Reading) -> (r: Vec<ActuatorAction>)
        ensures
            *final(self) == input_step(*old(self), reading).0,
            r@ == input_step(*old(self), reading).1,
    {
        if reading.over_max_load && !self.bypass {
            self.mode = ActuatorMode::Overloaded;
            return vec![ActuatorAction::SystemStop, ActuatorAction::SendStatus];
        }
        match self.mode {
            ActuatorMode::Keeping if !reading.at_setpoint => vec![ActuatorAction::StepPid],
            ActuatorMode::Loading => {
                if reading.at_setpoint {
                    self.mode = ActuatorMode::Idle;
                    vec![ActuatorAction::Forward(Packet::ActuatorStop), ActuatorAction::SendStatus]
                } else {
                    vec![ActuatorAction::StepPid]
                }
            },
            ActuatorMode::Overloaded if !self.bypass => {
                self.mode = ActuatorMode::Idle;
                vec![ActuatorAction::SendStatus]
            },
            ActuatorMode::Unloading => {
                if reading.below_precision {
                    self.mode = ActuatorMode::Idle;
                    vec![ActuatorAction::Forward(Packet::ActuatorStop), ActuatorAction::SendStatus]
                } else {
                    Vec::new()
                }
            },
            _ => Vec::new(),
        }
    }
}

/// The direction of a pulse for a PID correction: a negative correction
/// unloads, any other loads.
pub fn step_direction(correction_is_negative: bool) -> (r: ActuatorDirection)
    ensures
        r == (if correction_is_negative {
            ActuatorDirection::Forward
        } else {
            ActuatorDirection::Backward
        }),
{
    if correction_is_negative {
        ActuatorDirection::unload()
    } else {
        ActuatorDirection::load()
    }
}

/// While the actuator is overloaded, no request makes it load: loading and
/// keeping are refused, no loading move is sent, and only an unload request
/// leaves the overloaded mode.
pub proof fn lemma_overload_refuses_loading(c: ActuatorControl, req: ActuatorRequest)
    requires
        c.mode == ActuatorMode::Overloaded,
    ensures
        ({
            let (n, acts) = request_step(c, req);
            &&& !acts.contains(ActuatorAction::SetTarget)
            &&& !acts.contains(ActuatorAction::Forward(Packet::ActuatorMove { direction: false }))
            &&& (req != ActuatorRequest::Unload ==> n.mode == ActuatorMode::Overloaded)
        }),
{
    let (n, acts) = request_step(c, req);
    assert(!acts.contains(ActuatorAction::SetTarget)) by {
        if acts.contains(ActuatorAction::SetTarget) {
            let i = choose|i: int| 0 <= i < acts.len() && acts[i] == ActuatorAction::SetTarget;
        }
    }
    assert(!acts.contains(ActuatorAction::Forward(Packet::ActuatorMove { direction: false }))) by {
        if acts.contains(ActuatorAction::Forward(Packet::ActuatorMove { direction: false })) {
            let i = choose|i: int|
                0 <= i < acts.len() && acts[i] == ActuatorAction::Forward(
                    Packet::ActuatorMove { direction: false },
                );
        }
    }
}

/// A reading above the maximum load, unless bypassed, always overloads the
/// actuator and stops every board, whatever it was doing.
pub proof fn lemma_overload_stops_system(c: ActuatorControl, r: Reading)
    requires
        r.over_max_load,
        !c.bypass,
    ensures
        input_step(c, r).0.mode == ActuatorMode::Overloaded,
        input_step(c, r).1 == seq![ActuatorAction::SystemStop, ActuatorAction::SendStatus],
{
}

/// A stop ends the pending pulse, stops the actuator and reports the status.
/// It clears the bypass, and an actuator that is not overloaded goes idle:
/// after it, no reading short of an overload makes the actuator act. An
/// overloaded actuator stays overloaded.
pub proof fn lemma_stop_idles(c: ActuatorControl, r: Reading)
    ensures
        request_step(c, ActuatorRequest::Stop).1 == seq![
            ActuatorAction::AbortStep,
            ActuatorAction::Forward(Packet::ActuatorStop),
            ActuatorAction::SendStatus,
        ],
        !request_step(c, ActuatorRequest::Stop).0.bypass,
        c.mode != ActuatorMode::Overloaded ==> request_step(c, ActuatorRequest::Stop).0.mode
            == ActuatorMode::Idle,
        c.mode == ActuatorMode::Overloaded ==> request_step(c, ActuatorRequest::Stop).0.mode
            == ActuatorMode::Overloaded,
        c.mode != ActuatorMode::Overloaded && !r.over_max_load ==> input_step(
            request_step(c, ActuatorRequest::Stop).0,
            r,
        ).1.len() == 0,
        c.mode != ActuatorMode::Overloaded && !r.over_max_load ==> input_step(
            request_step(c, ActuatorRequest::Stop).0,
            r,
        ).0 == request_step(c, ActuatorRequest::Stop).0,
{
}

/// Only an actuator that is loading or keeping runs a PID step, and only on
/// a reading off the setpoint that does not trip the overload protection;
/// such a reading always gives exactly one PID step and leaves the mode as
/// it is. An idle actuator does nothing on a reading that does not trip
/// the protection.
pub proof fn lemma_pid_steps_only_towards_target(c: ActuatorControl, r: Reading)
    ensures
        input_step(c, r).1.contains(ActuatorAction::StepPid) ==> (c.mode == ActuatorMode::Loading
            || c.mode == ActuatorMode::Keeping) && !r.at_setpoint && !(r.over_max_load
            && !c.bypass),
        (c.mode == ActuatorMode::Loading || c.mode == ActuatorMode::Keeping) && !r.at_setpoint
            && !(r.over_max_load && !c.bypass) ==> input_step(c, r).1 == seq![
            ActuatorAction::StepPid,
        ] && input_step(c, r).0 == c,
        c.mode == ActuatorMode::Idle && !(r.over_max_load && !c.bypass) ==> input_step(c, r).1.len()
            == 0 && input_step(c, r).0 == c,
{
    let acts = input_step(c, r).1;
    if acts.contains(ActuatorAction::StepPid) {
        let k = choose|k: int| 0 <= k < acts.len() && acts[k] == ActuatorAction::StepPid;
        assert(acts[k] == ActuatorAction::StepPid);
    }
}

/// What each request asks of an actuator that is not overloaded: loading
/// and keeping aim the PID at a new target and report the new mode;
/// unloading drives the actuator in its unloading direction and reports;
/// a move drives it in the direction of the movement and nothing else; a
/// weight packet is handed on as a reading and any other packet is ignored.
/// A move clears the bypass; no other of these requests touches it.
pub proof fn lemma_requests_when_not_overloaded(c: ActuatorControl, req: ActuatorRequest)
    requires
        c.mode != ActuatorMode::Overloaded,
    ensures
        ({
            let (n, acts) = request_step(c, req);
            &&& req != ActuatorRequest::Stop && !(req is Move) ==> n.bypass == c.bypass
            &&& req == ActuatorRequest::Load ==> n.mode == ActuatorMode::Loading && acts == seq![
                ActuatorAction::SetTarget,
                ActuatorAction::SendStatus,
            ]
            &&& req == ActuatorRequest::Keep ==> n.mode == ActuatorMode::Keeping && acts == seq![
                ActuatorAction::SetTarget,
                ActuatorAction::SendStatus,
            ]
            &&& req == ActuatorRequest::Unload ==> n.mode == ActuatorMode::Unloading && acts
                == seq![
                ActuatorAction::Forward(Packet::ActuatorMove { direction: true }),
                ActuatorAction::SendStatus,
            ]
            &&& req is Move ==> n == (ActuatorControl { mode: c.mode, bypass: false })
            &&& req == ActuatorRequest::Move(ActuatorMovement::Unload) ==> acts == seq![
                ActuatorAction::Forward(Packet::ActuatorMove { direction: true }),
            ]
            &&& req == ActuatorRequest::Move(ActuatorMovement::Load) ==> acts == seq![
                ActuatorAction::Forward(Packet::ActuatorMove { direction: false }),
            ]
            &&& req == ActuatorRequest::ReloadSettings ==> n == c && acts == seq![
                ActuatorAction::ReloadSettings,
            ]
            &&& (req is Packet && req->Packet_0 is Data) ==> n == c && acts == seq![
                ActuatorAction::ProcessReading(req->Packet_0->value),
            ]
            &&& (req is Packet && !(req->Packet_0 is Data)) ==> n == c && acts.len() == 0
        }),
{
}

/// While overloaded, an unloading move is let through and turns the bypass
/// on, so that the readings it causes do not stop the system again; a
/// loading move is refused and changes nothing.
pub proof fn lemma_overloaded_moves(c: ActuatorControl)
    requires
        c.mode == ActuatorMode::Overloaded,
    ensures
        request_step(c, ActuatorRequest::Move(ActuatorMovement::Unload)).0 == (ActuatorControl {
            mode: ActuatorMode::Overloaded,
            bypass: true,
        }),
        request_step(c, ActuatorRequest::Move(ActuatorMovement::Unload)).1 == seq![
            ActuatorAction::Forward(Packet::ActuatorMove { direction: true }),
        ],
        request_step(c, ActuatorRequest::Move(ActuatorMovement::Load)) == (
            c,
            Seq::<ActuatorAction>::empty(),
        ),
{
}

/// A loading actuator stops at its setpoint, an unloading one once the
/// weight is below the precision, and an overloaded one without bypass
/// comes back to idle on a reading under the maximum load: each time the
/// actuator is stopped where it moves, goes idle and reports. A keeping
/// actuator at its setpoint does nothing.
pub proof fn lemma_readings_end_movements(c: ActuatorControl, r: Reading)
    requires
        !(r.over_max_load && !c.bypass),
    ensures
        c.mode == ActuatorMode::Loading && r.at_setpoint ==> input_step(c, r) == (
            ActuatorControl { mode: ActuatorMode::Idle, bypass: c.bypass },
            seq![ActuatorAction::Forward(Packet::ActuatorStop), ActuatorAction::SendStatus],
        ),
        c.mode == ActuatorMode::Unloading && r.below_precision ==> input_step(c, r) == (
            ActuatorControl { mode: ActuatorMode::Idle, bypass: c.bypass },
            seq![ActuatorAction::Forward(Packet::ActuatorStop), ActuatorAction::SendStatus],
        ),
        c.mode == ActuatorMode::Unloading && !r.below_precision ==> input_step(c, r) == (
            c,
            Seq::<ActuatorAction>::empty(),
        ),
        c.mode == ActuatorMode::Overloaded && !c.bypass ==> input_step(c, r) == (
            ActuatorControl { mode: ActuatorMode::Idle, bypass: false },
            seq![ActuatorAction::SendStatus],
        ),
        c.mode == ActuatorMode::Keeping && r.at_setpoint ==> input_step(c, r) == (
            c,
            Seq::<ActuatorAction>::empty(),
        ),
{
}

} // verus!
