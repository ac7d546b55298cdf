//! The stepper motors: limits, movements and the packets a motor sends for
//! each request.
use vstd::prelude::*;

use crate::protocol::Packet;

verus! {

/// Limits that every movement of a motor is held to.
#[derive(Clone, Copy, Debug, PartialEq, Eq, Structural)]
pub struct MotorsLimits {
    pub max_speed: u32,
    pub max_rotations: u32,
    pub acceleration: u32,
    pub steps_per_pulse: u16,
}

impl MotorsLimits {
    /// Limits that a movement can be clamped to: the largest speed and the
    /// largest rotation setting are at least 1, and ten times the rotation
    /// setting, the bound on a movement's rotations, fits a `u32`.
    pub open spec fn clampable(self) -> bool {
        self.max_speed >= 1 && self.max_rotations >= 1 && self.max_rotations <= u32::MAX / 10
    }

    /// The largest number of rotations of a movement.
    pub open spec fn rotation_bound(self) -> int {
        self.max_rotations * 10
    }

    /// Whether movements can be clamped to these limits.
    pub fn is_clampable(&self) -> (r: bool)
        ensures
            r == self.clampable(),
    {
        self.max_speed >= 1 && self.max_rotations >= 1 && self.max_rotations <= u32::MAX / 10
    }
}

/// `x` brought into `[lo, hi]`.
pub open spec fn clamp_int(x: int, lo: int, hi: int) -> int {
    if x < lo {
        lo
    } else if x > hi {
        hi
    } else {
        x
    }
}

/// A movement requested of a motor.
#[derive(Clone, Copy, Debug, PartialEq, Eq, Structural)]
pub struct MotorMovement {
    pub speed: u32,
    pub direction: bool,
    pub rotations: u32,
    pub deferred: bool,
}

/// A movement held to the limits: speed in `[1, max_speed]`, rotations in
/// `[1, max_rotations * 10]`, direction and deferral unchanged.
pub open spec fn clamped(m: MotorMovement, limits: MotorsLimits) -> MotorMovement {
    MotorMovement {
        speed: clamp_int(m.speed as int, 1, limits.max_speed as int) as u32,
        direction: m.direction,
        rotations: clamp_int(m.rotations as int, 1, limits.rotation_bound()) as u32,
        deferred: m.deferred,
    }
}

fn clamp_u32(x: u32, lo: u32, hi: u32) -> (r: u32)
    requires
        lo <= hi,
    ensures
        r == clamp_int(x as int, lo as int, hi as int),
{
    if x < lo {
        lo
    } else if x > hi {
        hi
    } else {
        x
    }
}

impl MotorMovement {
    /// Holds the movement to the limits. Limits that cannot be clamped to
    /// are refused by `requires`: the bounds would cross.
    pub fn clamp(&mut self, limits: &MotorsLimits)
        requires
            limits.clampable(),
        ensures
            *final(self) == clamped(*old(self), *limits),
            1 <= final(self).speed <= limits.max_speed,
            1 <= final(self).rotations <= limits.rotation_bound(),
    {
        self.speed = clamp_u32(self.speed, 1, limits.max_speed);
        self.rotations = clamp_u32(self.rotations, 1, limits.max_rotations * 10);
    }
}

/// Clamping twice is clamping once.
pub proof fn lemma_clamp_idempotent(m: MotorMovement, limits: MotorsLimits)
    requires
        limits.clampable(),
    ensures
        clamped(clamped(m, limits), limits) == clamped(m, limits),
{
}

/// A movement already within the limits is left as it is.
pub proof fn lemma_clamp_keeps_valid(m: MotorMovement, limits: MotorsLimits)
    requires
        limits.clampable(),
        1 <= m.speed <= limits.max_speed,
        1 <= m.rotations <= limits.rotation_bound(),
    ensures
        clamped(m, limits) == m,
{
}

/// What a motor reports of itself.
#[derive(Clone, Copy, Debug, PartialEq, Eq, Structural)]
pub enum MotorStatus {
    Idle,
    Stopping,
    Spinning { position: i32, remaining: u32 },
}

/// The status a board reports: idle when not running, spinning when running
/// and not stopping, stopping otherwise.
pub open spec fn reported_status(running: bool, stopping: bool, position: i32, remaining: u32) -> MotorStatus {
    if !running {
        MotorStatus::Idle
    } else if !stopping {
        MotorStatus::Spinning { position, remaining }
    } else {
        MotorStatus::Stopping
    }
}

/// A motor, addressed on its board by its slave number.
#[derive(Clone, Copy, Debug, PartialEq, Eq, Structural)]
pub struct Motor {
    pub slave: u8,
}

impl Motor {
    /// The packet that stops the motor at once.
    pub fn packet(&self) -> (r: Packet)
        ensures
            r == (Packet::MotorStop { slave: self.slave, gentle: false }),
    {
        Packet::MotorStop { slave: self.slave, gentle: false }
    }
}

/// The packets that keep a motor turning: enable the outputs, set the speed
/// without applying it, set the acceleration, keep turning.
pub open spec fn keep_packets(slave: u8, m: MotorMovement, limits: MotorsLimits) -> Seq<Packet> {
    seq![
        Packet::MotorSetOutputs { slave, outputs: true },
        Packet::MotorSetSpeed { slave, apply: false, speed: m.speed },
        Packet::MotorSetAcceleration { slave, acceleration: limits.acceleration },
        Packet::MotorKeep { slave, direction: m.direction },
    ]
}

/// The packets that turn a motor a number of times: stop it first so that
/// its position starts again, then as for keeping, then move.
pub open spec fn spin_packets(slave: u8, m: MotorMovement, limits: MotorsLimits) -> Seq<Packet> {
    seq![
        Packet::MotorStop { slave, gentle: false },
        Packet::MotorSetOutputs { slave, outputs: true },
        Packet::MotorSetSpeed { slave, apply: false, speed: m.speed },
        Packet::MotorSetAcceleration { slave, acceleration: limits.acceleration },
        Packet::MotorMove { slave, direction: m.direction, rotations: m.rotations },
    ]
}

/// What the motor component knows.
#[derive(Clone, Copy, Debug, PartialEq, Eq, Structural)]
pub struct MotorState {
    pub status: MotorStatus,
    pub max_speed: u32,
    pub config: MotorsLimits,
}

impl MotorState {
    /// A motor that is idle and whose largest speed is not known yet.
    pub fn new(config: MotorsLimits) -> (r: MotorState)
        ensures
            r == (MotorState { status: MotorStatus::Idle, max_speed: 0, config }),
    {
        MotorState { status: MotorStatus::Idle, max_speed: 0, config }
    }

    /// Clamps the movement and gives the packets that keep the motor turning.
    pub fn keep(&self, slave: u8, movement: &mut MotorMovement) -> (r: Vec<Packet>)
        requires
            self.config.clampable(),
        ensures
            *final(movement) == clamped(*old(movement), self.config),
            r@ == keep_packets(slave, *final(movement), self.config),
    {
        movement.clamp(&self.config);
        vec![
            Packet::MotorSetOutputs { slave, outputs: true },
            Packet::MotorSetSpeed { slave, speed: movement.speed, apply: false },
            Packet::MotorSetAcceleration { slave, acceleration: self.config.acceleration },
            Packet::MotorKeep { slave, direction: movement.direction },
        ]
    }

    /// Clamps the movement and gives the packets that turn the motor.
    pub fn spin(&self, slave: u8, movement: &mut MotorMovement) -> (r: Vec<Packet>)
        requires
            self.config.clampable(),
        ensures
            *final(movement) == clamped(*old(movement), self.config),
            r@ == spin_packets(slave, *final(movement), self.config),
    {
        movement.clamp(&self.config);
        let r = vec![
            Packet::MotorStop { slave, gentle: false },
            Packet::MotorSetOutputs { slave, outputs: true },
            Packet::MotorSetSpeed { slave, speed: movement.speed, apply: false },
            Packet::MotorSetAcceleration { slave, acceleration: self.config.acceleration },
            Packet::MotorMove { slave, direction: movement.direction, rotations: movement.rotations },
        ];
        assert(r@ =~= spin_packets(slave, *movement, self.config));
        r
    }
}

/// A request to a motor. Asking for the largest speed carries no reply
/// channel here: the answer comes back as an action.
#[derive(Clone, Copy, Debug, PartialEq, Eq, Structural)]
pub enum MotorMessage {
    Keep(MotorMovement),
    Spin(MotorMovement),
    GracefulStop,
    EmergencyStop,
    Packet(Packet),
    SetOutputs(bool),
    GetMaxSpeed,
    ReloadSettings,
}

impl From<Packet> for MotorMessage {
    fn from(packet: Packet) -> (r: MotorMessage) {
        MotorMessage::Packet(packet)
    }
}

impl vstd::std_specs::convert::FromSpecImpl<Packet> for MotorMessage {
    open spec fn obeys_from_spec() -> bool {
        true
    }

    open spec fn from_spec(v: Packet) -> MotorMessage {
        MotorMessage::Packet(v)
    }
}

/// What the caller does after a motor decision, in the order given.
#[derive(Clone, Copy, Debug, PartialEq, Eq, Structural)]
pub enum MotorAction {
    /// Send a packet to the board through the controller.
    Forward(Packet),
    /// Answer a request for the largest speed.
    ReplyMaxSpeed(u32),
    /// Read the motor limits again and put them in the state.
    ReloadSettings,
    /// Report the motor's status, with whether its outputs are enabled, to
    /// the master.
    ReportStatus(MotorStatus, bool),
}

/// Each packet, to be forwarded.
pub open spec fn forwards(ps: Seq<Packet>) -> Seq<MotorAction> {
    ps.map_values(|p: Packet| MotorAction::Forward(p))
}

/// Next state and actions of the motor `slave` on a message. Status and
/// recognition packets of other slaves are ignored.
pub open spec fn motor_step(slave: u8, st: MotorState, msg: MotorMessage) -> (MotorState, Seq<MotorAction>) {
    match msg {
        MotorMessage::GracefulStop => (
            st,
            seq![MotorAction::Forward(Packet::MotorStop { slave, gentle: true })],
        ),
        MotorMessage::EmergencyStop => (
            st,
            seq![MotorAction::Forward(Packet::MotorStop { slave, gentle: false })],
        ),
        MotorMessage::Keep(m) => (st, forwards(keep_packets(slave, clamped(m, st.config), st.config))),
        MotorMessage::Spin(m) => (st, forwards(spin_packets(slave, clamped(m, st.config), st.config))),
        MotorMessage::SetOutputs(outputs) => (
            st,
            seq![MotorAction::Forward(Packet::MotorSetOutputs { slave, outputs })],
        ),
        MotorMessage::GetMaxSpeed => (st, seq![MotorAction::ReplyMaxSpeed(st.max_speed)]),
        MotorMessage::ReloadSettings => (st, seq![MotorAction::ReloadSettings]),
        MotorMessage::Packet(p) => match p {
            Packet::MotorStatus { slave: s, running, stopping, outputs, position, remaining } => if s
                == slave {
                let status = reported_status(running, stopping, position, remaining);
                (MotorState { status, ..st }, seq![MotorAction::ReportStatus(status, outputs)])
            } else {
                (st, seq![])
            },
            Packet::MotorRecognition { slave: s, max_speed } => if s == slave {
                (MotorState { max_speed, ..st }, seq![])
            } else {
                (st, seq![])
            },
            _ => (st, seq![]),
        },
    }
}

/// The state of the motor `slave` after deciding on each message in turn.
pub open spec fn motor_run(slave: u8, st: MotorState, msgs: Seq<MotorMessage>) -> MotorState
    decreases msgs.len(),
{
    if msgs.len() == 0 {
        st
    } else {
        motor_step(slave, motor_run(slave, st, msgs.drop_last()), msgs.last()).0
    }
}

/// The largest speed in the last recognition packet of `slave` among the
/// messages, or `none` where there is no such packet.
pub open spec fn last_recognised(slave: u8, msgs: Seq<MotorMessage>, none: u32) -> u32
    decreases msgs.len(),
{
    if msgs.len() == 0 {
        none
    } else {
        match msgs.last() {
            MotorMessage::Packet(Packet::MotorRecognition { slave: s, max_speed }) => if s
                == slave {
                max_speed
            } else {
                last_recognised(slave, msgs.drop_last(), none)
            },
            _ => last_recognised(slave, msgs.drop_last(), none),
        }
    }
}

/// After any run of messages, a motor asked for its largest speed answers
/// with the one its board last recognised, or with the one it started with
/// (0 for a new motor) where no recognition came; the question changes
/// nothing.
pub proof fn lemma_max_speed_reply(slave: u8, st: MotorState, msgs: Seq<MotorMessage>)
    ensures
        motor_run(slave, st, msgs).max_speed == last_recognised(slave, msgs, st.max_speed),
        motor_step(slave, motor_run(slave, st, msgs), MotorMessage::GetMaxSpeed) == (
            motor_run(slave, st, msgs),
            seq![MotorAction::ReplyMaxSpeed(last_recognised(slave, msgs, st.max_speed))],
        ),
    decreases msgs.len(),
{
    if msgs.len() > 0 {
        lemma_max_speed_reply(slave, st, msgs.drop_last());
    }
}

/// `n` is `x` held to `[1, hi]`: the bound it passes, or `x` itself.
pub open spec fn held_to(n: int, x: int, hi: int) -> bool {
    &&& 1 <= n <= hi
    &&& (1 <= x <= hi ==> n == x)
    &&& (x < 1 ==> n == 1)
    &&& (x > hi ==> n == hi)
}

/// A spin request turns the motor a number of times: it stops the motor
/// first, enables its outputs, sets the speed (held to the limits, not
/// applied yet) and the acceleration, and ends by moving it in the requested
/// direction by the requested rotations held to ten times the rotation
/// limit. It never asks the motor to keep turning, and changes no state.
pub proof fn lemma_spin_moves_by_rotations(slave: u8, st: MotorState, m: MotorMovement)
    requires
        st.config.clampable(),
    ensures
        ({
            let (next, acts) = motor_step(slave, st, MotorMessage::Spin(m));
            &&& next == st
            &&& acts.len() == 5
            &&& acts[0] == MotorAction::Forward(Packet::MotorStop { slave, gentle: false })
            &&& acts[1] == MotorAction::Forward(Packet::MotorSetOutputs { slave, outputs: true })
            &&& acts[2] matches MotorAction::Forward(Packet::MotorSetSpeed { slave: s, apply, speed })
                && s == slave && !apply && held_to(speed as int, m.speed as int, st.config.max_speed as int)
            &&& acts[3] == MotorAction::Forward(
                Packet::MotorSetAcceleration { slave, acceleration: st.config.acceleration },
            )
            &&& acts[4] matches MotorAction::Forward(Packet::MotorMove { slave: s, direction, rotations })
                && s == slave && direction == m.direction && held_to(
                rotations as int,
                m.rotations as int,
                st.config.max_rotations * 10,
            )
            &&& forall|i: int| 0 <= i < acts.len() ==> !(#[trigger] acts[i] matches MotorAction::Forward(Packet::MotorKeep { .. }))
        }),
{
}

/// A keep request makes the motor turn without end: it enables the
/// outputs, sets the speed (held to the limits, not applied yet) and the
/// acceleration, and ends by keeping the motor turning in the requested
/// direction. It neither stops the motor first nor moves it by a count,
/// and changes no state.
pub proof fn lemma_keep_turns_on(slave: u8, st: MotorState, m: MotorMovement)
    requires
        st.config.clampable(),
    ensures
        ({
            let (next, acts) = motor_step(slave, st, MotorMessage::Keep(m));
            &&& next == st
            &&& acts.len() == 4
            &&& acts[0] == MotorAction::Forward(Packet::MotorSetOutputs { slave, outputs: true })
            &&& acts[1] matches MotorAction::Forward(Packet::MotorSetSpeed { slave: s, apply, speed })
                && s == slave && !apply && held_to(speed as int, m.speed as int, st.config.max_speed as int)
            &&& acts[2] == MotorAction::Forward(
                Packet::MotorSetAcceleration { slave, acceleration: st.config.acceleration },
            )
            &&& acts[3] == MotorAction::Forward(Packet::MotorKeep { slave, direction: m.direction })
            &&& forall|i: int| 0 <= i < acts.len() ==> !(#[trigger] acts[i] matches MotorAction::Forward(Packet::MotorMove { .. }))
            &&& forall|i: int| 0 <= i < acts.len() ==> !(#[trigger] acts[i] matches MotorAction::Forward(Packet::MotorStop { .. }))
        }),
{
}

/// A status report of the motor's own board sets its status (idle when not
/// running, stopping when running and stopping, spinning with the reported
/// position and remaining steps otherwise) and passes it on with the
/// board's outputs flag as reported, whatever the other flags say; the
/// largest speed and the limits stay. A report of another slave changes
/// nothing and gives no action.
pub proof fn lemma_status_report(
    slave: u8,
    st: MotorState,
    s: u8,
    running: bool,
    stopping: bool,
    outputs: bool,
    position: i32,
    remaining: u32,
)
    ensures
        ({
            let p = Packet::MotorStatus { slave: s, running, stopping, outputs, position, remaining };
            let (next, acts) = motor_step(slave, st, MotorMessage::Packet(p));
            let status = if !running {
                MotorStatus::Idle
            } else if stopping {
                MotorStatus::Stopping
            } else {
                MotorStatus::Spinning { position, remaining }
            };
            &&& s == slave ==> next.status == status && next.max_speed == st.max_speed
                && next.config == st.config
            &&& s == slave ==> acts == seq![MotorAction::ReportStatus(status, outputs)]
            &&& s != slave ==> next == st && acts.len() == 0
        }),
{
}

/// Stops and output switches go straight to the motor's board: a graceful
/// stop asks for a gentle stop, an emergency stop for an immediate one, and
/// the outputs are switched as asked. Reloading the settings is asked of
/// the caller. None of these changes the state.
pub proof fn lemma_direct_commands(slave: u8, st: MotorState, outputs: bool)
    ensures
        motor_step(slave, st, MotorMessage::GracefulStop) == (
            st,
            seq![MotorAction::Forward(Packet::MotorStop { slave, gentle: true })],
        ),
        motor_step(slave, st, MotorMessage::EmergencyStop) == (
            st,
            seq![MotorAction::Forward(Packet::MotorStop { slave, gentle: false })],
        ),
        motor_step(slave, st, MotorMessage::SetOutputs(outputs)) == (
            st,
            seq![MotorAction::Forward(Packet::MotorSetOutputs { slave, outputs })],
        ),
        motor_step(slave, st, MotorMessage::ReloadSettings) == (
            st,
            seq![MotorAction::ReloadSettings],
        ),
{
}

/// A recognition packet of the motor's own board sets its largest speed and
/// nothing else, with no action; one of another slave, and any packet other
/// than a status report or a recognition, changes nothing and gives no
/// action.
pub proof fn lemma_other_packets(slave: u8, st: MotorState, p: Packet)
    requires
        !(p is MotorStatus),
    ensures
        (p is MotorRecognition && p->MotorRecognition_slave == slave) ==> motor_step(
            slave,
            st,
            MotorMessage::Packet(p),
        ) == (
            MotorState { status: st.status, max_speed: p->MotorRecognition_max_speed, config: st.config },
            Seq::<MotorAction>::empty(),
        ),
        !(p is MotorRecognition && p->MotorRecognition_slave == slave) ==> motor_step(
            slave,
            st,
            MotorMessage::Packet(p),
        ) == (st, Seq::<MotorAction>::empty()),
{
}

fn forward_all(packets: Vec<Packet>) -> (r: Vec<MotorAction>)
    ensures
        r@ == forwards(packets@),
{
    let mut r: Vec<MotorAction> = Vec::new();
    let n = packets.len();
    for i in 0..n
        invariant
            n == packets@.len(),
            r@ == forwards(packets@.take(i as int)),
    {
        r.push(MotorAction::Forward(packets[i]));
        assert(forwards(packets@.take(i + 1)) =~= forwards(packets@.take(i as int)).push(
            MotorAction::Forward(packets@[i as int]),
        ));
    }
    assert(packets@.take(n as int) =~= packets@);
    r
}

impl Motor {
    /// Decides on a message. Keeping and spinning clamp the movement, which
    /// needs limits that can be clamped to.
    pub fn handle(&self, msg: MotorMessage, state: &mut MotorState) -> (r: Vec<MotorAction>)
        requires
            (msg is Keep || msg is Spin) ==> old(state).config.clampable(),
        ensures
            *final(state) == motor_step(self.slave, *old(state), msg).0,
            r@ == motor_step(self.slave, *old(state), msg).1,
    {
        let slave = self.slave;
        let (next, actions) = match msg {
            MotorMessage::GracefulStop => (
                *state,
                vec![MotorAction::Forward(Packet::MotorStop { slave, gentle: true })],
            ),
            MotorMessage::EmergencyStop => (
                *state,
                vec![MotorAction::Forward(Packet::MotorStop { slave, gentle: false })],
            ),
            MotorMessage::Keep(movement) => {
                let mut movement = movement;
                let packets = state.keep(slave, &mut movement);
                (*state, forward_all(packets))
            },
            MotorMessage::Spin(movement) => {
                let mut movement = movement;
                let packets = state.spin(slave, &mut movement);
                (*state, forward_all(packets))
            },
            MotorMessage::SetOutputs(outputs) => (
                *state,
                vec![MotorAction::Forward(Packet::MotorSetOutputs { slave, outputs })],
            ),
            MotorMessage::GetMaxSpeed => (*state, vec![MotorAction::ReplyMaxSpeed(state.max_speed)]),
            MotorMessage::ReloadSettings => (*state, vec![MotorAction::ReloadSettings]),
            MotorMessage::Packet(packet) => match packet {
                Packet::MotorStatus { slave: s, running, stopping, outputs, position, remaining } if s
                    == slave => {
                    let status = if !running {
                        MotorStatus::Idle
                    } else if !stopping {
                        MotorStatus::Spinning { position, remaining }
                    } else {
                        MotorStatus::Stopping
                    };
                    (
                        MotorState { status, max_speed: state.max_speed, config: state.config },
                        vec![MotorAction::ReportStatus(status, outputs)],
                    )
                },
                Packet::MotorRecognition { slave: s, max_speed } if s == slave => (
                    MotorState { status: state.status, max_speed, config: state.config },
                    Vec::new(),
                ),
                _ => (*state, Vec::new()),
            },
        };
        *state = next;
        actions
    }
}

/// The decimal digit character of `d`.
pub open spec fn digit_char(d: nat) -> char {
    if d == 0 {
        '0'
    } else if d == 1 {
        '1'
    } else if d == 2 {
        '2'
    } else if d == 3 {
        '3'
    } else if d == 4 {
        '4'
    } else if d == 5 {
        '5'
    } else if d == 6 {
        '6'
    } else if d == 7 {
        '7'
    } else if d == 8 {
        '8'
    } else {
        '9'
    }
}

/// The decimal writing of `n`, without leading zeros.
pub open spec fn decimal(n: nat) -> Seq<char>
    decreases n,
{
    if n < 10 {
        seq![digit_char(n)]
    } else {
        decimal(n / 10).push(digit_char(n % 10))
    }
}

fn digit_str(d: u8) -> (r: &'static str)
    requires
        d < 10,
    ensures
        r@ == seq![digit_char(d as nat)],
{
    proof {
        reveal_strlit("0");
        reveal_strlit("1");
        reveal_strlit("2");
        reveal_strlit("3");
        reveal_strlit("4");
        reveal_strlit("5");
        reveal_strlit("6");
        reveal_strlit("7");
        reveal_strlit("8");
        reveal_strlit("9");
    }
    match d {
        0 => "0",
        1 => "1",
        2 => "2",
        3 => "3",
        4 => "4",
        5 => "5",
        6 => "6",
        7 => "7",
        8 => "8",
        _ => "9",
    }
}

impl Motor {
    /// The name the motor's actor is registered under: `motor-` and the
    /// slave number in decimal.
    pub fn name(&self) -> (r: String)
        ensures
            r@ == "motor-"@ + decimal(self.slave as nat),
    {
        let n = self.slave;
        let mut r = "motor-".to_owned();
        if n >= 100 {
            r.append(digit_str(n / 100));
            r.append(digit_str((n / 10) % 10));
            r.append(digit_str(n % 10));
            assert(decimal(n as nat) =~= seq![
                digit_char((n / 100) as nat),
                digit_char(((n / 10) % 10) as nat),
                digit_char((n % 10) as nat),
            ]) by {
                assert(decimal((n / 10) as nat) == decimal((n / 100) as nat).push(
                    digit_char(((n / 10) % 10) as nat),
                ));
            }
        } else if n >= 10 {
            r.append(digit_str(n / 10));
            r.append(digit_str(n % 10));
            assert(decimal(n as nat) =~= seq![
                digit_char((n / 10) as nat),
                digit_char((n % 10) as nat),
            ]) by {
                assert(decimal((n / 10) as nat) == seq![digit_char((n / 10) as nat)]);
            }
        } else {
            r.append(digit_str(n));
        }
        r
    }
}

} // verus!
