use xtee::components::motor::{
    Motor, MotorAction, MotorMessage, MotorMovement, MotorState, MotorStatus, MotorsLimits,
};
use xtee::protocol::Packet;

fn limits() -> MotorsLimits {
    MotorsLimits { max_speed: 3000, max_rotations: 50, acceleration: 700, steps_per_pulse: 800 }
}

#[test]
fn clamp_holds_movement_to_limits() {
    let mut m = MotorMovement { speed: 0, direction: true, rotations: 0, deferred: false };
    m.clamp(&limits());
    assert_eq!(m, MotorMovement { speed: 1, direction: true, rotations: 1, deferred: false });
    let mut m = MotorMovement { speed: 5000, direction: false, rotations: 600, deferred: true };
    m.clamp(&limits());
    assert_eq!(m, MotorMovement { speed: 3000, direction: false, rotations: 500, deferred: true });
    let mut m = MotorMovement { speed: 1200, direction: false, rotations: 70, deferred: false };
    m.clamp(&limits());
    assert_eq!(m, MotorMovement { speed: 1200, direction: false, rotations: 70, deferred: false });
}

#[test]
fn clamp_bounds_rotations_by_ten_times_the_setting() {
    let l = MotorsLimits { max_speed: 100, max_rotations: 5, acceleration: 10, steps_per_pulse: 800 };
    let mut m = MotorMovement { speed: 0, direction: true, rotations: 70, deferred: true };
    m.clamp(&l);
    assert_eq!(m, MotorMovement { speed: 1, direction: true, rotations: 50, deferred: true });
    let mut m = MotorMovement { speed: 50, direction: false, rotations: 30, deferred: false };
    m.clamp(&l);
    assert_eq!(m, MotorMovement { speed: 50, direction: false, rotations: 30, deferred: false });
}

#[test]
fn clamp_is_idempotent() {
    let mut m = MotorMovement { speed: 9999, direction: true, rotations: 65535, deferred: false };
    m.clamp(&limits());
    let once = m;
    m.clamp(&limits());
    assert_eq!(m, once);
}

#[test]
fn clamp_accepts_large_rotation_settings() {
    let l = MotorsLimits { max_speed: 10, max_rotations: 65536, acceleration: 1, steps_per_pulse: 1 };
    assert!(l.is_clampable());
    let mut m = MotorMovement { speed: 5, direction: true, rotations: 1_000_000, deferred: false };
    m.clamp(&l);
    assert_eq!(m.rotations, 655_360);
    let zero = MotorsLimits { max_speed: 10, max_rotations: 0, acceleration: 1, steps_per_pulse: 1 };
    assert!(!zero.is_clampable());
    let huge = MotorsLimits { max_speed: 10, max_rotations: u32::MAX / 10 + 1, acceleration: 1, steps_per_pulse: 1 };
    assert!(!huge.is_clampable());
}

#[test]
fn keep_sends_outputs_speed_acceleration_keep() {
    let state = MotorState::new(limits());
    let mut m = MotorMovement { speed: 9000, direction: true, rotations: 3, deferred: false };
    let packets = state.keep(2, &mut m);
    assert_eq!(m.speed, 3000);
    assert_eq!(
        packets,
        vec![
            Packet::MotorSetOutputs { slave: 2, outputs: true },
            Packet::MotorSetSpeed { slave: 2, apply: false, speed: 3000 },
            Packet::MotorSetAcceleration { slave: 2, acceleration: 700 },
            Packet::MotorKeep { slave: 2, direction: true },
        ]
    );
}

#[test]
fn spin_stops_first_then_moves() {
    let state = MotorState::new(limits());
    let mut m = MotorMovement { speed: 100, direction: false, rotations: 990, deferred: false };
    let packets = state.spin(1, &mut m);
    assert_eq!(m.rotations, 500);
    assert_eq!(
        packets,
        vec![
            Packet::MotorStop { slave: 1, gentle: false },
            Packet::MotorSetOutputs { slave: 1, outputs: true },
            Packet::MotorSetSpeed { slave: 1, apply: false, speed: 100 },
            Packet::MotorSetAcceleration { slave: 1, acceleration: 700 },
            Packet::MotorMove { slave: 1, direction: false, rotations: 500 },
        ]
    );
}

#[test]
fn status_reports_follow_the_board() {
    let motor = Motor { slave: 2 };
    let mut state = MotorState::new(limits());
    let report = |running, stopping| {
        MotorMessage::Packet(Packet::MotorStatus { slave: 2, running, stopping, outputs: running, position: 12, remaining: 34 })
    };
    assert_eq!(motor.handle(report(true, false), &mut state), vec![MotorAction::ReportStatus(
        MotorStatus::Spinning { position: 12, remaining: 34 },
        true
    )]);
    assert_eq!(state.status, MotorStatus::Spinning { position: 12, remaining: 34 });
    motor.handle(report(true, true), &mut state);
    assert_eq!(state.status, MotorStatus::Stopping);
    assert_eq!(motor.handle(report(false, true), &mut state), vec![MotorAction::ReportStatus(
        MotorStatus::Idle,
        false
    )]);
    assert_eq!(state.status, MotorStatus::Idle);
}

#[test]
fn reports_of_other_slaves_are_ignored() {
    let motor = Motor { slave: 1 };
    let mut state = MotorState::new(limits());
    let msg = MotorMessage::Packet(Packet::MotorStatus { slave: 2, running: true, stopping: false, outputs: true, position: 1, remaining: 1 });
    assert_eq!(motor.handle(msg, &mut state), vec![]);
    assert_eq!(state.status, MotorStatus::Idle);
    let msg = MotorMessage::Packet(Packet::MotorRecognition { slave: 2, max_speed: 10 });
    assert_eq!(motor.handle(msg, &mut state), vec![]);
    assert_eq!(state.max_speed, 0);
}

#[test]
fn recognition_sets_max_speed_and_it_is_answered() {
    let motor = Motor { slave: 1 };
    let mut state = MotorState::new(limits());
    assert_eq!(motor.handle(MotorMessage::GetMaxSpeed, &mut state), vec![MotorAction::ReplyMaxSpeed(0)]);
    motor.handle(MotorMessage::from(Packet::MotorRecognition { slave: 1, max_speed: 4321 }), &mut state);
    motor.handle(MotorMessage::from(Packet::MotorRecognition { slave: 2, max_speed: 99 }), &mut state);
    motor.handle(MotorMessage::GracefulStop, &mut state);
    assert_eq!(motor.handle(MotorMessage::GetMaxSpeed, &mut state), vec![MotorAction::ReplyMaxSpeed(4321)]);
    motor.handle(MotorMessage::from(Packet::MotorRecognition { slave: 1, max_speed: 1000 }), &mut state);
    assert_eq!(motor.handle(MotorMessage::GetMaxSpeed, &mut state), vec![MotorAction::ReplyMaxSpeed(1000)]);
    assert_eq!(state.max_speed, 1000);
}

#[test]
fn stops_and_outputs() {
    let motor = Motor { slave: 3 };
    let mut state = MotorState::new(limits());
    assert_eq!(motor.handle(MotorMessage::GracefulStop, &mut state),
        vec![MotorAction::Forward(Packet::MotorStop { slave: 3, gentle: true })]);
    assert_eq!(motor.handle(MotorMessage::EmergencyStop, &mut state),
        vec![MotorAction::Forward(Packet::MotorStop { slave: 3, gentle: false })]);
    assert_eq!(motor.handle(MotorMessage::SetOutputs(false), &mut state),
        vec![MotorAction::Forward(Packet::MotorSetOutputs { slave: 3, outputs: false })]);
    assert_eq!(motor.handle(MotorMessage::ReloadSettings, &mut state), vec![MotorAction::ReloadSettings]);
    assert_eq!(motor.packet(), Packet::MotorStop { slave: 3, gentle: false });
}

#[test]
fn keep_message_forwards_clamped_packets() {
    let motor = Motor { slave: 1 };
    let mut state = MotorState::new(limits());
    let acts = motor.handle(MotorMessage::Keep(MotorMovement { speed: 0, direction: false, rotations: 0, deferred: false }), &mut state);
    assert_eq!(acts, vec![
        MotorAction::Forward(Packet::MotorSetOutputs { slave: 1, outputs: true }),
        MotorAction::Forward(Packet::MotorSetSpeed { slave: 1, apply: false, speed: 1 }),
        MotorAction::Forward(Packet::MotorSetAcceleration { slave: 1, acceleration: 700 }),
        MotorAction::Forward(Packet::MotorKeep { slave: 1, direction: false }),
    ]);
}

#[test]
fn motor_names() {
    assert_eq!(Motor { slave: 1 }.name(), "motor-1");
    assert_eq!(Motor { slave: 0 }.name(), "motor-0");
    assert_eq!(Motor { slave: 42 }.name(), "motor-42");
    assert_eq!(Motor { slave: 255 }.name(), "motor-255");
    assert_eq!(Motor { slave: 100 }.name(), "motor-100");
}
