use xtee::components::actuator::{
    step_direction, Actuator, ActuatorAction, ActuatorControl, ActuatorDirection, ActuatorMode,
    ActuatorMovement, ActuatorRequest, Reading,
};
use xtee::protocol::Packet;

fn reading(over: bool, at: bool, below: bool) -> Reading {
    Reading { over_max_load: over, at_setpoint: at, below_precision: below }
}

#[test]
fn directions() {
    assert!(ActuatorDirection::unload().is_unload());
    assert!(!ActuatorDirection::unload().is_load());
    assert!(ActuatorDirection::load().is_load());
    assert!(!ActuatorDirection::load().is_unload());
    assert_eq!(ActuatorDirection::unload(), ActuatorDirection::Forward);
    assert_eq!(ActuatorDirection::from(ActuatorMovement::Load), ActuatorDirection::Backward);
    assert_eq!(ActuatorDirection::from(ActuatorMovement::Unload), ActuatorDirection::Forward);
    assert_eq!(ActuatorDirection::Forward.into_packet(), Packet::ActuatorMove { direction: true });
    assert_eq!(ActuatorMovement::Load.into_packet(), Packet::ActuatorMove { direction: false });
    assert!(ActuatorMovement::Unload.is_unload() && !ActuatorMovement::Unload.is_load());
    assert!(ActuatorMovement::Load.is_load() && !ActuatorMovement::Load.is_unload());
    assert_eq!(Actuator.packet(), Packet::ActuatorStop);
    assert_eq!(Actuator.name(), "actuator");
}

#[test]
fn pulse_direction_follows_correction_sign() {
    assert_eq!(step_direction(true), ActuatorDirection::Forward);
    assert_eq!(step_direction(false), ActuatorDirection::Backward);
}

#[test]
fn load_then_reach_setpoint() {
    let mut c = ActuatorControl::new();
    assert_eq!(c.handle(ActuatorRequest::Load), vec![ActuatorAction::SetTarget, ActuatorAction::SendStatus]);
    assert_eq!(c.mode, ActuatorMode::Loading);
    assert_eq!(c.handle_input(reading(false, false, false)), vec![ActuatorAction::StepPid]);
    assert_eq!(
        c.handle_input(reading(false, true, false)),
        vec![ActuatorAction::Forward(Packet::ActuatorStop), ActuatorAction::SendStatus]
    );
    assert_eq!(c.mode, ActuatorMode::Idle);
}

#[test]
fn keeping_steps_only_off_setpoint() {
    let mut c = ActuatorControl::new();
    c.handle(ActuatorRequest::Keep);
    assert_eq!(c.mode, ActuatorMode::Keeping);
    assert_eq!(c.handle_input(reading(false, true, false)), vec![]);
    assert_eq!(c.handle_input(reading(false, false, false)), vec![ActuatorAction::StepPid]);
    assert_eq!(c.mode, ActuatorMode::Keeping);
}

#[test]
fn overload_stops_system_and_refuses_loading() {
    let mut c = ActuatorControl::new();
    c.handle(ActuatorRequest::Keep);
    assert_eq!(
        c.handle_input(reading(true, false, false)),
        vec![ActuatorAction::SystemStop, ActuatorAction::SendStatus]
    );
    assert_eq!(c.mode, ActuatorMode::Overloaded);
    assert_eq!(c.handle(ActuatorRequest::Load), vec![]);
    assert_eq!(c.handle(ActuatorRequest::Keep), vec![]);
    assert_eq!(c.handle(ActuatorRequest::Move(ActuatorMovement::Load)), vec![]);
    assert_eq!(c.mode, ActuatorMode::Overloaded);
    assert_eq!(
        c.handle(ActuatorRequest::Stop),
        vec![ActuatorAction::AbortStep, ActuatorAction::Forward(Packet::ActuatorStop), ActuatorAction::SendStatus]
    );
    assert_eq!(c.mode, ActuatorMode::Overloaded);
}

#[test]
fn unloading_move_bypasses_overload() {
    let mut c = ActuatorControl { mode: ActuatorMode::Overloaded, bypass: false };
    assert_eq!(
        c.handle(ActuatorRequest::Move(ActuatorMovement::Unload)),
        vec![ActuatorAction::Forward(Packet::ActuatorMove { direction: true })]
    );
    assert!(c.bypass);
    // While bypassing, a heavy reading does not overload again nor reset.
    assert_eq!(c.handle_input(reading(true, false, false)), vec![]);
    assert_eq!(c.mode, ActuatorMode::Overloaded);
    c.handle(ActuatorRequest::Stop);
    assert!(!c.bypass);
    // Without bypass, a reading under the limit clears the overload.
    assert_eq!(c.handle_input(reading(false, false, false)), vec![ActuatorAction::SendStatus]);
    assert_eq!(c.mode, ActuatorMode::Idle);
}

#[test]
fn unload_runs_until_below_precision() {
    let mut c = ActuatorControl::new();
    assert_eq!(
        c.handle(ActuatorRequest::Unload),
        vec![ActuatorAction::Forward(Packet::ActuatorMove { direction: true }), ActuatorAction::SendStatus]
    );
    assert_eq!(c.mode, ActuatorMode::Unloading);
    assert_eq!(c.handle_input(reading(false, false, false)), vec![]);
    assert_eq!(
        c.handle_input(reading(false, false, true)),
        vec![ActuatorAction::Forward(Packet::ActuatorStop), ActuatorAction::SendStatus]
    );
    assert_eq!(c.mode, ActuatorMode::Idle);
}

#[test]
fn data_packets_become_readings() {
    let mut c = ActuatorControl::new();
    assert_eq!(c.handle(ActuatorRequest::from(Packet::Data { value: -7 })), vec![ActuatorAction::ProcessReading(-7)]);
    assert_eq!(c.handle(ActuatorRequest::Packet(Packet::Ready)), vec![]);
    assert_eq!(c.handle(ActuatorRequest::ReloadSettings), vec![ActuatorAction::ReloadSettings]);
    assert_eq!(c.mode, ActuatorMode::Idle);
}
