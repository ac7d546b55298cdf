use xtee::api::{usb_ports, FoundPort, MotorStopMode, UsbDetails};
use xtee::components::actuator::Actuator;
use xtee::components::controller::{Controller, ControllerChild, ControllerGroup, ControllerState};
use xtee::components::master::MasterState;
use xtee::components::motor::{Motor, MotorMessage};
use xtee::protocol::Packet;
use xtee::store::StoreKey;
use xtee::Error;

fn controller(id: &str, group: ControllerGroup) -> Controller {
    Controller { id: id.to_string(), group, serial_port: "/dev/ttyUSB0".to_string(), baud_rate: 115200 }
}

#[test]
fn groups_and_children() {
    assert_eq!(ControllerGroup::all(), vec![ControllerGroup::Default, ControllerGroup::Motors]);
    assert_eq!(ControllerGroup::Default.name(), "default");
    assert_eq!(ControllerGroup::Motors.name(), "motors");
    assert_eq!(ControllerGroup::Default.children(), vec![ControllerChild::Actuator(Actuator)]);
    assert_eq!(
        ControllerGroup::Motors.children(),
        vec![ControllerChild::Motor(Motor { slave: 1 }), ControllerChild::Motor(Motor { slave: 2 })]
    );
    assert_eq!(ControllerChild::Actuator(Actuator).stoppable(), Packet::ActuatorStop);
    assert_eq!(ControllerChild::Motor(Motor { slave: 2 }).stoppable(), Packet::MotorStop { slave: 2, gentle: false });
    assert_eq!(controller("board-a", ControllerGroup::Default).mux_name(), "mux-board-a");
}

#[test]
fn forwarding_needs_a_mux() {
    let mut state: ControllerState<u32> = ControllerState::new();
    assert_eq!(state.forward_target(), Err(Error::MissingMux));
    state.mux = Some(9);
    assert_eq!(state.forward_target(), Ok(&9));
}

#[test]
fn mux_restarts_are_bounded() {
    let mut state: ControllerState<u32> = ControllerState::new();
    assert_eq!(state.child_terminated(false), Ok(()));
    assert_eq!(state.restart_count, 0);
    state.mux = Some(1);
    for n in 1..=4 {
        assert_eq!(state.child_terminated(true), Ok(()));
        assert_eq!(state.restart_count, n);
    }
    assert_eq!(state.child_terminated(true), Err(Error::MissingMux));
    assert_eq!(state.restart_count, 4);
}

#[test]
fn registry_insert_remove_list() {
    let mut master = MasterState::new();
    master.insert(controller("a", ControllerGroup::Default));
    master.insert(controller("b", ControllerGroup::Motors));
    let mut replaced = controller("a", ControllerGroup::Motors);
    replaced.baud_rate = 9600;
    master.insert(replaced);
    let ids: Vec<(String, ControllerGroup, u32)> =
        master.controllers().into_iter().map(|c| (c.id, c.group, c.baud_rate)).collect();
    assert_eq!(ids, vec![
        ("a".to_string(), ControllerGroup::Motors, 9600),
        ("b".to_string(), ControllerGroup::Motors, 115200),
    ]);
    let removed = master.remove(&"a".to_string()).unwrap();
    assert_eq!(removed.baud_rate, 9600);
    assert!(master.remove(&"a".to_string()).is_none());
    assert_eq!(master.controllers().len(), 1);
}

#[test]
fn system_stop_reaches_every_component() {
    let mut master = MasterState::new();
    master.insert(controller("motors", ControllerGroup::Motors));
    master.insert(controller("main", ControllerGroup::Default));
    assert_eq!(master.stop_packets(), vec![
        ("motors".to_string(), Packet::MotorStop { slave: 1, gentle: false }),
        ("motors".to_string(), Packet::MotorStop { slave: 2, gentle: false }),
        ("main".to_string(), Packet::ActuatorStop),
    ]);
    assert_eq!(MasterState::new().stop_packets(), vec![]);
}

#[test]
fn store_key_names() {
    let keys = [
        (StoreKey::ScaleGain, "scale.gain"),
        (StoreKey::ScaleOffset, "scale.offset"),
        (StoreKey::Controllers, "controllers.spawn"),
        (StoreKey::ActuatorTuningSetpoint, "actuator.tuning.setpoint"),
        (StoreKey::ActuatorTuningRelayAmplitude, "actuator.tuning.relay-amplitude"),
        (StoreKey::ActuatorPidSettings, "actuator.pid.settings"),
        (StoreKey::ActuatorMaxLoad, "actuator.maxLoad"),
        (StoreKey::ActuatorMinLoad, "actuator.minLoad"),
        (StoreKey::ActuatorPrecision, "actuator.precision"),
        (StoreKey::MotorsLimits, "motors.limits"),
        (StoreKey::MotorsSpeeds, "motors.speeds"),
        (StoreKey::InterfaceZoom, "interface.zoom"),
    ];
    for (k, name) in keys {
        assert_eq!(k.as_str(), name);
        assert_eq!(k.to_key_string(), name.to_string());
    }
}

#[test]
fn only_usb_ports_are_offered() {
    let found = vec![
        FoundPort { port_name: "/dev/ttyS0".to_string(), usb: None },
        FoundPort {
            port_name: "/dev/ttyUSB0".to_string(),
            usb: Some(UsbDetails { manufacturer: Some("FTDI".to_string()), serial_number: None }),
        },
        FoundPort {
            port_name: "/dev/ttyACM1".to_string(),
            usb: Some(UsbDetails { manufacturer: None, serial_number: Some("42".to_string()) }),
        },
    ];
    let ports = usb_ports(found);
    assert_eq!(ports.len(), 2);
    assert_eq!(ports[0].name, "/dev/ttyUSB0");
    assert_eq!(ports[0].manufacturer.as_deref(), Some("FTDI"));
    assert_eq!(ports[1].name, "/dev/ttyACM1");
    assert_eq!(ports[1].serial_number.as_deref(), Some("42"));
    assert!(usb_ports(vec![]).is_empty());
}

#[test]
fn stop_modes() {
    assert_eq!(MotorStopMode::Graceful.message(), MotorMessage::GracefulStop);
    assert_eq!(MotorStopMode::Emergency.message(), MotorMessage::EmergencyStop);
}
