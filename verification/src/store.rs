//! Keys of the persistent settings.
use vstd::prelude::*;

verus! {

/// A key of the settings store.
#[derive(Clone, Copy, Debug, PartialEq, Eq, Structural)]
pub enum StoreKey {
    ScaleGain,
    ScaleOffset,
    Controllers,
    ActuatorTuningSetpoint,
    ActuatorTuningRelayAmplitude,
    ActuatorPidSettings,
    ActuatorMaxLoad,
    ActuatorMinLoad,
    ActuatorPrecision,
    MotorsLimits,
    MotorsSpeeds,
    InterfaceZoom,
}

/// The name a key is stored under.
pub open spec fn key_name(k: StoreKey) -> Seq<char> {
    match k {
        StoreKey::ScaleGain => "scale.gain"@,
        StoreKey::ScaleOffset => "scale.offset"@,
        StoreKey::Controllers => "controllers.spawn"@,
        StoreKey::ActuatorTuningSetpoint => "actuator.tuning.setpoint"@,
        StoreKey::ActuatorTuningRelayAmplitude => "actuator.tuning.relay-amplitude"@,
        StoreKey::ActuatorPidSettings => "actuator.pid.settings"@,
        StoreKey::ActuatorMaxLoad => "actuator.maxLoad"@,
        StoreKey::ActuatorMinLoad => "actuator.minLoad"@,
        StoreKey::ActuatorPrecision => "actuator.precision"@,
        StoreKey::MotorsLimits => "motors.limits"@,
        StoreKey::MotorsSpeeds => "motors.speeds"@,
        StoreKey::InterfaceZoom => "interface.zoom"@,
    }
}

impl StoreKey {
    /// The name the key is stored under.
    pub fn as_str(&self) -> (r: &'static str)
        ensures
            r@ == key_name(*self),
    {
        match self {
            StoreKey::ScaleGain => "scale.gain",
            StoreKey::ScaleOffset => "scale.offset",
            StoreKey::Controllers => "controllers.spawn",
            StoreKey::ActuatorTuningSetpoint => "actuator.tuning.setpoint",
            StoreKey::ActuatorTuningRelayAmplitude => "actuator.tuning.relay-amplitude",
            StoreKey::ActuatorPidSettings => "actuator.pid.settings",
            StoreKey::ActuatorMaxLoad => "actuator.maxLoad",
            StoreKey::ActuatorMinLoad => "actuator.minLoad",
            StoreKey::ActuatorPrecision => "actuator.precision",
            StoreKey::MotorsLimits => "motors.limits",
            StoreKey::MotorsSpeeds => "motors.speeds",
            StoreKey::InterfaceZoom => "interface.zoom",
        }
    }

    /// The name the key is stored under, as an owned string.
    pub fn to_key_string(&self) -> (r: String)
        ensures
            r@ == key_name(*self),
    {
        self.as_str().to_owned()
    }
}

} // verus!
