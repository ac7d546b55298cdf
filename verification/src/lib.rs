//! Control library for a serial-attached twisting machine: the packet
//! protocol spoken with the firmware, and the decisions of the motor,
//! actuator, controller and master components.

pub mod error;

pub use error::Error;
pub mod protocol;
pub mod codec;
pub mod components;
pub mod store;
pub mod api;
pub mod tuner;
