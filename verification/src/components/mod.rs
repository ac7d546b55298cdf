pub mod actuator;
pub mod motor;
pub mod controller;
pub mod master;
