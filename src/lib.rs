//! Control core for linear actuators: a framed command protocol, a
//! fixed-point PID controller, a filtered and limit-aware actuator driver,
//! the position controller that ties them together, and the status decoding
//! of the DRV8873 H-bridge.

pub mod actuator;
pub mod controller;
pub mod drv8873;
pub mod filter;
pub mod fixed;
pub mod pid;
pub mod protocol;
