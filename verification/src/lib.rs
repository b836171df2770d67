//! Decision core of a serial-line monitor: the control signals, the frame
//! grammar of the device, and the session state machine that a driver runs
//! against a real port.

pub mod decode;
pub mod device;
pub mod frame;
pub mod monitor;
pub mod signal;
pub mod trace;
