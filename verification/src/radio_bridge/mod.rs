//! The serial protocol spoken with the radio bridge dongle.
pub mod raw_service;
pub mod serial_protocol;
pub mod service;
