//! Host side of a serial configuration link to a microcontroller: the wire
//! frame, the request/response session, the parameter store and the
//! synchronisation of that store with the device.
pub mod frame;
pub mod session;
pub mod config;
pub mod text;
pub mod sync;
pub mod serial_config;
pub mod user_parameters;
pub mod menu;
pub mod cli;
