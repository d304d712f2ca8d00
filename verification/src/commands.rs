//! The operations offered to the surrounding application.

pub mod apps;
pub mod config;
pub mod pio;
pub mod serial;
pub mod serial_worker;
