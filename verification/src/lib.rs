//! Driver for the Mega Everdrive Pro's USB serial protocol.
//!
//! The device speaks a strict request/reply binary protocol over a serial
//! link: every command is a fixed four-byte frame, multi-byte integers are
//! big-endian, and higher-level operations (mode switching, bulk memory
//! transfer, game and FPGA loading) are compositions of those primitives.
//! The driver owns the current connection and re-acquires it from a
//! caller-supplied factory when a mode switch reboots the device.

pub mod driver;
pub mod link;
pub mod types;
pub mod wire;

pub use driver::EverdriveSerial;
pub use link::{SerialFactory, SerialLink};
pub use types::{DriverError, FileMetadata, Mode, ResetMode};
