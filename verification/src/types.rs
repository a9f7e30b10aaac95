use vstd::prelude::*;

verus! {

/// The operation mode of the Mega Everdrive Pro.
#[derive(Clone, Copy, Debug, Eq, PartialEq, Structural)]
pub enum Mode {
    /// Service / DFU mode.
    Service,
    /// Regular operation.
    App,
}

impl Mode {
    /// Get the lower-case name, used for debug printing.
    pub fn lower_name(self) -> (r: &'static str)
        ensures
            self is Service ==> r@ == "service"@,
            self is App ==> r@ == "app"@,
    {
        match self {
            Mode::Service => "service",
            Mode::App => "app",
        }
    }
}

/// A reset mode for the Mega Drive.
#[derive(Clone, Copy, Debug, Eq, PartialEq, Structural)]
pub enum ResetMode {
    /// Clear the reset flag (this is used to trigger reloads of code).
    Off,
    /// A soft reset: just go to the entry point.
    Soft,
    /// Reset the system entirely.
    Hard,
}

impl ResetMode {
    /// The numeric code this reset mode has on the wire.
    pub open spec fn code(self) -> u8 {
        match self {
            ResetMode::Off => 0,
            ResetMode::Soft => 1,
            ResetMode::Hard => 2,
        }
    }

    /// The argument byte of the host-reset command for this mode.
    pub fn command(self) -> (r: u8)
        ensures
            r == self.code(),
    {
        match self {
            ResetMode::Off => 0,
            ResetMode::Soft => 1,
            ResetMode::Hard => 2,
        }
    }
}

/// File metadata for files on the SD card.
#[derive(Debug, Eq, PartialEq)]
pub struct FileMetadata {
    pub name: String,
    pub size: u32,
    pub date: u16,
    pub time: u16,
    pub attrib: u8,
}

/// Why a driver operation failed.
#[derive(Clone, Copy, Debug, Eq, PartialEq, Structural)]
pub enum DriverError {
    /// The transport provider could not supply a connection.
    TransportUnavailable,
    /// A read did not complete within the connection's timeout.
    Timeout,
    /// The underlying transport failed.
    IOError,
    /// A response's fixed sentinel did not match: the device is not
    /// responding sanely.
    ProtocolViolation,
    /// A handshake byte during a game load was not the required value;
    /// carries the byte that arrived instead.
    UnexpectedResponse(u8),
    /// The device reported a non-zero status for an operation.
    DeviceRejected(u8),
    /// The device refused a chunk of an acknowledgment-gated transfer.
    ChunkRejected(u8),
    /// A string response was not valid UTF-8.
    MalformedResponse,
    /// A mode switch did not reconnect to the device within the retry bound.
    ReconnectTimeout,
    /// A file-metadata or file-open exchange failed with this device code.
    FileError(u8),
}

} // verus!
