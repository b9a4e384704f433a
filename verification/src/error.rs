//! The crate-level error type.

use core::time::Duration;
use vstd::prelude::*;

use crate::protocol::ProtocolError;
use crate::time::{millis_u64, saturating_millis};
use crate::transport::TransportError;

verus! {

/// Any failure while talking to a lidar.
///
/// A [`LidarError::Timeout`] names what was being waited for, a
/// [`LidarError::Protocol`] means the byte stream broke, and a
/// [`LidarError::Serial`] points at the port itself (wrong path,
/// permissions, unplugged device).
#[derive(Debug)]
#[non_exhaustive]
pub enum LidarError {
    /// The serial port could not be opened or configured.
    Serial(serialport::Error),
    /// Received bytes did not match the RPLIDAR wire format.
    Protocol(ProtocolError),
    /// A transport failure other than a timeout or a serial-port error.
    Transport(TransportError),
    /// The device did not answer in time.
    Timeout {
        /// What was being waited for, e.g. `"device info descriptor"`.
        what: &'static str,
        /// The timeout that elapsed, in milliseconds.
        ms: u64,
    },
    /// The measurement stream lost frame synchronization.
    Desync(String),
    /// The device reported an internal error status; the payload is the
    /// device-specific error code.
    DeviceError(u16),
    /// The connected device reported a model byte this crate does not support.
    UnsupportedModel(u8),
}

/// A context-free transport error upgraded into a `LidarError` that names
/// what the device layer was doing: timeouts carry `what` and `ms`,
/// serial-port errors keep their own variant.
pub open spec fn lifted(e: TransportError, what: &'static str, ms: u64) -> LidarError {
    match e {
        TransportError::Timeout => LidarError::Timeout { what, ms },
        TransportError::Serial(s) => LidarError::Serial(s),
        other => LidarError::Transport(other),
    }
}

/// Upgrades a transport error into a `LidarError` naming what was being done
/// and the timeout that applied.
pub fn lift(e: TransportError, what: &'static str, timeout: Duration) -> (r: LidarError)
    ensures
        r == lifted(e, what, millis_u64(timeout)),
{
    match e {
        TransportError::Timeout => LidarError::Timeout { what, ms: saturating_millis(timeout) },
        TransportError::Serial(s) => LidarError::Serial(s),
        other => LidarError::Transport(other),
    }
}

/// The error reported when the serial port could not be opened: a
/// serial-port failure keeps its own variant, anything else is a transport
/// error.
pub fn port_open_error(e: TransportError) -> (r: LidarError)
    ensures
        r == (match e {
            TransportError::Serial(s) => LidarError::Serial(s),
            other => LidarError::Transport(other),
        }),
{
    match e {
        TransportError::Serial(s) => LidarError::Serial(s),
        other => LidarError::Transport(other),
    }
}

impl From<ProtocolError> for LidarError {
    fn from(e: ProtocolError) -> (r: Self) {
        LidarError::Protocol(e)
    }
}

impl vstd::std_specs::convert::FromSpecImpl<ProtocolError> for LidarError {
    open spec fn obeys_from_spec() -> bool {
        true
    }

    open spec fn from_spec(e: ProtocolError) -> Self {
        LidarError::Protocol(e)
    }
}

impl From<serialport::Error> for LidarError {
    fn from(e: serialport::Error) -> (r: Self) {
        LidarError::Serial(e)
    }
}

impl vstd::std_specs::convert::FromSpecImpl<serialport::Error> for LidarError {
    open spec fn obeys_from_spec() -> bool {
        true
    }

    open spec fn from_spec(e: serialport::Error) -> Self {
        LidarError::Serial(e)
    }
}

impl From<std::io::Error> for TransportError {
    fn from(e: std::io::Error) -> (r: Self) {
        TransportError::Io(e)
    }
}

impl vstd::std_specs::convert::FromSpecImpl<std::io::Error> for TransportError {
    open spec fn obeys_from_spec() -> bool {
        true
    }

    open spec fn from_spec(e: std::io::Error) -> Self {
        TransportError::Io(e)
    }
}

impl From<serialport::Error> for TransportError {
    fn from(e: serialport::Error) -> (r: Self) {
        TransportError::Serial(e)
    }
}

impl vstd::std_specs::convert::FromSpecImpl<serialport::Error> for TransportError {
    open spec fn obeys_from_spec() -> bool {
        true
    }

    open spec fn from_spec(e: serialport::Error) -> Self {
        TransportError::Serial(e)
    }
}

} // verus!
