//! Trait-based byte I/O between the driver and a lidar.
//!
//! The [`Transport`] trait is the seam that keeps protocol logic testable
//! without hardware: the serial-port transport talks to a real device, while
//! the replay and mock transports feed recorded or scripted bytes through the
//! same code paths.

use core::time::Duration;
use vstd::prelude::*;

pub mod mock;
pub mod port_reads;
pub mod ports;
pub mod replay;

pub use mock::MockTransport;
pub use port_reads::{classify_port_read, fill_after, port_timeout_update, FillStep, PortRead};
pub use ports::{prefer_callout_device, select_lidar_port, PortCandidate};
pub use replay::ReplayTransport;

verus! {

/// `std::io::Error`, carried through unchanged.
#[verifier::external_type_specification]
#[verifier::external_body]
pub struct ExIoError(std::io::Error);

/// `serialport::Error`, carried through unchanged.
#[verifier::external_type_specification]
#[verifier::external_body]
pub struct ExSerialPortError(serialport::Error);

/// A transport-level failure, before any protocol interpretation.
///
/// Deliberately context-free: the device layer knows what it was waiting
/// for and upgrades [`TransportError::Timeout`] into a named timeout.
#[derive(Debug)]
#[non_exhaustive]
pub enum TransportError {
    /// An operating-system I/O error.
    Io(std::io::Error),
    /// A serial-port-specific error (open, configuration, enumeration).
    Serial(serialport::Error),
    /// No byte arrived within the allowed time.
    Timeout,
    /// The byte source is exhausted. Never produced by real hardware; a
    /// replay transport reports this when the recording runs out.
    Eof,
}

/// Blocking byte-stream transport to a lidar unit.
///
/// Implementations move bytes and nothing else; framing and parsing live in
/// [`crate::protocol`]. What a device sends is not known in advance, so the
/// contracts here say nothing of the bytes a read delivers. All methods are
/// object-safe, so `Box<dyn Transport>` is a transport too.
pub trait Transport {
    /// Writes all of `bytes`, blocking until the byte sink has accepted them.
    fn write_all(&mut self, bytes: &[u8]) -> (r: Result<(), TransportError>);

    /// Fills `buf` completely, or fails with [`TransportError::Timeout`] when
    /// `buf` could not be filled within `timeout`, [`TransportError::Eof`]
    /// when the byte source ended, or another error from the source.
    fn read_exact(&mut self, buf: &mut [u8], timeout: Duration) -> (r: Result<(), TransportError>)
        ensures
            final(buf)@.len() == old(buf)@.len(),
    ;

    /// Reads at least one byte (when `buf` is not empty), up to `buf.len()`,
    /// and returns how many arrived at the front of `buf`.
    fn read(&mut self, buf: &mut [u8], timeout: Duration) -> (r: Result<usize, TransportError>)
        ensures
            final(buf)@.len() == old(buf)@.len(),
            r matches Ok(n) ==> n <= old(buf)@.len() && (old(buf)@.len() > 0 ==> n > 0),
    ;

    /// Discards any bytes already received but not yet read.
    fn discard_input(&mut self) -> (r: Result<(), TransportError>);
}

impl<T: Transport + ?Sized> Transport for Box<T> {
    fn write_all(&mut self, bytes: &[u8]) -> (r: Result<(), TransportError>) {
        (**self).write_all(bytes)
    }

    fn read_exact(&mut self, buf: &mut [u8], timeout: Duration) -> (r: Result<(), TransportError>) {
        (**self).read_exact(buf, timeout)
    }

    fn read(&mut self, buf: &mut [u8], timeout: Duration) -> (r: Result<usize, TransportError>) {
        (**self).read(buf, timeout)
    }

    fn discard_input(&mut self) -> (r: Result<(), TransportError>) {
        (**self).discard_input()
    }
}

} // verus!
