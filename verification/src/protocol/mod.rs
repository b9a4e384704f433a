//! RPLIDAR protocol encoding and decoding.
//!
//! Bytes in, typed values out: nothing here performs I/O. Every request
//! starts with the sync byte [`SYNC_BYTE`]; every response is preceded by a
//! 7-byte descriptor.

use vstd::prelude::*;

pub mod command;
pub mod descriptor;
pub mod info;
pub mod scan_node;
pub use command::{Command, MAX_REQUEST_LEN, MOTOR_PWM_MAX, SYNC_BYTE};

verus! {

/// A protocol-level decoding failure: the bytes received from the device do
/// not match the RPLIDAR wire format.
#[derive(Debug, Clone, Copy, PartialEq, Eq)]
#[non_exhaustive]
pub enum ProtocolError {
    /// A response descriptor did not start with the `0xA5 0x5A` sync bytes.
    BadSync {
        /// The two bytes received where the sync bytes were expected.
        actual: [u8; 2],
    },
    /// A response descriptor used a reserved send-mode value (`2` or `3`).
    ReservedSendMode(u8),
    /// The descriptor announced another data type than the request expects.
    WrongDataType {
        /// Data type required by the request that was sent.
        expected: u8,
        /// Data type announced by the device.
        actual: u8,
    },
    /// The descriptor announced another payload length than the request expects.
    WrongLength {
        /// Payload length required by the request that was sent.
        expected: u32,
        /// Payload length announced by the device.
        actual: u32,
    },
    /// The descriptor announced another send mode than the request expects.
    WrongSendMode,
    /// A `GET_HEALTH` response carried a status byte outside `0..=2`.
    InvalidHealthStatus(u8),
    /// A 5-byte scan node failed its synchronization checks: the start flag
    /// and its inverse agree, or the check bit is clear.
    InvalidScanNode {
        /// First byte of the rejected node.
        byte0: u8,
        /// Second byte of the rejected node.
        byte1: u8,
    },
    /// A checksum-protected payload failed verification (reserved for
    /// express-scan responses).
    Checksum {
        /// Checksum computed over the received bytes.
        expected: u8,
        /// Checksum byte received.
        actual: u8,
    },
}

} // verus!
