//! Driver for SLAMTEC RPLIDAR laser range scanners (primary target: the
//! RPLIDAR C1), with the wire protocol, the byte-stream transports and the
//! request/response device layer proved against their contracts.
//!
//! - [`protocol`]: request framing and response parsing, bytes in and typed
//!   values out, with no I/O.
//! - [`transport`]: the byte-stream [`transport::Transport`] seam, the
//!   scripted [`transport::MockTransport`], the recorded
//!   [`transport::ReplayTransport`], and serial-port selection.
//! - [`device`]: the [`Lidar`] request/response layer: descriptor checks,
//!   byte-level resynchronization, and the paced device operations.
//! - [`assembly`]: measurement nodes assembled into 360° rotations.
#![allow(unused_imports)]

pub mod assembly;
pub mod device;
pub mod error;
pub mod protocol;
pub mod time;
pub mod transport;

pub use assembly::ScanAssembler;
pub use device::{Lidar, LidarConfig, Operation, ScanProgress};
pub use error::LidarError;
pub use protocol::info::{DeviceInfo, HealthStatus, SerialNumberHex};
pub use protocol::scan_node::ScanNode;
