//! Response descriptor parsing.
//!
//! Every response is preceded by a 7-byte descriptor:
//!
//! ```text
//! ┌──────┬──────┬───────────────────────────────┬───────────┐
//! │ 0xA5 │ 0x5A │ len[29:0] + mode[1:0], u32 LE │ data type │
//! └──────┴──────┴───────────────────────────────┴───────────┘
//! ```
//!
//! The third field packs a 30-bit payload length (low bits) and a 2-bit send
//! mode (high bits) into a little-endian `u32`.

use super::{ProtocolError, SYNC_BYTE};
use vstd::prelude::*;

verus! {

/// Length in bytes of a response descriptor.
pub const DESCRIPTOR_LEN: usize = 7;

/// Second sync byte of a response descriptor (the first is [`SYNC_BYTE`]).
pub const RESP_SYNC_BYTE: u8 = 0x5A;

/// Data type of a `GET_INFO` response (20-byte payload, single).
pub const DATA_TYPE_DEVINFO: u8 = 0x04;

/// Data type of a `GET_HEALTH` response (3-byte payload, single).
pub const DATA_TYPE_DEVHEALTH: u8 = 0x06;

/// Data type of a `GET_SAMPLERATE` response (4-byte payload, single).
pub const DATA_TYPE_SAMPLE_RATE: u8 = 0x15;

/// Data type of a standard `SCAN` response (5-byte nodes, multi).
pub const DATA_TYPE_MEASUREMENT: u8 = 0x81;

/// How many responses follow a descriptor.
#[derive(Debug, Clone, Copy, PartialEq, Eq, Structural)]
pub enum SendMode {
    /// Exactly one response of the announced length follows.
    Single,
    /// An endless stream of responses of the announced length follows, until
    /// the device is stopped.
    Multi,
}

/// A parsed 7-byte response descriptor.
#[derive(Debug, Clone, Copy, PartialEq, Eq)]
pub struct ResponseDescriptor {
    /// Payload length in bytes of each following response (30-bit value).
    pub len: u32,
    /// Whether one or many responses follow.
    pub send_mode: SendMode,
    /// Payload type identifier, e.g. [`DATA_TYPE_DEVINFO`].
    pub data_type: u8,
}

/// The 30-bit payload length carried by descriptor bytes 2..6.
pub open spec fn descriptor_len(b: Seq<u8>) -> int {
    b[2] + 256 * b[3] + 65536 * b[4] + 16777216 * (b[5] % 64)
}

/// The 2-bit send mode carried by the top bits of descriptor byte 5.
pub open spec fn descriptor_mode_bits(b: Seq<u8>) -> int {
    (b[5] / 64) as int
}

/// `true` when the first two bytes are the response sync pair.
pub open spec fn descriptor_synced(b: Seq<u8>) -> bool {
    b[0] == SYNC_BYTE && b[1] == RESP_SYNC_BYTE
}

/// What parsing the descriptor bytes `b` yields.
pub open spec fn descriptor_parsed(b: Seq<u8>) -> Result<ResponseDescriptor, ProtocolError> {
    if !descriptor_synced(b) {
        Err(ProtocolError::BadSync { actual: [b[0], b[1]] })
    } else if descriptor_mode_bits(b) >= 2 {
        Err(ProtocolError::ReservedSendMode(descriptor_mode_bits(b) as u8))
    } else {
        Ok(
            ResponseDescriptor {
                len: descriptor_len(b) as u32,
                send_mode: if descriptor_mode_bits(b) == 0 {
                    SendMode::Single
                } else {
                    SendMode::Multi
                },
                data_type: b[6],
            },
        )
    }
}

/// What checking a descriptor against a request's expectations yields: the
/// first mismatch, in the order data type, length, send mode.
pub open spec fn expect_outcome(d: ResponseDescriptor, data_type: u8, len: u32, send_mode: SendMode) -> Result<
    (),
    ProtocolError,
> {
    if d.data_type != data_type {
        Err(ProtocolError::WrongDataType { expected: data_type, actual: d.data_type })
    } else if d.len != len {
        Err(ProtocolError::WrongLength { expected: len, actual: d.len })
    } else if d.send_mode != send_mode {
        Err(ProtocolError::WrongSendMode)
    } else {
        Ok(())
    }
}

/// Parses a 7-byte response descriptor.
///
/// Fails with [`ProtocolError::BadSync`] when the first two bytes are not
/// `0xA5 0x5A`, and with [`ProtocolError::ReservedSendMode`] when the
/// send-mode bits hold `2` or `3`.
pub fn parse_descriptor(bytes: &[u8; DESCRIPTOR_LEN]) -> (r: Result<ResponseDescriptor, ProtocolError>)
    ensures
        r == descriptor_parsed(bytes@),
{
    if bytes[0] != SYNC_BYTE || bytes[1] != RESP_SYNC_BYTE {
        let actual = [bytes[0], bytes[1]];
        assert(actual =~= [bytes@[0], bytes@[1]]);
        return Err(ProtocolError::BadSync { actual });
    }
    let b2 = bytes[2];
    let b3 = bytes[3];
    let b4 = bytes[4];
    let b5 = bytes[5];
    let packed: u32 = (b2 as u32) | ((b3 as u32) << 8) | ((b4 as u32) << 16) | ((b5 as u32) << 24);
    let len = packed & 0x3FFF_FFFF;
    let mode = packed >> 30;
    assert(len == b2 + 256 * b3 + 65536 * b4 + 16777216 * (b5 % 64) && mode == b5 / 64) by (bit_vector)
        requires
            packed == (b2 as u32) | ((b3 as u32) << 8) | ((b4 as u32) << 16) | ((b5 as u32) << 24),
            len == packed & 0x3FFF_FFFF,
            mode == packed >> 30,
    ;
    let send_mode = if mode == 0 {
        SendMode::Single
    } else if mode == 1 {
        SendMode::Multi
    } else {
        return Err(ProtocolError::ReservedSendMode(mode as u8));
    };
    Ok(ResponseDescriptor { len, send_mode, data_type: bytes[6] })
}

impl ResponseDescriptor {
    /// Checks this descriptor against what a request expects, naming the
    /// first mismatch found (data type, then length, then send mode).
    pub fn expect(self, data_type: u8, len: u32, send_mode: SendMode) -> (r: Result<(), ProtocolError>)
        ensures
            r == expect_outcome(self, data_type, len, send_mode),
    {
        if self.data_type != data_type {
            return Err(ProtocolError::WrongDataType { expected: data_type, actual: self.data_type });
        }
        if self.len != len {
            return Err(ProtocolError::WrongLength { expected: len, actual: self.len });
        }
        if self.send_mode != send_mode {
            return Err(ProtocolError::WrongSendMode);
        }
        Ok(())
    }
}

/// Stated on the wire bytes: a descriptor parses exactly when it starts
/// with `A5 5A` and the two top bits of byte 5 are `00` or `01`; then the
/// length is bytes 2..6 as a little-endian `u32` with those two bits
/// cleared, the send mode is single for `00` and multi for `01`, and the
/// data type is byte 6.
pub proof fn lemma_descriptor_wire_bytes(b: Seq<u8>)
    requires
        b.len() == DESCRIPTOR_LEN,
    ensures
        descriptor_parsed(b) is Ok <==> (b[0] == 0xA5 && b[1] == 0x5A && b[5] >> 6 < 2),
        descriptor_parsed(b) matches Ok(d) ==> {
            &&& d.len == ((b[2] as u32) | ((b[3] as u32) << 8) | ((b[4] as u32) << 16) | ((
            b[5] as u32) << 24)) & 0x3FFF_FFFF
            &&& (d.send_mode == SendMode::Single <==> b[5] >> 6 == 0)
            &&& d.data_type == b[6]
        },
{
    let (b2, b3, b4, b5) = (b[2], b[3], b[4], b[5]);
    assert(b5 >> 6 == b5 / 64) by (bit_vector);
    assert(((b2 as u32) | ((b3 as u32) << 8) | ((b4 as u32) << 16) | ((b5 as u32) << 24))
        & 0x3FFF_FFFF == b2 + 256 * b3 + 65536 * b4 + 16777216 * (b5 % 64)) by (bit_vector);
}

/// A descriptor parses exactly when it carries the sync pair and a
/// non-reserved send mode; the announced length always fits in 30 bits.
pub proof fn lemma_descriptor_accepts(b: Seq<u8>)
    requires
        b.len() == DESCRIPTOR_LEN,
    ensures
        descriptor_parsed(b) is Ok <==> (descriptor_synced(b) && descriptor_mode_bits(b) < 2),
        descriptor_parsed(b) matches Ok(d) ==> d.len < 0x4000_0000 && d.data_type == b[6],
{
}

} // verus!
