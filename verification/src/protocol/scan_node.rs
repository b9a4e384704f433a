//! Standard scan measurement node parsing.
//!
//! During a standard scan the device streams 5-byte nodes:
//!
//! ```text
//! byte 0:  [quality:6][!S:1][S:1]    S = start-of-rotation flag, !S its inverse
//! byte 1:  [angle_low:7][C:1]        C = check bit, always 1
//! byte 2:  [angle_high:8]
//! byte 3:  [distance_low:8]
//! byte 4:  [distance_high:8]
//! ```
//!
//! The `S`/`!S` pair and the check bit exist for synchronization: when either
//! fails, the reader has lost frame alignment and resynchronizes by
//! discarding bytes one at a time.

use super::ProtocolError;
use vstd::prelude::*;

verus! {

/// Length in bytes of one standard scan node.
pub const SCAN_NODE_LEN: usize = 5;

/// One raw measurement from a standard scan, in wire fixed-point units.
#[derive(Debug, Clone, Copy, PartialEq, Eq)]
pub struct ScanNode {
    /// `true` on the first node of each new 360° rotation.
    pub start_flag: bool,
    /// Reflected-signal quality, `0..=63`.
    pub quality: u8,
    /// Angle in Q6 fixed point (1/64 degree), 15 bits.
    pub angle_q6: u16,
    /// Distance in Q2 fixed point (1/4 millimeter); `0` means no return.
    pub distance_q2: u16,
}

/// The start flag and its inverse (bits 0 and 1 of the first byte) differ.
pub open spec fn start_pair_ok(byte0: u8) -> bool {
    byte0 % 2 != (byte0 / 2) % 2
}

/// The five bytes `b` pass both synchronization checks.
pub open spec fn node_checks(b: Seq<u8>) -> bool {
    start_pair_ok(b[0]) && b[1] % 2 == 1
}

/// The measurement carried by five node bytes.
pub open spec fn decoded_node(b: Seq<u8>) -> ScanNode {
    ScanNode {
        start_flag: b[0] % 2 == 1,
        quality: b[0] / 4,
        angle_q6: (b[2] * 128 + b[1] / 2) as u16,
        distance_q2: (b[4] * 256 + b[3]) as u16,
    }
}

/// What parsing the five node bytes `b` yields.
pub open spec fn scan_node_outcome(b: Seq<u8>) -> Result<ScanNode, ProtocolError> {
    if node_checks(b) {
        Ok(decoded_node(b))
    } else {
        Err(ProtocolError::InvalidScanNode { byte0: b[0], byte1: b[1] })
    }
}

impl ScanNode {
    /// `true` when the node carries a real measurement (non-zero distance).
    pub fn is_valid_measurement(&self) -> (valid: bool)
        ensures
            valid <==> self.distance_q2 != 0,
    {
        self.distance_q2 != 0
    }
}

/// `true` when `byte0` could begin a node: the start flag and its inverse
/// differ. A cheap pre-check used while resynchronizing.
pub fn could_start_node(byte0: u8) -> (plausible: bool)
    ensures
        plausible == start_pair_ok(byte0),
        plausible == ((byte0 & 1) != ((byte0 >> 1) & 1)),
{
    let start = byte0 & 0x01;
    let inverse = (byte0 >> 1) & 0x01;
    assert(byte0 & 0x01 == byte0 % 2 && (byte0 >> 1) & 0x01 == (byte0 / 2) % 2) by (bit_vector);
    start != inverse
}

/// Parses one 5-byte scan node; fails with [`ProtocolError::InvalidScanNode`]
/// when the start-flag pair or the check bit is inconsistent.
pub fn parse_scan_node(bytes: &[u8; SCAN_NODE_LEN]) -> (r: Result<ScanNode, ProtocolError>)
    ensures
        r == scan_node_outcome(bytes@),
{
    let b0 = bytes[0];
    let b1 = bytes[1];
    let b2 = bytes[2];
    let b3 = bytes[3];
    let b4 = bytes[4];
    let check_bit = b1 & 0x01;
    assert(b1 & 0x01 == b1 % 2) by (bit_vector);
    if !could_start_node(b0) || check_bit != 1 {
        return Err(ProtocolError::InvalidScanNode { byte0: b0, byte1: b1 });
    }
    let angle_q6 = ((b2 as u16) << 7) | ((b1 >> 1) as u16);
    let distance_q2 = ((b4 as u16) << 8) | (b3 as u16);
    assert(angle_q6 == b2 * 128 + b1 / 2 && distance_q2 == b4 * 256 + b3 && (b0 & 0x01 == 1) == (
    b0 % 2 == 1) && b0 >> 2 == b0 / 4) by (bit_vector)
        requires
            angle_q6 == ((b2 as u16) << 7) | ((b1 >> 1) as u16),
            distance_q2 == ((b4 as u16) << 8) | (b3 as u16),
    ;
    Ok(ScanNode { start_flag: b0 & 0x01 == 1, quality: b0 >> 2, angle_q6, distance_q2 })
}

/// Stated on the wire bits: five node bytes parse exactly when bit 0 of the
/// first byte (the start flag) differs from bit 1 (its inverse) and bit 0 of
/// the second byte (the check bit) is set, whatever the quality bits of the
/// first byte hold; the parsed start flag is bit 0 of the first byte.
pub proof fn lemma_scan_node_sync_bits(b: Seq<u8>)
    requires
        b.len() == SCAN_NODE_LEN,
    ensures
        scan_node_outcome(b) is Ok <==> ((b[0] & 1) != ((b[0] >> 1) & 1) && (b[1] & 1) == 1),
        scan_node_outcome(b) matches Ok(n) ==> n.start_flag == ((b[0] & 1) == 1),
{
    let x = b[0];
    let y = b[1];
    assert(((x & 1) != ((x >> 1) & 1)) == (x % 2 != (x / 2) % 2)) by (bit_vector);
    assert(((y & 1) == 1) == (y % 2 == 1)) by (bit_vector);
    assert(((x & 1) == 1) == (x % 2 == 1)) by (bit_vector);
}

/// Stated on the wire bits: a parsed node carries the quality in the six
/// high bits of byte 0, the angle as byte 2 shifted left by seven above the
/// seven high bits of byte 1, and the distance as byte 4 above byte 3.
pub proof fn lemma_scan_node_field_bits(b: Seq<u8>)
    requires
        b.len() == SCAN_NODE_LEN,
    ensures
        scan_node_outcome(b) matches Ok(n) ==> {
            &&& n.quality == b[0] >> 2
            &&& n.angle_q6 == ((b[2] as u16) << 7) | ((b[1] >> 1) as u16)
            &&& n.distance_q2 == ((b[4] as u16) << 8) | (b[3] as u16)
        },
{
    let (b0, b1, b2, b3, b4) = (b[0], b[1], b[2], b[3], b[4]);
    assert(b0 >> 2 == b0 / 4) by (bit_vector);
    assert(((b2 as u16) << 7) | ((b1 >> 1) as u16) == b2 * 128 + b1 / 2) by (bit_vector);
    assert(((b4 as u16) << 8) | (b3 as u16) == b4 * 256 + b3) by (bit_vector);
}

/// A node parses exactly when its first byte could start a node and its
/// check bit is set; a parsed node has a 6-bit quality and a 15-bit angle.
pub proof fn lemma_scan_node_accepts(b: Seq<u8>)
    requires
        b.len() == SCAN_NODE_LEN,
    ensures
        scan_node_outcome(b) is Ok <==> (start_pair_ok(b[0]) && b[1] % 2 == 1),
        scan_node_outcome(b) matches Ok(n) ==> n.quality <= 63 && n.angle_q6 < 32768 && n.start_flag
            == (b[0] % 2 == 1),
{
}

} // verus!
