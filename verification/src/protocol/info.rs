//! Device info and health response parsing.

use super::ProtocolError;
use vstd::prelude::*;

verus! {

/// Payload length of a `GET_INFO` response.
pub const DEVINFO_LEN: usize = 20;

/// Payload length of a `GET_HEALTH` response.
pub const DEVHEALTH_LEN: usize = 3;

/// Model byte reported by the RPLIDAR C1.
pub const MODEL_C1: u8 = 0x41;

/// Device identity: model, versions and serial number.
#[derive(Debug, Clone, Copy, PartialEq, Eq)]
pub struct DeviceInfo {
    /// Raw model identifier byte; [`MODEL_C1`] for the C1.
    pub model: u8,
    /// Firmware version as `(major, minor)`.
    pub firmware_version: (u8, u8),
    /// Hardware revision number.
    pub hardware_version: u8,
    /// 128-bit unique serial number, as raw bytes.
    pub serial_number: [u8; 16],
}

/// Serial number rendered as 32 uppercase hex characters. Created by
/// [`DeviceInfo::serial_number_hex`].
#[derive(Debug, Clone, Copy)]
pub struct SerialNumberHex([u8; 16]);

impl View for SerialNumberHex {
    type V = Seq<u8>;

    closed spec fn view(&self) -> Seq<u8> {
        self.0@
    }
}

/// Device self-test result reported by `GET_HEALTH`.
#[derive(Debug, Clone, Copy, PartialEq, Eq)]
pub enum HealthStatus {
    /// The device is operating normally.
    Good,
    /// The device works but flagged a potential issue; the payload is the
    /// device-specific warning code.
    Warning(u16),
    /// The device is in a protection state and will not scan; the payload is
    /// the device-specific error code.
    Error(u16),
}

/// The uppercase hex digit of a nibble value `0..16`.
pub open spec fn hex_digit(n: int) -> char {
    if n < 10 {
        (48 + n) as char
    } else {
        (55 + n) as char
    }
}

/// Two uppercase hex digits per byte, high nibble first.
pub open spec fn hex_upper(s: Seq<u8>) -> Seq<char>
    decreases s.len(),
{
    if s.len() == 0 {
        Seq::empty()
    } else {
        hex_upper(s.drop_last()) + seq![hex_digit((s.last() / 16) as int), hex_digit((s.last() % 16) as int)]
    }
}

/// `info` is what a `GET_INFO` payload `b` decodes to: the firmware version
/// travels minor byte first.
pub open spec fn device_info_decodes(b: Seq<u8>, info: DeviceInfo) -> bool {
    &&& info.model == b[0]
    &&& info.firmware_version == (b[2], b[1])
    &&& info.hardware_version == b[3]
    &&& info.serial_number@ == b.subrange(4, 20)
}

/// The little-endian 16-bit code carried by health payload bytes 1 and 2.
pub open spec fn health_code(b: Seq<u8>) -> u16 {
    (b[1] + 256 * b[2]) as u16
}

/// What parsing a `GET_HEALTH` payload `b` yields.
pub open spec fn health_outcome(b: Seq<u8>) -> Result<HealthStatus, ProtocolError> {
    if b[0] == 0 {
        Ok(HealthStatus::Good)
    } else if b[0] == 1 {
        Ok(HealthStatus::Warning(health_code(b)))
    } else if b[0] == 2 {
        Ok(HealthStatus::Error(health_code(b)))
    } else {
        Err(ProtocolError::InvalidHealthStatus(b[0]))
    }
}

impl DeviceInfo {
    /// The marketing name of the model, if this crate knows it.
    pub fn model_name(&self) -> (name: Option<&'static str>)
        ensures
            name is Some <==> self.model == MODEL_C1,
            name matches Some(n) ==> n@ == "RPLIDAR C1"@,
    {
        if self.model == MODEL_C1 {
            Some("RPLIDAR C1")
        } else {
            None
        }
    }

    /// The serial number as a 32-character uppercase-hex renderer.
    pub fn serial_number_hex(&self) -> (hex: SerialNumberHex)
        ensures
            hex@ == self.serial_number@,
    {
        SerialNumberHex(self.serial_number)
    }
}

/// Appends one character to a string.
#[verifier::external_body]
pub(crate) fn push_char(s: &mut String, c: char)
    ensures
        final(s)@ == old(s)@.push(c),
{
    s.push(c);
}

/// The uppercase hex digit of a nibble.
fn hex_digit_char(n: u8) -> (c: char)
    requires
        n < 16,
    ensures
        c == hex_digit(n as int),
{
    if n < 10 {
        (48 + n) as char
    } else {
        (55 + n) as char
    }
}

impl SerialNumberHex {
    /// Renders the serial number as uppercase hex, two digits per byte, high
    /// nibble first.
    pub fn to_hex_string(&self) -> (s: String)
        ensures
            s@ == hex_upper(self@),
            s@.len() == 32,
    {
        let mut s = String::new();
        let mut i: usize = 0;
        while i < 16
            invariant
                i <= 16,
                self@.len() == 16,
                s@ == hex_upper(self@.take(i as int)),
                s@.len() == 2 * i,
            decreases 16 - i,
        {
            let byte = self.0[i];
            assert(self@.take(i + 1).drop_last() =~= self@.take(i as int));
            assert(byte >> 4 == byte / 16 && byte & 0x0F == byte % 16) by (bit_vector);
            push_char(&mut s, hex_digit_char(byte >> 4));
            push_char(&mut s, hex_digit_char(byte & 0x0F));
            i = i + 1;
        }
        assert(self@.take(16) =~= self@);
        s
    }
}

/// A decoded `GET_INFO` payload keeps its fields where the wire puts them:
/// the model is byte 0, the firmware version is (major, minor) = (byte 2,
/// byte 1), the hardware version is byte 3, and serial number byte `j` is
/// payload byte `4 + j`, for every `j` in `0..16`.
pub proof fn lemma_device_info_fields(b: Seq<u8>, info: DeviceInfo)
    requires
        b.len() == DEVINFO_LEN,
        device_info_decodes(b, info),
    ensures
        info.model == b[0],
        info.firmware_version.0 == b[2],
        info.firmware_version.1 == b[1],
        info.hardware_version == b[3],
        forall|j: int| 0 <= j < 16 ==> #[trigger] info.serial_number[j] == b[4 + j],
{
    assert forall|j: int| 0 <= j < 16 implies #[trigger] info.serial_number[j] == b[4 + j] by {
        assert(info.serial_number@[j] == b.subrange(4, 20)[j]);
    }
}

/// A `GET_HEALTH` payload is good when its status byte is 0, a warning when
/// it is 1 and an error when it is 2, the code being bytes 1 and 2 in
/// little-endian order; any other status byte is rejected and names itself.
pub proof fn lemma_health_status_bytes(b: Seq<u8>)
    requires
        b.len() == DEVHEALTH_LEN,
    ensures
        b[0] == 0 ==> health_outcome(b) == Ok::<HealthStatus, ProtocolError>(HealthStatus::Good),
        b[0] == 1 ==> health_outcome(b) == Ok::<HealthStatus, ProtocolError>(
            HealthStatus::Warning(((b[2] as u16) << 8) | (b[1] as u16)),
        ),
        b[0] == 2 ==> health_outcome(b) == Ok::<HealthStatus, ProtocolError>(
            HealthStatus::Error(((b[2] as u16) << 8) | (b[1] as u16)),
        ),
        b[0] > 2 ==> health_outcome(b) == Err::<HealthStatus, ProtocolError>(
            ProtocolError::InvalidHealthStatus(b[0]),
        ),
{
    let (lo, hi) = (b[1], b[2]);
    assert(((hi as u16) << 8) | (lo as u16) == (lo + 256 * hi) as u16) by (bit_vector);
}

/// Every rendered character is an uppercase hex digit.
pub proof fn lemma_hex_upper_digits(s: Seq<u8>)
    ensures
        hex_upper(s).len() == 2 * s.len(),
        forall|i: int|
            0 <= i < hex_upper(s).len() ==> {
                let c = #[trigger] hex_upper(s)[i];
                ('0' <= c <= '9') || ('A' <= c <= 'F')
            },
    decreases s.len(),
{
    if s.len() > 0 {
        lemma_hex_upper_digits(s.drop_last());
        let h = hex_upper(s);
        let p = hex_upper(s.drop_last());
        assert forall|i: int| 0 <= i < h.len() implies {
            let c = #[trigger] h[i];
            ('0' <= c <= '9') || ('A' <= c <= 'F')
        } by {
            if i < p.len() {
                assert(h[i] == p[i]);
            }
        }
    }
}

impl HealthStatus {
    /// `true` when the status is [`HealthStatus::Good`].
    pub fn is_good(&self) -> (good: bool)
        ensures
            good <==> *self == HealthStatus::Good,
    {
        match self {
            HealthStatus::Good => true,
            _ => false,
        }
    }
}

/// Parses a `GET_INFO` response payload.
///
/// Every bit pattern is a valid `DeviceInfo`; an unknown model byte is kept
/// as it is. The firmware version travels as a little-endian `u16` with the
/// minor version in the low byte: wire offset 1 is minor, offset 2 is major.
pub fn parse_device_info(bytes: &[u8; DEVINFO_LEN]) -> (info: DeviceInfo)
    ensures
        device_info_decodes(bytes@, info),
{
    let mut serial_number = [0u8; 16];
    let mut i: usize = 0;
    while i < 16
        invariant
            i <= 16,
            bytes@.len() == 20,
            serial_number@.len() == 16,
            forall|j: int| 0 <= j < i ==> serial_number@[j] == bytes@[4 + j],
        decreases 16 - i,
    {
        serial_number[i] = bytes[4 + i];
        i = i + 1;
    }
    assert(serial_number@ =~= bytes@.subrange(4, 20));
    DeviceInfo {
        model: bytes[0],
        firmware_version: (bytes[2], bytes[1]),
        hardware_version: bytes[3],
        serial_number,
    }
}

/// Parses a `GET_HEALTH` response payload; fails with
/// [`ProtocolError::InvalidHealthStatus`] when the status byte is outside
/// `0..=2`.
pub fn parse_health(bytes: &[u8; DEVHEALTH_LEN]) -> (r: Result<HealthStatus, ProtocolError>)
    ensures
        r == health_outcome(bytes@),
{
    let code: u16 = (bytes[1] as u16) + 256 * (bytes[2] as u16);
    match bytes[0] {
        0 => Ok(HealthStatus::Good),
        1 => Ok(HealthStatus::Warning(code)),
        2 => Ok(HealthStatus::Error(code)),
        status => Err(ProtocolError::InvalidHealthStatus(status)),
    }
}

} // verus!
