//! Request framing and response parsing on concrete wire bytes.

use olivaw_lidar::protocol::command::xor_checksum;
use olivaw_lidar::protocol::descriptor::{
    parse_descriptor, ResponseDescriptor, SendMode, DATA_TYPE_DEVHEALTH, DATA_TYPE_DEVINFO,
    DATA_TYPE_MEASUREMENT,
};
use olivaw_lidar::protocol::info::{
    parse_device_info, parse_health, DeviceInfo, HealthStatus, DEVINFO_LEN, MODEL_C1,
};
use olivaw_lidar::protocol::scan_node::{could_start_node, parse_scan_node, ScanNode};
use olivaw_lidar::protocol::{Command, ProtocolError, MAX_REQUEST_LEN};

fn encoded(cmd: Command) -> ([u8; MAX_REQUEST_LEN], usize) {
    let mut buf = [0u8; MAX_REQUEST_LEN];
    let len = cmd.encode(&mut buf);
    (buf, len)
}

/// Builds a wire node from human units.
#[allow(clippy::cast_possible_truncation, clippy::cast_sign_loss)]
fn encode_node(start: bool, quality: u8, angle_deg: f32, distance_mm: f32) -> [u8; 5] {
    let angle_q6 = (angle_deg * 64.0) as u16;
    let distance_q2 = (distance_mm * 4.0) as u16;
    let s: u8 = u8::from(start);
    [
        (quality << 2) | ((1 - s) << 1) | s,
        (((angle_q6 & 0x7F) as u8) << 1) | 0x01,
        (angle_q6 >> 7) as u8,
        (distance_q2 & 0xFF) as u8,
        (distance_q2 >> 8) as u8,
    ]
}

fn angle_deg(node: &ScanNode) -> f32 {
    f32::from(node.angle_q6) / 64.0
}

fn distance_mm(node: &ScanNode) -> f32 {
    f32::from(node.distance_q2) / 4.0
}

#[test]
fn payloadless_commands_are_two_bytes() {
    for (cmd, opcode) in [
        (Command::Stop, 0x25),
        (Command::Reset, 0x40),
        (Command::Scan, 0x20),
        (Command::GetInfo, 0x50),
        (Command::GetHealth, 0x52),
        (Command::GetSampleRate, 0x59),
    ] {
        let (buf, len) = encoded(cmd);
        assert_eq!(&buf[..len], &[0xA5, opcode], "{cmd:?}");
    }
}

#[test]
fn set_motor_pwm_frames_with_checksum() {
    // 660 = 0x0294, little-endian payload [0x94, 0x02];
    // checksum = 0xA5 ^ 0xF0 ^ 0x02 ^ 0x94 ^ 0x02 = 0xC1.
    let (buf, len) = encoded(Command::SetMotorPwm(660));
    assert_eq!(&buf[..len], &[0xA5, 0xF0, 0x02, 0x94, 0x02, 0xC1]);
}

#[test]
fn set_motor_pwm_zero() {
    let (buf, len) = encoded(Command::SetMotorPwm(0));
    assert_eq!(&buf[..len], &[0xA5, 0xF0, 0x02, 0x00, 0x00, 0x57]);
}

#[test]
fn set_motor_pwm_max() {
    let (buf, len) = encoded(Command::SetMotorPwm(1023));
    assert_eq!(&buf[..len], &[0xA5, 0xF0, 0x02, 0xFF, 0x03, 0xAB]);
}

#[test]
fn set_motor_pwm_clamps_above_max() {
    assert_eq!(
        encoded(Command::SetMotorPwm(2000)),
        encoded(Command::SetMotorPwm(1023))
    );
    assert_eq!(
        encoded(Command::SetMotorPwm(u16::MAX)),
        encoded(Command::SetMotorPwm(1023))
    );
}

#[test]
fn xor_checksum_basics() {
    assert_eq!(xor_checksum(&[]), 0x00);
    assert_eq!(xor_checksum(&[0xFF]), 0xFF);
    assert_eq!(xor_checksum(&[0xA5, 0xA5]), 0x00);
    assert_eq!(xor_checksum(&[0x01, 0x02, 0x04]), 0x07);
}

#[test]
fn encode_leaves_bytes_after_the_frame_untouched() {
    let mut buf = [0xEEu8; MAX_REQUEST_LEN];
    let len = Command::GetHealth.encode(&mut buf);
    assert_eq!(len, 2);
    assert!(buf[2..].iter().all(|&b| b == 0xEE));
    let len = Command::SetMotorPwm(1).encode(&mut buf);
    assert_eq!(len, 6);
    assert!(buf[6..].iter().all(|&b| b == 0xEE));
}

#[test]
fn pwm_frames_xor_to_zero() {
    for pwm in [0u16, 1, 255, 256, 660, 1023, 1024, u16::MAX] {
        let (buf, len) = encoded(Command::SetMotorPwm(pwm));
        assert_eq!(xor_checksum(&buf[..len]), 0, "pwm {pwm}");
        let duty = u16::from(buf[3]) | (u16::from(buf[4]) << 8);
        assert_eq!(duty, pwm.min(1023));
    }
}

#[test]
fn opcodes_match_the_protocol() {
    assert_eq!(Command::Stop.opcode(), 0x25);
    assert_eq!(Command::SetMotorPwm(7).opcode(), 0xF0);
    assert_eq!(Command::GetSampleRate.opcode(), 0x59);
}

#[test]
fn parses_devinfo_descriptor() {
    let desc = parse_descriptor(&[0xA5, 0x5A, 0x14, 0x00, 0x00, 0x00, 0x04]).unwrap();
    assert_eq!(
        desc,
        ResponseDescriptor {
            len: 20,
            send_mode: SendMode::Single,
            data_type: DATA_TYPE_DEVINFO
        }
    );
}

#[test]
fn parses_health_descriptor() {
    let desc = parse_descriptor(&[0xA5, 0x5A, 0x03, 0x00, 0x00, 0x00, 0x06]).unwrap();
    assert_eq!(desc.len, 3);
    assert_eq!(desc.send_mode, SendMode::Single);
    assert_eq!(desc.data_type, DATA_TYPE_DEVHEALTH);
}

#[test]
fn parses_scan_descriptor_multi_mode() {
    let desc = parse_descriptor(&[0xA5, 0x5A, 0x05, 0x00, 0x00, 0x40, 0x81]).unwrap();
    assert_eq!(desc.len, 5);
    assert_eq!(desc.send_mode, SendMode::Multi);
    assert_eq!(desc.data_type, DATA_TYPE_MEASUREMENT);
}

#[test]
fn parses_full_30_bit_length() {
    let desc = parse_descriptor(&[0xA5, 0x5A, 0xFF, 0xFF, 0xFF, 0x3F, 0x00]).unwrap();
    assert_eq!(desc.len, 0x3FFF_FFFF);
    assert_eq!(desc.send_mode, SendMode::Single);
}

#[test]
fn descriptor_length_spans_all_four_bytes() {
    let desc = parse_descriptor(&[0xA5, 0x5A, 0x01, 0x02, 0x03, 0x44, 0x15]).unwrap();
    assert_eq!(desc.len, 0x0403_0201);
    assert_eq!(desc.send_mode, SendMode::Multi);
    assert_eq!(desc.data_type, 0x15);
}

#[test]
fn rejects_bad_sync() {
    let err = parse_descriptor(&[0xA5, 0x00, 0x14, 0x00, 0x00, 0x00, 0x04]).unwrap_err();
    assert_eq!(
        err,
        ProtocolError::BadSync {
            actual: [0xA5, 0x00]
        }
    );
    let err = parse_descriptor(&[0x00, 0x5A, 0x14, 0x00, 0x00, 0x00, 0x04]).unwrap_err();
    assert_eq!(
        err,
        ProtocolError::BadSync {
            actual: [0x00, 0x5A]
        }
    );
}

#[test]
fn rejects_reserved_send_modes() {
    let err = parse_descriptor(&[0xA5, 0x5A, 0x05, 0x00, 0x00, 0x80, 0x81]).unwrap_err();
    assert_eq!(err, ProtocolError::ReservedSendMode(2));
    let err = parse_descriptor(&[0xA5, 0x5A, 0x05, 0x00, 0x00, 0xC0, 0x81]).unwrap_err();
    assert_eq!(err, ProtocolError::ReservedSendMode(3));
}

#[test]
fn expect_validates_each_field() {
    let desc = ResponseDescriptor {
        len: 20,
        send_mode: SendMode::Single,
        data_type: DATA_TYPE_DEVINFO,
    };
    assert!(desc.expect(DATA_TYPE_DEVINFO, 20, SendMode::Single).is_ok());
    assert_eq!(
        desc.expect(DATA_TYPE_DEVHEALTH, 20, SendMode::Single),
        Err(ProtocolError::WrongDataType {
            expected: DATA_TYPE_DEVHEALTH,
            actual: DATA_TYPE_DEVINFO
        })
    );
    assert_eq!(
        desc.expect(DATA_TYPE_DEVINFO, 3, SendMode::Single),
        Err(ProtocolError::WrongLength {
            expected: 3,
            actual: 20
        })
    );
    assert_eq!(
        desc.expect(DATA_TYPE_DEVINFO, 20, SendMode::Multi),
        Err(ProtocolError::WrongSendMode)
    );
}

#[test]
fn expect_reports_the_first_mismatch() {
    let desc = ResponseDescriptor {
        len: 20,
        send_mode: SendMode::Single,
        data_type: DATA_TYPE_DEVINFO,
    };
    assert_eq!(
        desc.expect(DATA_TYPE_MEASUREMENT, 5, SendMode::Multi),
        Err(ProtocolError::WrongDataType {
            expected: DATA_TYPE_MEASUREMENT,
            actual: DATA_TYPE_DEVINFO
        })
    );
    assert_eq!(
        desc.expect(DATA_TYPE_DEVINFO, 5, SendMode::Multi),
        Err(ProtocolError::WrongLength {
            expected: 5,
            actual: 20
        })
    );
}

#[test]
fn parses_device_info_with_firmware_byte_order() {
    let mut payload = [0u8; DEVINFO_LEN];
    payload[0] = MODEL_C1;
    payload[1] = 0x19;
    payload[2] = 0x01;
    payload[3] = 0x12;
    for (i, byte) in payload[4..20].iter_mut().enumerate() {
        #[allow(clippy::cast_possible_truncation)]
        {
            *byte = 0xF0 + i as u8;
        }
    }

    let info = parse_device_info(&payload);
    assert_eq!(info.model, MODEL_C1);
    assert_eq!(info.model_name(), Some("RPLIDAR C1"));
    assert_eq!(info.firmware_version, (1, 25));
    assert_eq!(info.hardware_version, 0x12);
    assert_eq!(info.serial_number[0], 0xF0);
    assert_eq!(info.serial_number[15], 0xFF);
}

#[test]
fn unknown_model_is_preserved_not_rejected() {
    let mut payload = [0u8; DEVINFO_LEN];
    payload[0] = 0x99;
    let info = parse_device_info(&payload);
    assert_eq!(info.model, 0x99);
    assert_eq!(info.model_name(), None);
}

#[test]
fn serial_number_hex_renders_32_uppercase_chars() {
    let info = DeviceInfo {
        model: MODEL_C1,
        firmware_version: (1, 1),
        hardware_version: 1,
        serial_number: [
            0xAB, 0xCD, 0xEF, 0x01, 0x23, 0x45, 0x67, 0x89, 0x00, 0x00, 0x00, 0x00, 0x00, 0x00,
            0x00, 0x0F,
        ],
    };
    let hex = info.serial_number_hex().to_hex_string();
    assert_eq!(hex, "ABCDEF0123456789000000000000000F");
    assert_eq!(hex.len(), 32);
}

#[test]
fn parses_health_statuses() {
    assert_eq!(parse_health(&[0, 0, 0]), Ok(HealthStatus::Good));
    assert!(parse_health(&[0, 0, 0]).unwrap().is_good());
    assert_eq!(
        parse_health(&[1, 0x01, 0x02]),
        Ok(HealthStatus::Warning(0x0201))
    );
    assert_eq!(
        parse_health(&[2, 0xFF, 0x00]),
        Ok(HealthStatus::Error(0xFF))
    );
    assert!(!parse_health(&[2, 0xFF, 0x00]).unwrap().is_good());
}

#[test]
fn rejects_invalid_health_status_byte() {
    assert_eq!(
        parse_health(&[3, 0, 0]),
        Err(ProtocolError::InvalidHealthStatus(3))
    );
    assert_eq!(
        parse_health(&[0xFF, 0, 0]),
        Err(ProtocolError::InvalidHealthStatus(0xFF))
    );
}

#[test]
fn good_status_ignores_the_code_bytes() {
    assert_eq!(parse_health(&[0, 0x34, 0x12]), Ok(HealthStatus::Good));
    assert!(!HealthStatus::Warning(0).is_good());
}

#[test]
fn parses_a_start_node() {
    let node = parse_scan_node(&encode_node(true, 15, 90.0, 1000.0)).unwrap();
    assert!(node.start_flag);
    assert_eq!(node.quality, 15);
    assert_eq!(node.angle_q6, 5760);
    assert!((angle_deg(&node) - 90.0).abs() < 1.0 / 64.0);
    assert_eq!(node.distance_q2, 4000);
    assert!((distance_mm(&node) - 1000.0).abs() < 0.25);
    assert!(node.is_valid_measurement());
}

#[test]
fn parses_a_non_start_node_with_zero_distance() {
    let node = parse_scan_node(&encode_node(false, 0, 359.9, 0.0)).unwrap();
    assert!(!node.start_flag);
    assert_eq!(node.quality, 0);
    assert_eq!(node.distance_q2, 0);
    assert!(!node.is_valid_measurement());
    assert!((angle_deg(&node) - 359.9).abs() < 1.0 / 32.0);
}

#[test]
fn known_wire_bytes_decode_exactly() {
    let node = parse_scan_node(&[0xA2, 0x69, 0x24, 0xA0, 0x0F]).unwrap();
    assert_eq!(node.quality, 40);
    assert!(!node.start_flag);
    assert_eq!(node.angle_q6, 0x1234);
    assert_eq!(node.distance_q2, 0x0FA0);
}

#[test]
fn rejects_bad_start_flag_pair() {
    let err = parse_scan_node(&[0b0000_0000, 0x01, 0, 0, 0]).unwrap_err();
    assert!(matches!(err, ProtocolError::InvalidScanNode { .. }));
    let err = parse_scan_node(&[0b0000_0011, 0x01, 0, 0, 0]).unwrap_err();
    assert!(matches!(err, ProtocolError::InvalidScanNode { .. }));
}

#[test]
fn rejects_clear_check_bit() {
    let err = parse_scan_node(&[0b0000_0001, 0b0000_0000, 0, 0, 0]).unwrap_err();
    assert_eq!(
        err,
        ProtocolError::InvalidScanNode {
            byte0: 0x01,
            byte1: 0x00
        }
    );
}

#[test]
fn could_start_node_matches_parser() {
    for byte0 in 0..=u8::MAX {
        let plausible = could_start_node(byte0);
        let parses = parse_scan_node(&[byte0, 0x01, 0, 0, 0]).is_ok();
        assert_eq!(plausible, parses, "byte0={byte0:#04x}");
    }
}

#[test]
fn largest_fields_decode_exactly() {
    let node = parse_scan_node(&[0xFE, 0xFF, 0xFF, 0xFF, 0xFF]).unwrap();
    assert_eq!(node.quality, 63);
    assert!(!node.start_flag);
    assert_eq!(node.angle_q6, 0x7FFF);
    assert_eq!(node.distance_q2, 0xFFFF);
}

#[test]
fn xor_checksum_composes_and_cancels() {
    let a = [0x12u8, 0x34, 0xA5];
    let b = [0xF0u8, 0x0F];
    let joined = [0x12u8, 0x34, 0xA5, 0xF0, 0x0F];
    assert_eq!(xor_checksum(&joined), xor_checksum(&a) ^ xor_checksum(&b));
    assert_eq!(xor_checksum(&[]), 0);
    let twice = [0x12u8, 0x34, 0xA5, 0x12, 0x34, 0xA5];
    assert_eq!(xor_checksum(&twice), 0);
}

#[test]
fn xor_checksum_ignores_byte_order_and_closes_with_itself() {
    let a = [0x12u8, 0x34, 0xA5, 0x7E];
    let shuffled = [0xA5u8, 0x7E, 0x34, 0x12];
    assert_eq!(xor_checksum(&a), xor_checksum(&shuffled));
    let mut closed = a.to_vec();
    closed.push(xor_checksum(&a));
    assert_eq!(xor_checksum(&closed), 0);
}
