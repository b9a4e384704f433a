//! The full driver stack over replayed and scripted byte streams.

use std::time::Duration;

use olivaw_lidar::error::port_open_error;
use olivaw_lidar::protocol::info::MODEL_C1;
use olivaw_lidar::protocol::ProtocolError;
use olivaw_lidar::transport::{MockTransport, ReplayTransport, Transport, TransportError};
use olivaw_lidar::{
    HealthStatus, Lidar, LidarConfig, LidarError, Operation, ScanAssembler, ScanNode, ScanProgress,
};

/// A config with no settle pauses, so replay/mock tests run instantly.
fn instant_config() -> LidarConfig {
    LidarConfig {
        response_timeout: Duration::from_millis(10),
        stop_settle: Duration::ZERO,
        motor_settle: Duration::ZERO,
        reset_settle: Duration::ZERO,
        ..LidarConfig::default()
    }
}

/// Drives an operation to completion; every pause is zero in these tests.
fn run<T: Transport>(lidar: &mut Lidar<T>, op: Operation) -> Result<(), LidarError> {
    let mut op = op;
    while let Some(pause) = lidar.advance(&mut op)? {
        assert_eq!(pause, Duration::ZERO);
    }
    Ok(())
}

fn start_scan<T: Transport>(lidar: &mut Lidar<T>) -> Result<(), LidarError> {
    run(lidar, Operation::StartScan)
}

/// Every rotation of the stream, until it ends or fails.
fn rotations<T: Transport>(lidar: &mut Lidar<T>) -> Result<Vec<Vec<ScanNode>>, LidarError> {
    let mut assembler = ScanAssembler::new();
    let mut out = Vec::new();
    loop {
        match lidar.read_scan(&mut assembler) {
            ScanProgress::Rotation(r) => out.push(r),
            ScanProgress::Measured => {}
            ScanProgress::Ended => return Ok(out),
            ScanProgress::Failed(e) => return Err(e),
        }
    }
}

fn angle_deg(node: &ScanNode) -> f32 {
    f32::from(node.angle_q6) / 64.0
}

/// Degrees covered by the angular steps between consecutive nodes.
fn angular_coverage(rotation: &[ScanNode]) -> f32 {
    let mut total = 0.0_f32;
    for pair in rotation.windows(2) {
        let mut step = angle_deg(&pair[1]) - angle_deg(&pair[0]);
        if step < 0.0 {
            step += 360.0;
        }
        total += step;
    }
    total.min(360.0)
}

/// Encodes a wire scan node from human units.
#[allow(clippy::cast_possible_truncation, clippy::cast_sign_loss)]
fn node(start: bool, quality: u8, angle_deg: f32, distance_mm: f32) -> [u8; 5] {
    let angle_q6 = (angle_deg * 64.0) as u16;
    let distance_q2 = (distance_mm * 4.0) as u16;
    let s = u8::from(start);
    [
        (quality << 2) | ((1 - s) << 1) | s,
        (((angle_q6 & 0x7F) as u8) << 1) | 0x01,
        (angle_q6 >> 7) as u8,
        (distance_q2 & 0xFF) as u8,
        (distance_q2 >> 8) as u8,
    ]
}

/// The 7-byte standard-scan response descriptor.
const SCAN_DESCRIPTOR: [u8; 7] = [0xA5, 0x5A, 0x05, 0x00, 0x00, 0x40, 0x81];

fn synthetic_session(rotations: usize, nodes_per_rotation: usize) -> Vec<u8> {
    let mut bytes = SCAN_DESCRIPTOR.to_vec();
    for _ in 0..rotations {
        for i in 0..nodes_per_rotation {
            #[allow(clippy::cast_precision_loss)]
            let angle = 360.0 * i as f32 / nodes_per_rotation as f32;
            bytes.extend_from_slice(&node(i == 0, 47, angle, 1000.0 + angle));
        }
    }
    bytes
}

#[test]
fn replayed_session_yields_complete_scans() {
    let stream = synthetic_session(4, 100);
    let mut lidar =
        Lidar::with_transport_and_config(ReplayTransport::from_bytes(stream), instant_config());
    start_scan(&mut lidar).expect("descriptor should validate");

    let scans = rotations(&mut lidar).expect("clean stream should produce no errors");

    // 4 rotations: three complete scans are emitted at rotation boundaries;
    // the 4th has no closing start flag and is dropped at EOF.
    assert_eq!(scans.len(), 3);
    for scan in &scans {
        assert_eq!(scan.len(), 100);
        assert!(
            angular_coverage(scan) > 350.0,
            "coverage {}",
            angular_coverage(scan)
        );
        assert_eq!(scan.iter().filter(|n| n.is_valid_measurement()).count(), 100);
    }
}

fn three_rotations_with(corrupt: impl Fn(&mut Vec<u8>, [u8; 5])) -> Vec<u8> {
    let mut stream = SCAN_DESCRIPTOR.to_vec();
    for rotation in 0..3 {
        for i in 0u8..50 {
            let angle = 360.0 * f32::from(i) / 50.0;
            let wire = node(i == 0, 47, angle, 800.0);
            if rotation == 1 && i == 25 {
                corrupt(&mut stream, wire);
            } else {
                stream.extend_from_slice(&wire);
            }
        }
    }
    stream
}

fn replay_scans(stream: Vec<u8>) -> Vec<Vec<ScanNode>> {
    let mut lidar =
        Lidar::with_transport_and_config(ReplayTransport::from_bytes(stream), instant_config());
    start_scan(&mut lidar).unwrap();
    rotations(&mut lidar).expect("resync should recover, not error")
}

#[test]
fn garbage_between_nodes_recovers_every_node() {
    let scans = replay_scans(three_rotations_with(|stream, wire| {
        stream.extend_from_slice(&[0x00, 0x00, 0x00]);
        stream.extend_from_slice(&wire);
    }));
    assert_eq!(scans.len(), 2);
    assert_eq!(scans[0].len(), 50, "garbage must cost zero real nodes");
    assert_eq!(scans[1].len(), 50);
}

#[test]
fn corrupted_node_is_dropped_and_stream_recovers() {
    let scans = replay_scans(three_rotations_with(|stream, mut wire| {
        wire[0] = 0b0000_0011;
        stream.extend_from_slice(&wire);
    }));
    assert_eq!(scans.len(), 2);
    assert_eq!(
        scans[0].len(),
        50,
        "rotation before the corruption is intact"
    );
    assert_eq!(scans[1].len(), 49, "exactly the corrupted node is lost");
}

#[test]
fn wrong_descriptor_fails_start_scan() {
    let mut stream = vec![0xA5, 0x5A, 0x14, 0x00, 0x00, 0x00, 0x04];
    stream.extend_from_slice(&[0u8; 20]);
    let mut lidar =
        Lidar::with_transport_and_config(ReplayTransport::from_bytes(stream), instant_config());
    let err = start_scan(&mut lidar).unwrap_err();
    assert!(matches!(err, LidarError::Protocol(_)), "{err:?}");
}

#[test]
fn mock_round_trip_info_and_health() {
    let mut mock = MockTransport::new();
    mock.queue_input(&[0xA5, 0x5A, 0x14, 0x00, 0x00, 0x00, 0x04]);
    let mut payload = vec![MODEL_C1, 0x19, 0x01, 0x03];
    payload.extend(0u8..16u8);
    mock.queue_input(&payload);
    mock.queue_input(&[0xA5, 0x5A, 0x03, 0x00, 0x00, 0x00, 0x06]);
    mock.queue_input(&[0x00, 0x00, 0x00]);

    let mut lidar = Lidar::with_transport_and_config(mock, instant_config());
    let info = lidar.info().unwrap();
    assert_eq!(info.model, MODEL_C1);
    assert_eq!(info.firmware_version, (1, 25));
    assert_eq!(info.hardware_version, 3);
    assert_eq!(info.serial_number_hex().to_hex_string().len(), 32);
    assert!(lidar.health().unwrap().is_good());

    assert_eq!(lidar.into_transport().written(), &[0xA5, 0x50, 0xA5, 0x52]);
}

#[test]
fn silent_device_reports_named_timeout() {
    let mut lidar = Lidar::with_transport_and_config(MockTransport::new(), instant_config());
    let err = lidar.info().unwrap_err();
    if let LidarError::Timeout { what, ms } = &err {
        assert_eq!(*what, "device info descriptor");
        assert_eq!(*ms, 10);
    } else {
        panic!("expected a named timeout, got {err:?}");
    }
}

// ---------------------------------------------------------------------------
// Further behaviour of the device layer.
// ---------------------------------------------------------------------------

#[test]
fn start_scan_spins_the_motor_then_requests_scan() {
    let mut mock = MockTransport::new();
    mock.queue_input(&[0x11, 0x22]);
    let mut lidar = Lidar::with_transport_and_config(mock, instant_config());
    let mut op = Operation::StartScan;
    // Flush, then SET_MOTOR_PWM(660) and its settle pause.
    assert_eq!(lidar.advance(&mut op).unwrap(), Some(Duration::ZERO));
    assert_eq!(op, Operation::ScanRequest);
    // The device answers the SCAN request only after the settle.
    let mut lidar = {
        let mut t = lidar.into_transport();
        t.queue_input(&SCAN_DESCRIPTOR);
        Lidar::with_transport_and_config(t, instant_config())
    };
    assert_eq!(lidar.advance(&mut op).unwrap(), None);
    assert_eq!(op, Operation::Complete);
    let t = lidar.into_transport();
    assert_eq!(t.discards(), 1);
    assert_eq!(
        t.written(),
        &[0xA5, 0xF0, 0x02, 0x94, 0x02, 0xC1, 0xA5, 0x20]
    );
}

#[test]
fn start_scan_without_motor_pwm_sends_only_scan() {
    let mut mock = MockTransport::new();
    mock.queue_input(&[0x99]);
    let config = LidarConfig {
        motor_pwm: 0,
        ..instant_config()
    };
    let mut lidar = Lidar::with_transport_and_config(mock, config);
    let mut op = Operation::StartScan;
    // The flush drops the stale byte; no descriptor is queued yet.
    let err = lidar.advance(&mut op).unwrap_err();
    assert!(matches!(err, LidarError::Timeout { what: "scan descriptor", ms: 10 }));
    assert_eq!(op, Operation::Complete);
    assert_eq!(lidar.into_transport().written(), &[0xA5, 0x20]);
}

#[test]
fn stop_sends_stop_then_flushes_after_the_settle() {
    let mut mock = MockTransport::new();
    mock.queue_input(&[1, 2, 3]);
    let config = LidarConfig {
        stop_settle: Duration::from_millis(50),
        ..instant_config()
    };
    let mut lidar = Lidar::with_transport_and_config(mock, config);
    let mut op = Operation::Stop;
    assert_eq!(
        lidar.advance(&mut op).unwrap(),
        Some(Duration::from_millis(50))
    );
    assert_eq!(op, Operation::Flush);
    assert_eq!(lidar.advance(&mut op).unwrap(), None);
    assert_eq!(op, Operation::Complete);
    assert_eq!(lidar.advance(&mut op).unwrap(), None);
    let t = lidar.into_transport();
    assert_eq!(t.written(), &[0xA5, 0x25]);
    assert_eq!(t.discards(), 1);
}

#[test]
fn reset_and_motor_commands_frame_correctly() {
    let mut lidar = Lidar::with_transport_and_config(MockTransport::new(), instant_config());
    run(&mut lidar, Operation::Reset).unwrap();
    run(&mut lidar, Operation::SetMotorPwm(5000)).unwrap();
    assert_eq!(
        lidar.into_transport().written(),
        &[0xA5, 0x40, 0xA5, 0xF0, 0x02, 0xFF, 0x03, 0xAB]
    );
}

#[test]
fn unhealthy_device_is_a_successful_query() {
    let mut mock = MockTransport::new();
    mock.queue_input(&[0xA5, 0x5A, 0x03, 0x00, 0x00, 0x00, 0x06, 0x02, 0x34, 0x12]);
    let mut lidar = Lidar::with_transport_and_config(mock, instant_config());
    assert_eq!(lidar.health().unwrap(), HealthStatus::Error(0x1234));
}

#[test]
fn invalid_health_status_is_a_protocol_error() {
    let mut mock = MockTransport::new();
    mock.queue_input(&[0xA5, 0x5A, 0x03, 0x00, 0x00, 0x00, 0x06, 0x07, 0x00, 0x00]);
    let mut lidar = Lidar::with_transport_and_config(mock, instant_config());
    assert!(matches!(
        lidar.health(),
        Err(LidarError::Protocol(ProtocolError::InvalidHealthStatus(7)))
    ));
}

#[test]
fn missing_payload_names_the_payload() {
    let mut mock = MockTransport::new();
    mock.queue_input(&[0xA5, 0x5A, 0x14, 0x00, 0x00, 0x00, 0x04, 0x41]);
    let mut lidar = Lidar::with_transport_and_config(mock, instant_config());
    assert!(matches!(
        lidar.info(),
        Err(LidarError::Timeout { what: "device info payload", ms: 10 })
    ));
}

#[test]
fn bad_descriptor_sync_is_reported() {
    let mut mock = MockTransport::new();
    mock.queue_input(&[0x00, 0x5A, 0x14, 0x00, 0x00, 0x00, 0x04]);
    let mut lidar = Lidar::with_transport_and_config(mock, instant_config());
    assert!(matches!(
        lidar.info(),
        Err(LidarError::Protocol(ProtocolError::BadSync { actual: [0x00, 0x5A] }))
    ));
}

#[test]
fn endless_garbage_is_a_desync() {
    let mut stream = SCAN_DESCRIPTOR.to_vec();
    stream.extend(std::iter::repeat(0u8).take(5000));
    let mut lidar =
        Lidar::with_transport_and_config(ReplayTransport::from_bytes(stream), instant_config());
    start_scan(&mut lidar).unwrap();
    let err = rotations(&mut lidar).unwrap_err();
    if let LidarError::Desync(msg) = &err {
        assert!(msg.contains("4096"), "{msg}");
    } else {
        panic!("expected a desync, got {err:?}");
    }
}

#[test]
fn nodes_before_the_first_start_flag_are_dropped() {
    let mut stream = SCAN_DESCRIPTOR.to_vec();
    stream.extend_from_slice(&node(false, 10, 1.0, 100.0));
    stream.extend_from_slice(&node(false, 10, 2.0, 100.0));
    for _ in 0..2 {
        stream.extend_from_slice(&node(true, 10, 0.0, 100.0));
        stream.extend_from_slice(&node(false, 10, 90.0, 0.0));
    }
    let scans = replay_scans(stream);
    assert_eq!(scans.len(), 1);
    assert_eq!(scans[0].len(), 2);
    assert!(scans[0][0].start_flag);
    assert!(!scans[0][1].is_valid_measurement());
}

#[test]
fn default_config_matches_the_c1() {
    let config = LidarConfig::default();
    assert_eq!(config.baud_rate, 460_800);
    assert_eq!(config.response_timeout, Duration::from_secs(1));
    assert_eq!(config.stop_settle, Duration::from_millis(50));
    assert_eq!(config.motor_settle, Duration::from_millis(50));
    assert_eq!(config.reset_settle, Duration::from_millis(500));
    assert_eq!(config.motor_pwm, 660);
    assert_eq!(config.scan_startup_timeout, Duration::from_secs(5));
    let lidar = Lidar::with_transport(MockTransport::new());
    assert_eq!(lidar.config(), &config);
    assert_eq!(lidar.config().clone(), config);
}

#[test]
fn truncated_stream_ends_cleanly_after_the_last_full_node() {
    let mut stream = SCAN_DESCRIPTOR.to_vec();
    stream.extend_from_slice(&node(true, 10, 0.0, 100.0));
    stream.extend_from_slice(&node(false, 10, 120.0, 100.0));
    stream.extend_from_slice(&node(false, 10, 240.0, 100.0));
    stream.extend_from_slice(&node(true, 10, 0.0, 100.0));
    stream.extend_from_slice(&[0x00, 0x00, 0x00, 0x00]);
    let mut lidar =
        Lidar::with_transport_and_config(ReplayTransport::from_bytes(stream), instant_config());
    start_scan(&mut lidar).unwrap();
    let mut assembler = ScanAssembler::new();
    let mut measured = 0;
    let mut completed = Vec::new();
    loop {
        match lidar.read_scan(&mut assembler) {
            ScanProgress::Rotation(r) => completed.push(r),
            ScanProgress::Measured => measured += 1,
            ScanProgress::Ended => break,
            ScanProgress::Failed(e) => panic!("unexpected failure {e:?}"),
        }
    }
    assert_eq!(measured, 3);
    assert_eq!(completed.len(), 1);
    assert_eq!(completed[0].len(), 3);
    assert!(matches!(lidar.read_scan(&mut assembler), ScanProgress::Ended));
}

#[test]
fn a_port_that_fails_to_open_reports_a_transport_error() {
    assert!(matches!(
        port_open_error(TransportError::Timeout),
        LidarError::Transport(TransportError::Timeout)
    ));
    let io = std::io::Error::new(std::io::ErrorKind::NotFound, "no such port");
    assert!(matches!(
        port_open_error(TransportError::Io(io)),
        LidarError::Transport(TransportError::Io(_))
    ));
}

#[test]
fn desync_message_names_the_discarded_bytes() {
    let mut stream = SCAN_DESCRIPTOR.to_vec();
    stream.extend(std::iter::repeat(0xFFu8).take(4200));
    let mut lidar =
        Lidar::with_transport_and_config(ReplayTransport::from_bytes(stream), instant_config());
    start_scan(&mut lidar).unwrap();
    match rotations(&mut lidar) {
        Err(LidarError::Desync(msg)) => assert_eq!(
            msg,
            "no valid scan node found after discarding 4096 bytes; is another program reading the port?"
        ),
        other => panic!("expected a desync, got {other:?}"),
    }
}

#[test]
fn a_failed_node_read_is_named_by_where_it_stopped() {
    let mut silent = Lidar::with_transport_and_config(MockTransport::new(), instant_config());
    let mut assembler = ScanAssembler::new();
    match silent.read_scan(&mut assembler) {
        ScanProgress::Failed(LidarError::Timeout { what, ms }) => {
            assert_eq!(what, "scan node");
            assert_eq!(ms, 5000);
        }
        other => panic!("expected a scan node timeout, got {other:?}"),
    }

    let mut mock = MockTransport::new();
    mock.queue_input(&[0xFF; 5]);
    let mut garbled = Lidar::with_transport_and_config(mock, instant_config());
    let mut assembler = ScanAssembler::new();
    match garbled.read_scan(&mut assembler) {
        ScanProgress::Failed(LidarError::Timeout { what, ms }) => {
            assert_eq!(what, "scan node resync");
            assert_eq!(ms, 5000);
        }
        other => panic!("expected a resync timeout, got {other:?}"),
    }
}
