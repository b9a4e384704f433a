//! The scripted and recorded transports, and serial-port selection.

use std::time::Duration;

use olivaw_lidar::transport::ports::looks_like_usb_serial;
use olivaw_lidar::transport::{
    classify_port_read, fill_after, port_timeout_update, prefer_callout_device, select_lidar_port,
    FillStep, MockTransport, PortCandidate, PortRead, ReplayTransport,
    Transport, TransportError,
};

const TIMEOUT: Duration = Duration::from_millis(1);

#[test]
fn records_writes_and_serves_queued_reads() {
    let mut t = MockTransport::new();
    t.queue_input(&[10, 20, 30]);
    t.write_all(&[0xA5, 0x50]).unwrap();

    let mut buf = [0u8; 3];
    t.read_exact(&mut buf, TIMEOUT).unwrap();
    assert_eq!(buf, [10, 20, 30]);
    assert_eq!(t.written(), &[0xA5, 0x50]);
}

#[test]
fn empty_queue_times_out() {
    let mut t = MockTransport::new();
    let mut buf = [0u8; 1];
    assert!(matches!(
        t.read(&mut buf, TIMEOUT),
        Err(TransportError::Timeout)
    ));
}

#[test]
fn discard_drops_pending_input() {
    let mut t = MockTransport::new();
    t.queue_input(&[1, 2, 3]);
    t.discard_input().unwrap();
    assert_eq!(t.discards(), 1);
    let mut buf = [0u8; 1];
    assert!(t.read_exact(&mut buf, TIMEOUT).is_err());
}

#[test]
fn short_queue_times_out_without_consuming() {
    let mut t = MockTransport::new();
    t.queue_input(&[7, 8]);
    let mut buf = [0u8; 3];
    assert!(matches!(
        t.read_exact(&mut buf, TIMEOUT),
        Err(TransportError::Timeout)
    ));
    let mut two = [0u8; 2];
    t.read_exact(&mut two, TIMEOUT).unwrap();
    assert_eq!(two, [7, 8]);
}

#[test]
fn mock_read_returns_what_is_queued_up_to_the_buffer() {
    let mut t = MockTransport::new();
    t.queue_input(&[1, 2, 3, 4, 5]);
    let mut buf = [0u8; 2];
    assert_eq!(t.read(&mut buf, TIMEOUT).unwrap(), 2);
    assert_eq!(buf, [1, 2]);
    let mut rest = [0u8; 8];
    assert_eq!(t.read(&mut rest, TIMEOUT).unwrap(), 3);
    assert_eq!(&rest[..3], &[3, 4, 5]);
    t.queue_input(&[6]);
    assert_eq!(t.read(&mut rest, TIMEOUT).unwrap(), 1);
    assert_eq!(rest[0], 6);
}

#[test]
fn replays_bytes_in_order_then_eof() {
    let mut t = ReplayTransport::from_bytes(vec![1, 2, 3, 4, 5]);
    assert_eq!(t.remaining(), 5);

    let mut buf = [0u8; 2];
    t.read_exact(&mut buf, TIMEOUT).unwrap();
    assert_eq!(buf, [1, 2]);

    let mut rest = [0u8; 4];
    let n = t.read(&mut rest, TIMEOUT).unwrap();
    assert_eq!(n, 3);
    assert_eq!(&rest[..n], &[3, 4, 5]);

    assert!(matches!(
        t.read(&mut rest, TIMEOUT),
        Err(TransportError::Eof)
    ));
}

#[test]
fn short_tail_is_eof_not_partial() {
    let mut t = ReplayTransport::from_bytes(vec![1, 2, 3]);
    let mut buf = [0u8; 5];
    assert!(matches!(
        t.read_exact(&mut buf, TIMEOUT),
        Err(TransportError::Eof)
    ));
    assert_eq!(t.remaining(), 0);
}

#[test]
fn trait_object_transport_drives_a_lidar() {
    let mut mock = MockTransport::new();
    mock.queue_input(&[0xA5, 0x5A, 0x03, 0x00, 0x00, 0x00, 0x06, 0x00, 0x00, 0x00]);
    let boxed: Box<dyn Transport> = Box::new(mock);
    let mut lidar = olivaw_lidar::Lidar::with_transport(boxed);
    assert_eq!(lidar.health().unwrap(), olivaw_lidar::HealthStatus::Good);
}

#[test]
fn writes_and_discards_are_inert() {
    let mut t = ReplayTransport::from_bytes(vec![9]);
    t.write_all(&[0xA5, 0x20]).unwrap();
    t.discard_input().unwrap();
    assert_eq!(t.remaining(), 1, "discard_input must not eat replay data");
}

#[test]
fn boxed_transport_forwards() {
    let mut t: Box<ReplayTransport> = Box::new(ReplayTransport::from_bytes(vec![4, 5]));
    let mut buf = [0u8; 2];
    t.read_exact(&mut buf, TIMEOUT).unwrap();
    assert_eq!(buf, [4, 5]);
    assert_eq!(t.remaining(), 0);
}

#[test]
fn recognizes_usb_serial_names() {
    assert!(looks_like_usb_serial("/dev/cu.usbserial-1130"));
    assert!(looks_like_usb_serial("/dev/ttyUSB0"));
    assert!(looks_like_usb_serial("/dev/ttyACM0"));
    assert!(!looks_like_usb_serial("/dev/cu.Bluetooth-Incoming-Port"));
    assert!(!looks_like_usb_serial("/dev/ttyS0"));
}

#[test]
fn rewrites_tty_to_cu_on_macos() {
    assert_eq!(
        prefer_callout_device("/dev/tty.usbserial-1130", true),
        "/dev/cu.usbserial-1130"
    );
    assert_eq!(
        prefer_callout_device("/dev/cu.usbserial-1130", true),
        "/dev/cu.usbserial-1130"
    );
}

#[test]
fn other_platforms_keep_tty_names() {
    assert_eq!(
        prefer_callout_device("/dev/tty.usbserial-1130", false),
        "/dev/tty.usbserial-1130"
    );
    assert_eq!(prefer_callout_device("COM3", true), "COM3");
}

fn port(name: &str, usb: Option<(u16, u16)>) -> PortCandidate {
    PortCandidate {
        name: name.to_string(),
        usb,
    }
}

#[test]
fn known_bridge_wins_over_earlier_usb_ports() {
    let ports = vec![
        port("/dev/ttyACM0", None),
        port("/dev/ttyUSB0", Some((0x0403, 0x6001))),
        port("/dev/ttyUSB1", Some((0x1A86, 0x7523))),
    ];
    assert_eq!(
        select_lidar_port(&ports, false),
        Some("/dev/ttyUSB1".to_string())
    );
}

#[test]
fn any_usb_port_wins_over_name_patterns() {
    let ports = vec![
        port("/dev/ttyACM0", None),
        port("/dev/ttyS4", Some((0x0403, 0x6001))),
        port("/dev/ttyS5", Some((0x0403, 0x6002))),
    ];
    assert_eq!(
        select_lidar_port(&ports, false),
        Some("/dev/ttyS4".to_string())
    );
}

#[test]
fn name_patterns_are_the_last_resort() {
    let ports = vec![port("/dev/ttyS0", None), port("/dev/tty.usbserial-7", None)];
    assert_eq!(
        select_lidar_port(&ports, true),
        Some("/dev/cu.usbserial-7".to_string())
    );
    assert_eq!(select_lidar_port(&ports, false), None);
    assert_eq!(select_lidar_port(&Vec::new(), false), None);
}

#[test]
fn selected_bridge_name_is_callout_preferred() {
    let ports = vec![port("/dev/tty.SLAB_USBtoUART", Some((0x10C4, 0xEA60)))];
    assert_eq!(
        select_lidar_port(&ports, true),
        Some("/dev/cu.SLAB_USBtoUART".to_string())
    );
}

#[test]
fn port_reads_are_classified() {
    assert!(matches!(classify_port_read(PortRead::Bytes(0)), Some(Err(TransportError::Eof))));
    assert!(matches!(classify_port_read(PortRead::Bytes(3)), Some(Ok(3))));
    assert!(classify_port_read(PortRead::Interrupted).is_none());
    assert!(matches!(classify_port_read(PortRead::TimedOut), Some(Err(TransportError::Timeout))));
    let io = std::io::Error::new(std::io::ErrorKind::BrokenPipe, "gone");
    assert!(matches!(classify_port_read(PortRead::Failed(io)), Some(Err(TransportError::Io(_)))));
    assert!(matches!(fill_after(0, 5, PortRead::Bytes(2)), FillStep::Continue(2)));
    assert!(matches!(fill_after(2, 5, PortRead::Bytes(3)), FillStep::Filled));
    assert!(matches!(fill_after(2, 5, PortRead::Interrupted), FillStep::Continue(2)));
    assert!(matches!(fill_after(2, 5, PortRead::Bytes(0)), FillStep::Stop(TransportError::Eof)));
}

#[test]
fn port_timeout_is_raised_to_a_millisecond_and_set_only_when_it_changes() {
    let one_ms = Duration::from_millis(1);
    assert_eq!(port_timeout_update(Duration::ZERO, Duration::from_secs(1)), Some(one_ms));
    assert_eq!(port_timeout_update(Duration::from_micros(10), one_ms), None);
    assert_eq!(
        port_timeout_update(Duration::from_millis(250), Duration::from_secs(1)),
        Some(Duration::from_millis(250))
    );
    assert_eq!(port_timeout_update(Duration::from_millis(250), Duration::from_millis(250)), None);
}

#[test]
fn partial_reads_keep_the_rest_of_the_buffer() {
    let mut mock = MockTransport::new();
    mock.queue_input(&[1, 2]);
    let mut buf = [9u8; 4];
    assert_eq!(mock.read(&mut buf, TIMEOUT).unwrap(), 2);
    assert_eq!(buf, [1, 2, 9, 9]);
    assert!(matches!(mock.read(&mut buf, TIMEOUT), Err(TransportError::Timeout)));
    assert_eq!(buf, [1, 2, 9, 9]);

    let mut replay = ReplayTransport::from_bytes(vec![7, 8, 9]);
    let mut short = [5u8; 4];
    assert!(matches!(replay.read_exact(&mut short, TIMEOUT), Err(TransportError::Eof)));
    assert_eq!(short, [5, 5, 5, 5]);
    assert_eq!(replay.remaining(), 0);
}

#[test]
fn a_run_of_replay_reads_hands_out_the_recording_in_order() {
    let data: Vec<u8> = (0u8..12).collect();
    let mut replay = ReplayTransport::from_bytes(data.clone());
    let mut handed_out = Vec::new();
    let mut two = [0u8; 2];
    replay.read_exact(&mut two, TIMEOUT).unwrap();
    handed_out.extend_from_slice(&two);
    replay.write_all(&[0xA5, 0x20]).unwrap();
    replay.discard_input().unwrap();
    let mut four = [0u8; 4];
    let n = replay.read(&mut four, TIMEOUT).unwrap();
    handed_out.extend_from_slice(&four[..n]);
    let mut big = [0u8; 8];
    assert!(matches!(replay.read_exact(&mut big, TIMEOUT), Err(TransportError::Eof)));
    assert_eq!(handed_out, data[..handed_out.len()].to_vec());
    assert_eq!(handed_out.len(), 6);
}
