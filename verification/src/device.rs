//! The [`Lidar`] request/response layer.
//!
//! A [`Lidar`] owns a [`Transport`] and drives the RPLIDAR protocol over it:
//! it frames requests, checks response descriptors, decodes payloads,
//! resynchronizes a broken measurement stream byte by byte and assembles
//! measurements into rotations.
//!
//! Device operations that must pause between their steps (stop, reset, motor
//! speed changes, scan start) are driven through [`Lidar::advance`], which
//! returns each pause for the caller to wait out.

use core::time::Duration;
use vstd::prelude::*;

use crate::assembly::{assembly_step, follows_history, ScanAssembler};
use crate::error::{lift, lifted, LidarError};
use crate::protocol::command::{lemma_pwm_frame_clamps, pwm_frame_head, request_frame, xor_all};
use crate::protocol::descriptor::{
    self, descriptor_parsed, expect_outcome, ResponseDescriptor, SendMode, DATA_TYPE_DEVHEALTH,
    DATA_TYPE_DEVINFO, DATA_TYPE_MEASUREMENT, DESCRIPTOR_LEN,
};
use crate::protocol::info::{
    self, device_info_decodes, health_outcome, push_char, DeviceInfo, HealthStatus, DEVHEALTH_LEN,
    DEVINFO_LEN,
};
use crate::protocol::scan_node::{
    self, decoded_node, node_checks, ScanNode, SCAN_NODE_LEN,
};
use crate::protocol::{Command, ProtocolError, MAX_REQUEST_LEN};
use crate::time::{duration_nanos, millis_u64};
use crate::transport::{Transport, TransportError};

verus! {

/// Give up resynchronizing after discarding this many bytes without finding
/// a valid node. Post-restart garbage is typically well under a kilobyte.
pub const MAX_DESYNC_DISCARD: usize = 4096;

/// Connection and timing parameters. The defaults match the RPLIDAR C1.
#[derive(Debug, PartialEq, Eq)]
pub struct LidarConfig {
    /// Serial baud rate. C1: `460_800`.
    pub baud_rate: u32,
    /// Budget for each descriptor or payload read.
    pub response_timeout: Duration,
    /// Wait after `STOP` before the device is reliably idle.
    pub stop_settle: Duration,
    /// Wait after `SET_MOTOR_PWM` before the motor speed is trustworthy.
    pub motor_settle: Duration,
    /// Wait after `RESET` while the device reboots and prints its boot banner.
    pub reset_settle: Duration,
    /// Motor PWM duty sent before scanning; `0` skips the motor command.
    pub motor_pwm: u16,
    /// Budget for the first scan node after a scan starts (motor spin-up);
    /// later nodes use [`LidarConfig::response_timeout`].
    pub scan_startup_timeout: Duration,
}

/// `c` holds the C1 defaults.
pub open spec fn is_default_config(c: LidarConfig) -> bool {
    &&& c.baud_rate == 460_800
    &&& duration_nanos(c.response_timeout) == 1_000_000_000
    &&& duration_nanos(c.stop_settle) == 50_000_000
    &&& duration_nanos(c.motor_settle) == 50_000_000
    &&& duration_nanos(c.reset_settle) == 500_000_000
    &&& c.motor_pwm == 660
    &&& duration_nanos(c.scan_startup_timeout) == 5_000_000_000
}

impl Clone for LidarConfig {
    fn clone(&self) -> (c: Self)
        ensures
            c == *self,
    {
        LidarConfig {
            baud_rate: self.baud_rate,
            response_timeout: self.response_timeout,
            stop_settle: self.stop_settle,
            motor_settle: self.motor_settle,
            reset_settle: self.reset_settle,
            motor_pwm: self.motor_pwm,
            scan_startup_timeout: self.scan_startup_timeout,
        }
    }
}

impl Default for LidarConfig {
    fn default() -> (c: Self)
        ensures
            is_default_config(c),
    {
        LidarConfig {
            baud_rate: 460_800,
            response_timeout: Duration::from_secs(1),
            stop_settle: Duration::from_millis(50),
            motor_settle: Duration::from_millis(50),
            reset_settle: Duration::from_millis(500),
            motor_pwm: 660,
            scan_startup_timeout: Duration::from_secs(5),
        }
    }
}

/// A connected lidar: a transport and the parameters to drive it with.
///
/// The lidar's contracts speak of the bytes it wrote through its transport
/// ([`Lidar::sent_bytes`]) and the bytes its reads received
/// ([`Lidar::received_bytes`]); whatever the transport dropped or flushed
/// without handing it over is in neither. They also speak of the errors the
/// transport reported ([`Lidar::transport_failures`]) and of the input
/// flushes it completed ([`Lidar::flush_count`]), and of the timeout handed
/// to each read ([`Lidar::read_timeouts`]). These records are kept by
/// the only methods that call the transport: `transmit`, `receive` and
/// [`Lidar::discard_input`].
pub struct Lidar<T: Transport> {
    transport: T,
    config: LidarConfig,
    sent: Ghost<Seq<u8>>,
    received: Ghost<Seq<u8>>,
    failures: Ghost<Seq<TransportError>>,
    flushes: Ghost<nat>,
    timeouts: Ghost<Seq<Duration>>,
}

/// The bytes received between two states of a lidar.
pub open spec fn taken<T: Transport>(before: Lidar<T>, after: Lidar<T>) -> Seq<u8> {
    after.received_bytes().skip(before.received_bytes().len() as int)
}

/// The bytes sent between two states of a lidar.
pub open spec fn sent_since<T: Transport>(before: Lidar<T>, after: Lidar<T>) -> Seq<u8> {
    after.sent_bytes().skip(before.sent_bytes().len() as int)
}

/// The errors the transport reported between two states of a lidar.
pub open spec fn failures_since<T: Transport>(before: Lidar<T>, after: Lidar<T>) -> Seq<
    TransportError,
> {
    after.transport_failures().skip(before.transport_failures().len() as int)
}

/// The timeouts handed to reads between two states of a lidar, in order.
pub open spec fn timeouts_since<T: Transport>(before: Lidar<T>, after: Lidar<T>) -> Seq<Duration> {
    after.read_timeouts().skip(before.read_timeouts().len() as int)
}

/// The input flushes completed between two states of a lidar.
pub open spec fn flushes_since<T: Transport>(before: Lidar<T>, after: Lidar<T>) -> int {
    after.flush_count() - before.flush_count()
}

/// Between two states of a lidar, its records only grew: received bytes,
/// reported errors and read timeouts were only added, and flushes only
/// counted up.
pub open spec fn advanced<T: Transport>(before: Lidar<T>, after: Lidar<T>) -> bool {
    &&& before.received_bytes().is_prefix_of(after.received_bytes())
    &&& before.transport_failures().is_prefix_of(after.transport_failures())
    &&& before.read_timeouts().is_prefix_of(after.read_timeouts())
    &&& before.flush_count() <= after.flush_count()
}

/// Exactly one transport error was reported, and `e` is that error lifted
/// with `what` and `ms`.
pub open spec fn lifted_from(fails: Seq<TransportError>, e: LidarError, what: &'static str, ms: u64) -> bool {
    fails.len() == 1 && e == lifted(fails[0], what, ms)
}

/// Every timeout in `reads` is `t`.
pub open spec fn all_reads_with(reads: Seq<Duration>, t: Duration) -> bool {
    forall|i: int| 0 <= i < reads.len() ==> reads[i] == t
}

/// Checking the 7 descriptor bytes `d` against what a request expects.
pub open spec fn descriptor_verdict(d: Seq<u8>, data_type: u8, len: u32, mode: SendMode) -> Result<
    (),
    ProtocolError,
> {
    match descriptor_parsed(d) {
        Ok(desc) => expect_outcome(desc, data_type, len, mode),
        Err(e) => Err(e),
    }
}

/// A completed exchange with a single response: after the request frame was
/// sent, exactly `7 + payload_len` bytes were taken; the first 7 form a
/// descriptor that checks out.
pub open spec fn answered(g: Seq<u8>, data_type: u8, payload_len: u32) -> bool {
    &&& g.len() == DESCRIPTOR_LEN + payload_len
    &&& descriptor_verdict(g.take(DESCRIPTOR_LEN as int), data_type, payload_len, SendMode::Single)
        is Ok
}

/// How a failed single-response exchange can end, given the bytes `sent`
/// and received `g`, the errors `fails` the transport reported and the
/// timeouts `reads` handed to reads meanwhile, for a request framed as
/// `frame` whose reads are named `desc_what` and `payload_what`:
/// - the request write failed: nothing sent, read or taken, and `e` is the
///   reported error lifted as a request write;
/// - the descriptor read failed: the frame sent, one read, nothing taken,
///   and `e` is the reported error lifted with `desc_what`;
/// - the descriptor was rejected: the frame sent, one read of seven bytes,
///   no error reported, and `e` is the descriptor's verdict;
/// - the payload read failed after a good descriptor: two reads, and `e` is
///   the reported error lifted with `payload_what`.
pub open spec fn exchange_failed(
    sent: Seq<u8>,
    g: Seq<u8>,
    fails: Seq<TransportError>,
    reads: Seq<Duration>,
    e: LidarError,
    frame: Seq<u8>,
    data_type: u8,
    payload_len: u32,
    desc_what: &'static str,
    payload_what: &'static str,
    ms: u64,
) -> bool {
    ||| sent.len() == 0 && g.len() == 0 && reads.len() == 0 && lifted_from(
        fails,
        e,
        "request write",
        0,
    )
    ||| sent == frame && g.len() == 0 && reads.len() == 1 && lifted_from(fails, e, desc_what, ms)
    ||| (sent == frame && g.len() == DESCRIPTOR_LEN && reads.len() == 1 && fails.len() == 0 && (
    e matches LidarError::Protocol(p) && descriptor_verdict(
        g,
        data_type,
        payload_len,
        SendMode::Single,
    ) == Err::<(), ProtocolError>(p)))
    ||| (sent == frame && g.len() == DESCRIPTOR_LEN && reads.len() == 2 && descriptor_verdict(
        g,
        data_type,
        payload_len,
        SendMode::Single,
    ) is Ok && lifted_from(fails, e, payload_what, ms))
}

/// A device operation that pauses between its steps, and how far it got.
///
/// Start one at [`Operation::Stop`], [`Operation::Reset`],
/// [`Operation::SetMotorPwm`] or [`Operation::StartScan`] and drive it with
/// [`Lidar::advance`] until it reports no further pause.
#[derive(Debug, Clone, Copy, PartialEq, Eq)]
pub enum Operation {
    /// Stop any active scan: send `STOP`, settle, then flush stale input.
    Stop,
    /// Reboot the device: send `RESET`, settle while the device prints its
    /// unframed boot banner, then flush it.
    Reset,
    /// Set the motor PWM duty (clamped to `0..=1023`; `0` stops the motor),
    /// then settle.
    SetMotorPwm(u16),
    /// Begin a standard scan: flush stale input, spin the motor when
    /// [`LidarConfig::motor_pwm`] is non-zero and settle, then send `SCAN`
    /// and check the standard-scan descriptor.
    StartScan,
    /// Remaining step: flush stale input.
    Flush,
    /// Remaining step: send `SCAN` and check its descriptor.
    ScanRequest,
    /// Nothing left to do.
    Complete,
}

/// Checking a scan descriptor: 5-byte nodes of data type `0x81`, streamed.
pub open spec fn scan_ack(d: Seq<u8>) -> Result<(), ProtocolError> {
    descriptor_verdict(d, DATA_TYPE_MEASUREMENT, SCAN_NODE_LEN as u32, SendMode::Multi)
}

/// How sending `SCAN` and reading its descriptor ended, given the bytes
/// `sent` and received `g`, the errors `fails` the transport reported and the
/// timeouts `reads` handed to reads meanwhile.
pub open spec fn scan_request_ended(
    sent: Seq<u8>,
    g: Seq<u8>,
    fails: Seq<TransportError>,
    reads: Seq<Duration>,
    r: Result<Option<Duration>, LidarError>,
    ms: u64,
) -> bool {
    match r {
        Ok(Some(_)) => false,
        Ok(None) => sent == request_frame(Command::Scan) && g.len() == DESCRIPTOR_LEN && scan_ack(g)
            is Ok && fails.len() == 0 && reads.len() == 1,
        Err(LidarError::Protocol(p)) => sent == request_frame(Command::Scan) && g.len()
            == DESCRIPTOR_LEN && scan_ack(g) == Err::<(), ProtocolError>(p) && fails.len() == 0
            && reads.len() == 1,
        Err(e) => g.len() == 0 && ((sent.len() == 0 && reads.len() == 0 && lifted_from(
            fails,
            e,
            "request write",
            0,
        )) || (sent == request_frame(Command::Scan) && reads.len() == 1 && lifted_from(
            fails,
            e,
            "scan descriptor",
            ms,
        ))),
    }
}

/// One request step that pauses for `d` and moves on to `to`: the frame of
/// `c` sent, nothing read or flushed, no error reported; or the write
/// failed, nothing sent, and the operation is abandoned.
pub open spec fn request_step_ended(
    c: Command,
    d: Duration,
    to: Operation,
    sent: Seq<u8>,
    g: Seq<u8>,
    fails: Seq<TransportError>,
    reads: Seq<Duration>,
    flushed: int,
    next: Operation,
    r: Result<Option<Duration>, LidarError>,
) -> bool {
    &&& g.len() == 0 && reads.len() == 0 && flushed == 0
    &&& match r {
        Ok(Some(p)) => p == d && next == to && sent == request_frame(c) && fails.len() == 0,
        Ok(None) => false,
        Err(e) => next == Operation::Complete && sent.len() == 0 && lifted_from(
            fails,
            e,
            "request write",
            0,
        ),
    }
}

/// How one [`Lidar::advance`] step of `op` ended, given the configuration,
/// the bytes `sent` and received `g`, the errors `fails` the transport
/// reported, the timeouts `reads` handed to reads and the number of input
/// flushes `flushed` during the step, and the next state.
pub open spec fn advance_ended(
    op: Operation,
    config: LidarConfig,
    sent: Seq<u8>,
    g: Seq<u8>,
    fails: Seq<TransportError>,
    reads: Seq<Duration>,
    flushed: int,
    next: Operation,
    r: Result<Option<Duration>, LidarError>,
) -> bool {
    match op {
        Operation::Stop => request_step_ended(
            Command::Stop,
            config.stop_settle,
            Operation::Flush,
            sent,
            g,
            fails,
            reads,
            flushed,
            next,
            r,
        ),
        Operation::Reset => request_step_ended(
            Command::Reset,
            config.reset_settle,
            Operation::Flush,
            sent,
            g,
            fails,
            reads,
            flushed,
            next,
            r,
        ),
        Operation::SetMotorPwm(pwm) => request_step_ended(
            Command::SetMotorPwm(pwm),
            config.motor_settle,
            Operation::Complete,
            sent,
            g,
            fails,
            reads,
            flushed,
            next,
            r,
        ),
        Operation::Flush => sent.len() == 0 && g.len() == 0 && reads.len() == 0 && next
            == Operation::Complete && match r {
            Ok(Some(_)) => false,
            Ok(None) => flushed == 1 && fails.len() == 0,
            Err(e) => flushed == 0 && lifted_from(fails, e, "input flush", 0),
        },
        Operation::StartScan => if config.motor_pwm > 0 {
            &&& g.len() == 0 && reads.len() == 0
            &&& match r {
                Ok(Some(d)) => d == config.motor_settle && next == Operation::ScanRequest && sent
                    == request_frame(Command::SetMotorPwm(config.motor_pwm)) && flushed == 1
                    && fails.len() == 0,
                Ok(None) => false,
                Err(e) => next == Operation::Complete && sent.len() == 0 && ((flushed == 0
                    && lifted_from(fails, e, "input flush", 0)) || (flushed == 1 && lifted_from(
                    fails,
                    e,
                    "request write",
                    0,
                ))),
            }
        } else {
            next == Operation::Complete && ((flushed == 1 && scan_request_ended(
                sent,
                g,
                fails,
                reads,
                r,
                millis_u64(config.response_timeout),
            )) || (r matches Err(e) && flushed == 0 && sent.len() == 0 && g.len() == 0
                && reads.len() == 0 && lifted_from(fails, e, "input flush", 0)))
        },
        Operation::ScanRequest => next == Operation::Complete && flushed == 0 && scan_request_ended(
            sent,
            g,
            fails,
            reads,
            r,
            millis_u64(config.response_timeout),
        ),
        Operation::Complete => next == Operation::Complete && r == Ok::<
            Option<Duration>,
            LidarError,
        >(None) && sent.len() == 0 && g.len() == 0 && fails.len() == 0 && reads.len() == 0
            && flushed == 0,
    }
}

/// Every operation pauses at most once: a step that asks for a pause leaves
/// at most one step, and that step (a flush or the scan request) never
/// pauses and always completes the operation.
pub proof fn lemma_operation_pauses_at_most_once(
    op: Operation,
    config: LidarConfig,
    sent: Seq<u8>,
    g: Seq<u8>,
    fails: Seq<TransportError>,
    reads: Seq<Duration>,
    flushed: int,
    next: Operation,
    r: Result<Option<Duration>, LidarError>,
    sent2: Seq<u8>,
    g2: Seq<u8>,
    fails2: Seq<TransportError>,
    reads2: Seq<Duration>,
    flushed2: int,
    next2: Operation,
    r2: Result<Option<Duration>, LidarError>,
)
    requires
        advance_ended(op, config, sent, g, fails, reads, flushed, next, r),
        r matches Ok(Some(_)),
        advance_ended(next, config, sent2, g2, fails2, reads2, flushed2, next2, r2),
    ensures
        next == Operation::Flush || next == Operation::ScanRequest || next == Operation::Complete,
        !(r2 matches Ok(Some(_))),
        next2 == Operation::Complete,
{
}

/// Stopping sends `STOP`, pauses for [`LidarConfig::stop_settle`], then
/// flushes the input once: driven to completion, it sends exactly the `STOP`
/// frame, flushes once, reads nothing and meets no transport error.
/// Resetting is the same with `RESET` and [`LidarConfig::reset_settle`].
pub proof fn lemma_stop_and_reset_sequences(
    op: Operation,
    config: LidarConfig,
    sent: Seq<u8>,
    g: Seq<u8>,
    fails: Seq<TransportError>,
    reads: Seq<Duration>,
    flushed: int,
    next: Operation,
    r: Result<Option<Duration>, LidarError>,
    sent2: Seq<u8>,
    g2: Seq<u8>,
    fails2: Seq<TransportError>,
    reads2: Seq<Duration>,
    flushed2: int,
    next2: Operation,
    r2: Result<Option<Duration>, LidarError>,
)
    requires
        op == Operation::Stop || op == Operation::Reset,
        advance_ended(op, config, sent, g, fails, reads, flushed, next, r),
        r is Ok,
        advance_ended(next, config, sent2, g2, fails2, reads2, flushed2, next2, r2),
        r2 is Ok,
    ensures
        next == Operation::Flush,
        op == Operation::Stop ==> r == Ok::<Option<Duration>, LidarError>(Some(config.stop_settle))
            && sent + sent2 == request_frame(Command::Stop),
        op == Operation::Reset ==> r == Ok::<Option<Duration>, LidarError>(
            Some(config.reset_settle),
        ) && sent + sent2 == request_frame(Command::Reset),
        g + g2 == Seq::<u8>::empty(),
        fails + fails2 == Seq::<TransportError>::empty(),
        reads + reads2 == Seq::<Duration>::empty(),
        flushed == 0 && flushed2 == 1,
        r2 == Ok::<Option<Duration>, LidarError>(None),
        next2 == Operation::Complete,
{
    assert(sent + sent2 =~= sent);
    assert(g + g2 =~= Seq::<u8>::empty());
    assert(fails + fails2 =~= Seq::<TransportError>::empty());
    assert(reads + reads2 =~= Seq::<Duration>::empty());
}

/// Starting a scan with a non-zero [`LidarConfig::motor_pwm`] flushes the
/// input, sends `SET_MOTOR_PWM` with that duty, pauses for
/// [`LidarConfig::motor_settle`], then sends `SCAN`: driven to completion,
/// it flushes once, sends exactly those two frames, reads once and receives
/// exactly one scan descriptor that checks out.
pub proof fn lemma_start_scan_sequence(
    config: LidarConfig,
    sent: Seq<u8>,
    g: Seq<u8>,
    fails: Seq<TransportError>,
    reads: Seq<Duration>,
    flushed: int,
    next: Operation,
    r: Result<Option<Duration>, LidarError>,
    sent2: Seq<u8>,
    g2: Seq<u8>,
    fails2: Seq<TransportError>,
    reads2: Seq<Duration>,
    flushed2: int,
    next2: Operation,
    r2: Result<Option<Duration>, LidarError>,
)
    requires
        config.motor_pwm > 0,
        advance_ended(Operation::StartScan, config, sent, g, fails, reads, flushed, next, r),
        r is Ok,
        advance_ended(next, config, sent2, g2, fails2, reads2, flushed2, next2, r2),
        r2 is Ok,
    ensures
        r == Ok::<Option<Duration>, LidarError>(Some(config.motor_settle)),
        next == Operation::ScanRequest,
        sent + sent2 == request_frame(Command::SetMotorPwm(config.motor_pwm)) + request_frame(
            Command::Scan,
        ),
        g + g2 == g2,
        g2.len() == DESCRIPTOR_LEN,
        scan_ack(g2) is Ok,
        fails + fails2 == Seq::<TransportError>::empty(),
        reads.len() + reads2.len() == 1,
        flushed == 1 && flushed2 == 0,
        r2 == Ok::<Option<Duration>, LidarError>(None),
        next2 == Operation::Complete,
{
    assert(g + g2 =~= g2);
    assert(fails + fails2 =~= Seq::<TransportError>::empty());
}

/// Starting a scan with a zero [`LidarConfig::motor_pwm`] skips the motor
/// command: one step flushes the input once, sends exactly the `SCAN` frame,
/// reads once and receives exactly one scan descriptor that checks out.
pub proof fn lemma_start_scan_without_motor(
    config: LidarConfig,
    sent: Seq<u8>,
    g: Seq<u8>,
    fails: Seq<TransportError>,
    reads: Seq<Duration>,
    flushed: int,
    next: Operation,
    r: Result<Option<Duration>, LidarError>,
)
    requires
        config.motor_pwm == 0,
        advance_ended(Operation::StartScan, config, sent, g, fails, reads, flushed, next, r),
        r is Ok,
    ensures
        r == Ok::<Option<Duration>, LidarError>(None),
        next == Operation::Complete,
        sent == request_frame(Command::Scan),
        g.len() == DESCRIPTOR_LEN,
        scan_ack(g) is Ok,
        fails.len() == 0,
        reads.len() == 1,
        flushed == 1,
{
}

/// A successful request step sends the frame of the command it was given,
/// byte for byte, whatever the configuration: `STOP` is `A5 25`, `RESET`
/// is `A5 40`, and `SET_MOTOR_PWM(p)` is `A5 F0 02`, the requested duty
/// (clamped to 1023) in little-endian order, and the XOR of the five bytes
/// before it. In particular a requested duty of `0` sends a zero duty.
pub proof fn lemma_request_steps_send_the_requested_frame(
    op: Operation,
    config: LidarConfig,
    sent: Seq<u8>,
    g: Seq<u8>,
    fails: Seq<TransportError>,
    reads: Seq<Duration>,
    flushed: int,
    next: Operation,
    r: Result<Option<Duration>, LidarError>,
)
    requires
        advance_ended(op, config, sent, g, fails, reads, flushed, next, r),
        r is Ok,
    ensures
        op == Operation::Stop ==> sent == seq![0xA5u8, 0x25u8],
        op == Operation::Reset ==> sent == seq![0xA5u8, 0x40u8],
        op matches Operation::SetMotorPwm(p) ==> {
            &&& sent.len() == 6
            &&& sent[0] == 0xA5 && sent[1] == 0xF0 && sent[2] == 2
            &&& sent[3] + 256 * sent[4] == if p > 1023 {
                1023
            } else {
                p
            }
            &&& sent[5] == 0xA5u8 ^ 0xF0u8 ^ 2u8 ^ sent[3] ^ sent[4]
        },
{
    if let Operation::SetMotorPwm(p) = op {
        lemma_pwm_frame_clamps(p);
        let h = pwm_frame_head(p);
        reveal_with_fuel(xor_all, 6);
        assert(h.drop_last().drop_last().drop_last().drop_last().drop_last() =~= Seq::<u8>::empty());
        assert(h.drop_last().drop_last().drop_last().drop_last() =~= seq![0xA5u8]);
        assert(h.drop_last().drop_last().drop_last() =~= seq![0xA5u8, 0xF0u8]);
        assert(h.drop_last().drop_last() =~= seq![0xA5u8, 0xF0u8, 2u8]);
        assert(h.drop_last() =~= seq![0xA5u8, 0xF0u8, 2u8, h[3]]);
        let a = h[3];
        let b = h[4];
        assert((((0u8 ^ 0xA5u8) ^ 0xF0u8) ^ 2u8) ^ a ^ b == 0xA5u8 ^ 0xF0u8 ^ 2u8 ^ a ^ b)
            by (bit_vector);
    }
}

/// The five bytes of `g` starting at offset `i`.
pub open spec fn window(g: Seq<u8>, i: int) -> Seq<u8> {
    g.subrange(i, i + SCAN_NODE_LEN as int)
}

/// No window of `g` starting before offset `k` passes the node checks.
pub open spec fn no_node_before(g: Seq<u8>, k: int) -> bool {
    forall|i: int| 0 <= i < k ==> !node_checks(#[trigger] window(g, i))
}

/// No five-byte window of `g` passes the node checks, and `g` is shorter
/// than a resynchronization may run: a read that stopped after taking `g`
/// skipped no node.
pub open spec fn no_node_in(g: Seq<u8>) -> bool {
    &&& g.len() < MAX_DESYNC_DISCARD + SCAN_NODE_LEN
    &&& no_node_before(g, g.len() - SCAN_NODE_LEN + 1)
}

/// What a failed read of a scan node is called, given the bytes `g` the
/// search had taken before it: `"scan node"` for the first read of a node,
/// `"scan node resync"` for a read while sliding past bad bytes.
pub open spec fn node_read_label(g: Seq<u8>) -> &'static str {
    if g.len() == 0 {
        "scan node"
    } else {
        "scan node resync"
    }
}

/// The node carried by the last five bytes of `g`.
pub open spec fn resync_node(g: Seq<u8>) -> ScanNode {
    decoded_node(window(g, g.len() - SCAN_NODE_LEN))
}

/// `g` is what resynchronizing took to find a node: at most
/// [`MAX_DESYNC_DISCARD`] discarded bytes, at none of which a window passes
/// the node checks, then five bytes that do.
pub open spec fn resynced(g: Seq<u8>) -> bool {
    &&& g.len() >= SCAN_NODE_LEN
    &&& g.len() - SCAN_NODE_LEN <= MAX_DESYNC_DISCARD
    &&& no_node_before(g, g.len() - SCAN_NODE_LEN)
    &&& node_checks(window(g, g.len() - SCAN_NODE_LEN))
}

/// Resynchronizing gave up: `g` is [`MAX_DESYNC_DISCARD`] discarded bytes and
/// a last window, and no window of it passes the node checks.
pub open spec fn desynced(g: Seq<u8>) -> bool {
    &&& g.len() == MAX_DESYNC_DISCARD + SCAN_NODE_LEN
    &&& no_node_before(g, MAX_DESYNC_DISCARD + 1)
}

/// The decimal digits of `n`, most significant first, without leading
/// zeros (`0` is `"0"`).
pub open spec fn decimal(n: nat) -> Seq<char>
    decreases n,
{
    if n < 10 {
        seq![(48 + n) as char]
    } else {
        decimal(n / 10).push((48 + n % 10) as char)
    }
}

/// The text of a desynchronization error after `discarded` bytes were
/// dropped.
pub open spec fn desync_message(discarded: nat) -> Seq<char> {
    "no valid scan node found after discarding "@ + decimal(discarded)
        + " bytes; is another program reading the port?"@
}

/// Appends the decimal digits of `n` to `s`.
fn push_decimal(s: &mut String, n: usize)
    ensures
        final(s)@ == old(s)@ + decimal(n as nat),
    decreases n,
{
    if n >= 10 {
        push_decimal(s, n / 10);
    }
    let digit = (n % 10) as u8;
    push_char(s, (48 + digit) as char);
    proof {
        if n >= 10 {
            assert(decimal(n as nat) =~= decimal((n / 10) as nat).push((48 + n % 10) as char));
        }
    }
    assert(s@ =~= old(s)@ + decimal(n as nat));
}

/// The desynchronization message for `discarded` dropped bytes.
fn desync_text(discarded: usize) -> (s: String)
    ensures
        s@ == desync_message(discarded as nat),
{
    let mut s = String::from_str("no valid scan node found after discarding ");
    push_decimal(&mut s, discarded);
    s.append(" bytes; is another program reading the port?");
    s
}

/// Resynchronization stops at the first window that passes the node checks:
/// two resynchronizations over the same byte stream take the same bytes and
/// find the same node.
pub proof fn lemma_resync_first_window(s: Seq<u8>, g1: Seq<u8>, g2: Seq<u8>)
    requires
        g1.is_prefix_of(s),
        g2.is_prefix_of(s),
        resynced(g1),
        resynced(g2),
    ensures
        g1 == g2,
        resync_node(g1) == resync_node(g2),
{
    let k1 = g1.len() - SCAN_NODE_LEN;
    let k2 = g2.len() - SCAN_NODE_LEN;
    if k1 < k2 {
        assert(window(g2, k1) =~= window(g1, k1));
        assert(!node_checks(window(g2, k1)));
    } else if k2 < k1 {
        assert(window(g1, k2) =~= window(g2, k2));
        assert(!node_checks(window(g1, k2)));
    }
    assert(g1 =~= g2);
}

/// Garbage costs no node: when no window starting inside `garbage` passes
/// the node checks, resynchronizing over `garbage`, a valid node and any
/// following bytes takes exactly the garbage and the node, and finds that
/// node.
pub proof fn lemma_resync_skips_garbage(garbage: Seq<u8>, node: Seq<u8>, rest: Seq<u8>, g: Seq<u8>)
    requires
        node.len() == SCAN_NODE_LEN,
        node_checks(node),
        garbage.len() <= MAX_DESYNC_DISCARD,
        no_node_before(garbage + node, garbage.len() as int),
        g.is_prefix_of(garbage + node + rest),
        resynced(g),
    ensures
        g == garbage + node,
        resync_node(g) == decoded_node(node),
{
    let whole = garbage + node;
    assert(window(whole, garbage.len() as int) =~= node);
    assert(whole.is_prefix_of(garbage + node + rest)) by {
        assert((garbage + node + rest).take(whole.len() as int) =~= whole);
    }
    lemma_resync_first_window(garbage + node + rest, g, whole);
}

/// What one [`Lidar::read_scan`] call produced.
#[derive(Debug)]
pub enum ScanProgress {
    /// A rotation completed: every node from one start flag up to the next.
    Rotation(Vec<ScanNode>),
    /// A node was read and the rotation is still open (or not yet begun).
    Measured,
    /// The byte source ended, or the stream was already over; an open
    /// rotation is dropped rather than handed out incomplete.
    Ended,
    /// Reading failed; the stream is over.
    Failed(LidarError),
}

/// How one [`Lidar::read_scan`] call on a stream that was not over ended,
/// given the assembler `before` and `after`, the bytes `g` taken, the errors
/// `fails` the transport reported, the timeouts `reads` handed to reads, and
/// the timeout `t` that applied. Every read was handed `t`, and there was at
/// least one.
pub open spec fn scan_read_ended(
    before: ScanAssembler,
    after: ScanAssembler,
    g: Seq<u8>,
    fails: Seq<TransportError>,
    reads: Seq<Duration>,
    t: Duration,
    r: ScanProgress,
) -> bool {
    let ms = millis_u64(t);
    let node = resync_node(g);
    let (open2, primed2, out) = assembly_step(before.open_rotation(), before.is_primed(), node);
    let unchanged = after.open_rotation() == before.open_rotation() && after.is_primed()
        == before.is_primed() && after.nodes_seen() == before.nodes_seen() && after.rotations_out()
        == before.rotations_out();
    &&& reads.len() >= 1 && all_reads_with(reads, t)
    &&& match r {
        ScanProgress::Rotation(rot) => {
            &&& resynced(g) && fails.len() == 0
            &&& out == Some(rot@)
            &&& after.open_rotation() == open2 && after.is_primed() == primed2
            &&& after.nodes_seen() == before.nodes_seen().push(node)
            &&& after.rotations_out() == before.rotations_out().push(rot@)
            &&& after.has_started() && !after.is_done()
        },
        ScanProgress::Measured => {
            &&& resynced(g) && fails.len() == 0
            &&& out is None
            &&& after.open_rotation() == open2 && after.is_primed() == primed2
            &&& after.nodes_seen() == before.nodes_seen().push(node)
            &&& after.rotations_out() == before.rotations_out()
            &&& after.has_started() && !after.is_done()
        },
        ScanProgress::Ended => {
            &&& after.is_done() && unchanged
            &&& no_node_in(g)
            &&& fails == seq![TransportError::Eof]
        },
        ScanProgress::Failed(e) => {
            &&& after.is_done() && unchanged
            &&& {
                ||| (desynced(g) && fails.len() == 0 && (e matches LidarError::Desync(msg) && msg@
                    == desync_message(MAX_DESYNC_DISCARD as nat)))
                ||| (no_node_in(g) && fails.len() == 1 && !(fails[0] is Eof) && e == lifted(
                    fails[0],
                    node_read_label(g),
                    ms,
                ))
            }
        },
    }
}

/// A sequence `x` that is a prefix of `y`, itself a prefix of `z`: `x` is a
/// prefix of `z`, and what `z` adds to `x` is what `y` adds followed by
/// what `z` adds to `y`.
proof fn lemma_prefix_chain<A>(x: Seq<A>, y: Seq<A>, z: Seq<A>)
    requires
        x.is_prefix_of(y),
        y.is_prefix_of(z),
    ensures
        x.is_prefix_of(z),
        z.skip(x.len() as int) == y.skip(x.len() as int) + z.skip(y.len() as int),
{
    assert(z.take(x.len() as int) =~= y.take(x.len() as int));
    assert(z.skip(x.len() as int) =~= y.skip(x.len() as int) + z.skip(y.len() as int));
}

/// The records of a lidar across two consecutive stretches of work: they
/// grew over the whole, and what the whole added is what the first
/// stretch added followed by what the second did.
proof fn lemma_records_compose<T: Transport>(a: Lidar<T>, b: Lidar<T>, c: Lidar<T>)
    requires
        advanced(a, b),
        advanced(b, c),
    ensures
        advanced(a, c),
        taken(a, c) == taken(a, b) + taken(b, c),
        failures_since(a, c) == failures_since(a, b) + failures_since(b, c),
        timeouts_since(a, c) == timeouts_since(a, b) + timeouts_since(b, c),
        flushes_since(a, c) == flushes_since(a, b) + flushes_since(b, c),
{
    lemma_prefix_chain(a.received_bytes(), b.received_bytes(), c.received_bytes());
    lemma_prefix_chain(a.transport_failures(), b.transport_failures(), c.transport_failures());
    lemma_prefix_chain(a.read_timeouts(), b.read_timeouts(), c.read_timeouts());
}

/// The records of a lidar that did no transport work between two states
/// grew by nothing.
proof fn lemma_records_still<T: Transport>(a: Lidar<T>, b: Lidar<T>)
    requires
        b.received_bytes() == a.received_bytes(),
        b.transport_failures() == a.transport_failures(),
        b.read_timeouts() == a.read_timeouts(),
        b.flush_count() == a.flush_count(),
    ensures
        advanced(a, b),
        taken(a, b) == Seq::<u8>::empty(),
        failures_since(a, b) == Seq::<TransportError>::empty(),
        timeouts_since(a, b) == Seq::<Duration>::empty(),
        flushes_since(a, b) == 0,
{
    assert(taken(a, b) =~= Seq::<u8>::empty());
    assert(failures_since(a, b) =~= Seq::<TransportError>::empty());
    assert(timeouts_since(a, b) =~= Seq::<Duration>::empty());
    assert(a.received_bytes().take(a.received_bytes().len() as int) =~= a.received_bytes());
    assert(a.transport_failures().take(a.transport_failures().len() as int)
        =~= a.transport_failures());
    assert(a.read_timeouts().take(a.read_timeouts().len() as int) =~= a.read_timeouts());
}

/// Payload lengths are small protocol constants.
fn payload_len_u32(len: usize) -> (n: u32)
    requires
        len <= u32::MAX,
    ensures
        n == len,
{
    len as u32
}

impl<T: Transport> Lidar<T> {
    /// The transport this lidar drives.
    pub closed spec fn port(&self) -> T {
        self.transport
    }

    /// The parameters this lidar runs with.
    pub closed spec fn settings(&self) -> LidarConfig {
        self.config
    }

    /// Every byte this lidar wrote through its transport (whole request
    /// frames whose write succeeded), in order.
    pub closed spec fn sent_bytes(&self) -> Seq<u8> {
        self.sent@
    }

    /// Every byte this lidar's reads received, in order.
    pub closed spec fn received_bytes(&self) -> Seq<u8> {
        self.received@
    }

    /// Every error the transport reported to this lidar (on writes, reads
    /// and flushes), in order.
    pub closed spec fn transport_failures(&self) -> Seq<TransportError> {
        self.failures@
    }

    /// How many input flushes the transport reported done.
    pub closed spec fn flush_count(&self) -> nat {
        self.flushes@
    }

    /// The timeout handed to each read of the transport, in order.
    pub closed spec fn read_timeouts(&self) -> Seq<Duration> {
        self.timeouts@
    }

    /// Wraps an existing transport with the default configuration. No bytes
    /// are sent.
    pub fn with_transport(transport: T) -> (l: Self)
        ensures
            l.port() == transport,
            is_default_config(l.settings()),
            l.sent_bytes() == Seq::<u8>::empty(),
            l.received_bytes() == Seq::<u8>::empty(),
            l.transport_failures() == Seq::<TransportError>::empty(),
            l.flush_count() == 0,
            l.read_timeouts() == Seq::<Duration>::empty(),
    {
        Self::with_transport_and_config(transport, LidarConfig::default())
    }

    /// Wraps an existing transport with an explicit configuration. No bytes
    /// are sent.
    pub fn with_transport_and_config(transport: T, config: LidarConfig) -> (l: Self)
        ensures
            l.port() == transport,
            l.settings() == config,
            l.sent_bytes() == Seq::<u8>::empty(),
            l.received_bytes() == Seq::<u8>::empty(),
            l.transport_failures() == Seq::<TransportError>::empty(),
            l.flush_count() == 0,
            l.read_timeouts() == Seq::<Duration>::empty(),
    {
        Lidar {
            transport,
            config,
            sent: Ghost(Seq::empty()),
            received: Ghost(Seq::empty()),
            failures: Ghost(Seq::empty()),
            flushes: Ghost(0),
            timeouts: Ghost(Seq::empty()),
        }
    }

    /// The active configuration.
    pub fn config(&self) -> (c: &LidarConfig)
        ensures
            *c == self.settings(),
    {
        &self.config
    }

    /// Consumes the `Lidar` and returns the underlying transport.
    pub fn into_transport(self) -> (t: T)
        ensures
            t == self.port(),
    {
        self.transport
    }

    /// Writes `bytes` through the transport; a write that succeeds is added
    /// to [`Lidar::sent_bytes`], and the error of one that fails to
    /// [`Lidar::transport_failures`]. The only place bytes are written.
    fn transmit(&mut self, bytes: &[u8]) -> (r: Result<(), TransportError>)
        ensures
            final(self).settings() == old(self).settings(),
            advanced(*old(self), *final(self)),
            taken(*old(self), *final(self)) == Seq::<u8>::empty(),
            timeouts_since(*old(self), *final(self)) == Seq::<Duration>::empty(),
            flushes_since(*old(self), *final(self)) == 0,
            r is Ok ==> final(self).sent_bytes() == old(self).sent_bytes() + bytes@
                && failures_since(*old(self), *final(self)) == Seq::<TransportError>::empty(),
            r matches Err(e) ==> final(self).sent_bytes() == old(self).sent_bytes()
                && failures_since(*old(self), *final(self)) == seq![e],
    {
        let ghost start = *self;
        let r = self.transport.write_all(bytes);
        match &r {
            Ok(()) => {
                proof {
                    self.sent@ = self.sent@ + bytes@;
                    lemma_records_still(start, *self);
                }
            },
            Err(e) => {
                proof {
                    self.failures@ = self.failures@.push(*e);
                    assert(failures_since(start, *self) =~= seq![*e]);
                    assert(self.failures@.take(start.failures@.len() as int) =~= start.failures@);
                    assert(self.received@.take(start.received@.len() as int) =~= start.received@);
                    assert(self.timeouts@.take(start.timeouts@.len() as int) =~= start.timeouts@);
                    assert(taken(start, *self) =~= Seq::<u8>::empty());
                    assert(timeouts_since(start, *self) =~= Seq::<Duration>::empty());
                }
            },
        }
        r
    }

    /// Fills `buf` through the transport within `timeout`; the timeout is
    /// added to [`Lidar::read_timeouts`], a read that succeeds to
    /// [`Lidar::received_bytes`], and the error of one that fails to
    /// [`Lidar::transport_failures`]. The only place bytes are read.
    fn receive(&mut self, buf: &mut [u8], timeout: Duration) -> (r: Result<(), TransportError>)
        ensures
            final(buf)@.len() == old(buf)@.len(),
            final(self).settings() == old(self).settings(),
            final(self).sent_bytes() == old(self).sent_bytes(),
            advanced(*old(self), *final(self)),
            timeouts_since(*old(self), *final(self)) == seq![timeout],
            flushes_since(*old(self), *final(self)) == 0,
            r is Ok ==> taken(*old(self), *final(self)) == final(buf)@ && failures_since(
                *old(self),
                *final(self),
            ) == Seq::<TransportError>::empty(),
            r matches Err(e) ==> taken(*old(self), *final(self)) == Seq::<u8>::empty()
                && failures_since(*old(self), *final(self)) == seq![e],
    {
        let ghost start = *self;
        let r = self.transport.read_exact(buf, timeout);
        proof {
            self.timeouts@ = self.timeouts@.push(timeout);
            assert(timeouts_since(start, *self) =~= seq![timeout]);
            assert(self.timeouts@.take(start.timeouts@.len() as int) =~= start.timeouts@);
        }
        match &r {
            Ok(()) => {
                proof {
                    self.received@ = self.received@ + buf@;
                    assert(taken(start, *self) =~= buf@);
                    assert(self.received@.take(start.received@.len() as int) =~= start.received@);
                    assert(self.failures@.take(start.failures@.len() as int) =~= start.failures@);
                    assert(failures_since(start, *self) =~= Seq::<TransportError>::empty());
                }
            },
            Err(e) => {
                proof {
                    self.failures@ = self.failures@.push(*e);
                    assert(failures_since(start, *self) =~= seq![*e]);
                    assert(self.failures@.take(start.failures@.len() as int) =~= start.failures@);
                    assert(self.received@.take(start.received@.len() as int) =~= start.received@);
                    assert(taken(start, *self) =~= Seq::<u8>::empty());
                }
            },
        }
        r
    }

    /// Sends the framed request for `command`.
    pub fn request(&mut self, command: Command) -> (r: Result<(), LidarError>)
        ensures
            final(self).settings() == old(self).settings(),
            advanced(*old(self), *final(self)),
            taken(*old(self), *final(self)) == Seq::<u8>::empty(),
            timeouts_since(*old(self), *final(self)) == Seq::<Duration>::empty(),
            flushes_since(*old(self), *final(self)) == 0,
            old(self).sent_bytes().is_prefix_of(final(self).sent_bytes()),
            r is Ok ==> sent_since(*old(self), *final(self)) == request_frame(command)
                && failures_since(*old(self), *final(self)) == Seq::<TransportError>::empty(),
            r matches Err(e) ==> sent_since(*old(self), *final(self)) == Seq::<u8>::empty()
                && lifted_from(failures_since(*old(self), *final(self)), e, "request write", 0),
    {
        let mut buf = [0u8; MAX_REQUEST_LEN];
        let len = command.encode(&mut buf);
        let frame = &buf[0..len];
        assert(frame@ =~= request_frame(command));
        match self.transmit(frame) {
            Ok(()) => {
                proof {
                    assert(self.sent@.take(old(self).sent@.len() as int) =~= old(self).sent@);
                    assert(sent_since(*old(self), *self) =~= request_frame(command));
                }
                Ok(())
            },
            Err(e) => {
                let r = lift(e, "request write", Duration::from_millis(0));
                proof {
                    assert(r == lifted(e, "request write", 0));
                    assert(self.sent@.take(old(self).sent@.len() as int) =~= old(self).sent@);
                    assert(sent_since(*old(self), *self) =~= Seq::<u8>::empty());
                }
                Err(r)
            },
        }
    }

    /// Discards any input received but not yet read.
    pub fn discard_input(&mut self) -> (r: Result<(), LidarError>)
        ensures
            final(self).settings() == old(self).settings(),
            final(self).sent_bytes() == old(self).sent_bytes(),
            advanced(*old(self), *final(self)),
            taken(*old(self), *final(self)) == Seq::<u8>::empty(),
            timeouts_since(*old(self), *final(self)) == Seq::<Duration>::empty(),
            r is Ok ==> flushes_since(*old(self), *final(self)) == 1 && failures_since(
                *old(self),
                *final(self),
            ) == Seq::<TransportError>::empty(),
            r matches Err(e) ==> flushes_since(*old(self), *final(self)) == 0 && lifted_from(
                failures_since(*old(self), *final(self)),
                e,
                "input flush",
                0,
            ),
    {
        let ghost start = *self;
        match self.transport.discard_input() {
            Ok(()) => {
                proof {
                    self.flushes@ = self.flushes@ + 1;
                    assert(taken(start, *self) =~= Seq::<u8>::empty());
                    assert(timeouts_since(start, *self) =~= Seq::<Duration>::empty());
                    assert(failures_since(start, *self) =~= Seq::<TransportError>::empty());
                    assert(self.received@.take(start.received@.len() as int) =~= start.received@);
                    assert(self.failures@.take(start.failures@.len() as int) =~= start.failures@);
                    assert(self.timeouts@.take(start.timeouts@.len() as int) =~= start.timeouts@);
                }
                Ok(())
            },
            Err(e) => {
                proof {
                    self.failures@ = self.failures@.push(e);
                    assert(failures_since(start, *self) =~= seq![e]);
                    assert(taken(start, *self) =~= Seq::<u8>::empty());
                    assert(timeouts_since(start, *self) =~= Seq::<Duration>::empty());
                    assert(self.received@.take(start.received@.len() as int) =~= start.received@);
                    assert(self.failures@.take(start.failures@.len() as int) =~= start.failures@);
                    assert(self.timeouts@.take(start.timeouts@.len() as int) =~= start.timeouts@);
                }
                let r = lift(e, "input flush", Duration::from_millis(0));
                proof {
                    assert(r == lifted(e, "input flush", 0));
                }
                Err(r)
            },
        }
    }

    /// Fills `buf` within the response timeout; a failed read is named `what`.
    fn read_into(&mut self, buf: &mut [u8], what: &'static str) -> (r: Result<(), LidarError>)
        ensures
            final(buf)@.len() == old(buf)@.len(),
            final(self).settings() == old(self).settings(),
            final(self).sent_bytes() == old(self).sent_bytes(),
            advanced(*old(self), *final(self)),
            timeouts_since(*old(self), *final(self)) == seq![old(self).settings().response_timeout],
            flushes_since(*old(self), *final(self)) == 0,
            r is Ok ==> taken(*old(self), *final(self)) == final(buf)@ && failures_since(
                *old(self),
                *final(self),
            ) == Seq::<TransportError>::empty(),
            r matches Err(e) ==> taken(*old(self), *final(self)) == Seq::<u8>::empty()
                && lifted_from(
                failures_since(*old(self), *final(self)),
                e,
                what,
                millis_u64(old(self).settings().response_timeout),
            ),
    {
        let timeout = self.config.response_timeout;
        match self.receive(buf, timeout) {
            Ok(()) => Ok(()),
            Err(e) => Err(lift(e, what, timeout)),
        }
    }

    /// Reads and parses a 7-byte response descriptor.
    fn read_descriptor(&mut self, what: &'static str) -> (r: Result<ResponseDescriptor, LidarError>)
        ensures
            final(self).settings() == old(self).settings(),
            final(self).sent_bytes() == old(self).sent_bytes(),
            advanced(*old(self), *final(self)),
            timeouts_since(*old(self), *final(self)) == seq![old(self).settings().response_timeout],
            flushes_since(*old(self), *final(self)) == 0,
            match r {
                Ok(d) => taken(*old(self), *final(self)).len() == DESCRIPTOR_LEN
                    && descriptor_parsed(taken(*old(self), *final(self))) == Ok::<
                    ResponseDescriptor,
                    ProtocolError,
                >(d) && failures_since(*old(self), *final(self)).len() == 0,
                Err(LidarError::Protocol(p)) => taken(*old(self), *final(self)).len()
                    == DESCRIPTOR_LEN && descriptor_parsed(
                    taken(*old(self), *final(self)),
                ) == Err::<ResponseDescriptor, ProtocolError>(p) && failures_since(
                    *old(self),
                    *final(self),
                ).len() == 0,
                Err(e) => taken(*old(self), *final(self)).len() == 0 && lifted_from(
                    failures_since(*old(self), *final(self)),
                    e,
                    what,
                    millis_u64(old(self).settings().response_timeout),
                ),
            },
    {
        let mut bytes = [0u8; DESCRIPTOR_LEN];
        let read = self.read_into(&mut bytes, what);
        match read {
            Ok(()) => {},
            Err(e) => {
                return Err(e);
            },
        }
        match descriptor::parse_descriptor(&bytes) {
            Ok(d) => Ok(d),
            Err(p) => Err(LidarError::Protocol(p)),
        }
    }

    /// Reads a descriptor and checks it against a single response of
    /// `data_type` carrying `len` payload bytes.
    fn expect_descriptor(&mut self, what: &'static str, data_type: u8, len: u32) -> (r: Result<
        (),
        LidarError,
    >)
        ensures
            final(self).settings() == old(self).settings(),
            final(self).sent_bytes() == old(self).sent_bytes(),
            advanced(*old(self), *final(self)),
            timeouts_since(*old(self), *final(self)) == seq![old(self).settings().response_timeout],
            flushes_since(*old(self), *final(self)) == 0,
            match r {
                Ok(()) => taken(*old(self), *final(self)).len() == DESCRIPTOR_LEN
                    && descriptor_verdict(
                    taken(*old(self), *final(self)),
                    data_type,
                    len,
                    SendMode::Single,
                ) is Ok && failures_since(*old(self), *final(self)).len() == 0,
                Err(LidarError::Protocol(p)) => taken(*old(self), *final(self)).len()
                    == DESCRIPTOR_LEN && descriptor_verdict(
                    taken(*old(self), *final(self)),
                    data_type,
                    len,
                    SendMode::Single,
                ) == Err::<(), ProtocolError>(p) && failures_since(*old(self), *final(self)).len()
                    == 0,
                Err(e) => taken(*old(self), *final(self)).len() == 0 && lifted_from(
                    failures_since(*old(self), *final(self)),
                    e,
                    what,
                    millis_u64(old(self).settings().response_timeout),
                ),
            },
    {
        let descriptor = match self.read_descriptor(what) {
            Ok(d) => d,
            Err(e) => {
                return Err(e);
            },
        };
        match descriptor.expect(data_type, len, SendMode::Single) {
            Ok(()) => Ok(()),
            Err(p) => Err(LidarError::Protocol(p)),
        }
    }

    /// Requests the device model, firmware and hardware versions and serial
    /// number.
    ///
    /// Sends `GET_INFO`, expects a single 20-byte response of data type
    /// `0x04`, and decodes its payload. Fails with a [`LidarError::Timeout`]
    /// naming the descriptor or the payload when the device does not answer,
    /// or with [`LidarError::Protocol`] when the descriptor does not match.
    pub fn info(&mut self) -> (r: Result<DeviceInfo, LidarError>)
        ensures
            final(self).settings() == old(self).settings(),
            advanced(*old(self), *final(self)),
            old(self).sent_bytes().is_prefix_of(final(self).sent_bytes()),
            flushes_since(*old(self), *final(self)) == 0,
            all_reads_with(
                timeouts_since(*old(self), *final(self)),
                old(self).settings().response_timeout,
            ),
            match r {
                Ok(info) => {
                    let g = taken(*old(self), *final(self));
                    &&& sent_since(*old(self), *final(self)) == request_frame(Command::GetInfo)
                    &&& answered(g, DATA_TYPE_DEVINFO, DEVINFO_LEN as u32)
                    &&& device_info_decodes(g.skip(DESCRIPTOR_LEN as int), info)
                    &&& failures_since(*old(self), *final(self)).len() == 0
                    &&& timeouts_since(*old(self), *final(self)).len() == 2
                },
                Err(e) => exchange_failed(
                    sent_since(*old(self), *final(self)),
                    taken(*old(self), *final(self)),
                    failures_since(*old(self), *final(self)),
                    timeouts_since(*old(self), *final(self)),
                    e,
                    request_frame(Command::GetInfo),
                    DATA_TYPE_DEVINFO,
                    DEVINFO_LEN as u32,
                    "device info descriptor",
                    "device info payload",
                    millis_u64(old(self).settings().response_timeout),
                ),
            },
    {
        let ghost start = *self;
        match self.request(Command::GetInfo) {
            Ok(()) => {},
            Err(e) => {
                return Err(e);
            },
        }
        let ghost mid = *self;
        let expected = self.expect_descriptor(
            "device info descriptor",
            DATA_TYPE_DEVINFO,
            payload_len_u32(DEVINFO_LEN),
        );
        proof {
            lemma_records_compose(start, mid, *self);
            assert(sent_since(start, *self) == sent_since(start, mid));
        }
        match expected {
            Ok(()) => {},
            Err(e) => {
                return Err(e);
            },
        }
        let ghost desc_done = *self;
        let mut payload = [0u8; DEVINFO_LEN];
        let read = self.read_into(&mut payload, "device info payload");
        proof {
            lemma_records_compose(start, desc_done, *self);
            let g = taken(start, *self);
            assert(g.take(DESCRIPTOR_LEN as int) =~= taken(start, desc_done));
        }
        match read {
            Ok(()) => {},
            Err(e) => {
                return Err(e);
            },
        }
        proof {
            let g = taken(start, *self);
            assert(g.skip(DESCRIPTOR_LEN as int) =~= payload@);
        }
        Ok(info::parse_device_info(&payload))
    }

    /// Requests the device self-test health status.
    ///
    /// Sends `GET_HEALTH`, expects a single 3-byte response of data type
    /// `0x06`, and decodes its payload. A device reporting
    /// [`HealthStatus::Error`] is a successful query: the status is returned
    /// as a value. An unknown status byte fails with
    /// [`ProtocolError::InvalidHealthStatus`].
    pub fn health(&mut self) -> (r: Result<HealthStatus, LidarError>)
        ensures
            final(self).settings() == old(self).settings(),
            advanced(*old(self), *final(self)),
            old(self).sent_bytes().is_prefix_of(final(self).sent_bytes()),
            flushes_since(*old(self), *final(self)) == 0,
            all_reads_with(
                timeouts_since(*old(self), *final(self)),
                old(self).settings().response_timeout,
            ),
            match r {
                Ok(status) => {
                    let g = taken(*old(self), *final(self));
                    &&& sent_since(*old(self), *final(self)) == request_frame(Command::GetHealth)
                    &&& answered(g, DATA_TYPE_DEVHEALTH, DEVHEALTH_LEN as u32)
                    &&& health_outcome(g.skip(DESCRIPTOR_LEN as int)) == Ok::<
                        HealthStatus,
                        ProtocolError,
                    >(status)
                    &&& failures_since(*old(self), *final(self)).len() == 0
                    &&& timeouts_since(*old(self), *final(self)).len() == 2
                },
                Err(e) => {
                    let sent = sent_since(*old(self), *final(self));
                    let g = taken(*old(self), *final(self));
                    let fails = failures_since(*old(self), *final(self));
                    let reads = timeouts_since(*old(self), *final(self));
                    ||| exchange_failed(
                        sent,
                        g,
                        fails,
                        reads,
                        e,
                        request_frame(Command::GetHealth),
                        DATA_TYPE_DEVHEALTH,
                        DEVHEALTH_LEN as u32,
                        "device health descriptor",
                        "device health payload",
                        millis_u64(old(self).settings().response_timeout),
                    )
                    ||| (sent == request_frame(Command::GetHealth) && answered(
                        g,
                        DATA_TYPE_DEVHEALTH,
                        DEVHEALTH_LEN as u32,
                    ) && fails.len() == 0 && reads.len() == 2 && (e matches LidarError::Protocol(
                        p,
                    ) && health_outcome(g.skip(DESCRIPTOR_LEN as int)) == Err::<
                        HealthStatus,
                        ProtocolError,
                    >(p)))
                },
            },
    {
        let ghost start = *self;
        match self.request(Command::GetHealth) {
            Ok(()) => {},
            Err(e) => {
                return Err(e);
            },
        }
        let ghost mid = *self;
        let expected = self.expect_descriptor(
            "device health descriptor",
            DATA_TYPE_DEVHEALTH,
            payload_len_u32(DEVHEALTH_LEN),
        );
        proof {
            lemma_records_compose(start, mid, *self);
            assert(sent_since(start, *self) == sent_since(start, mid));
        }
        match expected {
            Ok(()) => {},
            Err(e) => {
                return Err(e);
            },
        }
        let ghost desc_done = *self;
        let mut payload = [0u8; DEVHEALTH_LEN];
        let read = self.read_into(&mut payload, "device health payload");
        proof {
            lemma_records_compose(start, desc_done, *self);
            let g = taken(start, *self);
            assert(g.take(DESCRIPTOR_LEN as int) =~= taken(start, desc_done));
        }
        match read {
            Ok(()) => {},
            Err(e) => {
                return Err(e);
            },
        }
        proof {
            let g = taken(start, *self);
            assert(g.skip(DESCRIPTOR_LEN as int) =~= payload@);
        }
        match info::parse_health(&payload) {
            Ok(status) => Ok(status),
            Err(p) => Err(LidarError::Protocol(p)),
        }
    }

    /// Sends `SCAN` and checks that the descriptor announces a stream of
    /// 5-byte measurement nodes.
    fn scan_request(&mut self) -> (r: Result<(), LidarError>)
        ensures
            final(self).settings() == old(self).settings(),
            advanced(*old(self), *final(self)),
            old(self).sent_bytes().is_prefix_of(final(self).sent_bytes()),
            flushes_since(*old(self), *final(self)) == 0,
            all_reads_with(
                timeouts_since(*old(self), *final(self)),
                old(self).settings().response_timeout,
            ),
            scan_request_ended(
                sent_since(*old(self), *final(self)),
                taken(*old(self), *final(self)),
                failures_since(*old(self), *final(self)),
                timeouts_since(*old(self), *final(self)),
                match r {
                    Ok(()) => Ok(None),
                    Err(e) => Err(e),
                },
                millis_u64(old(self).settings().response_timeout),
            ),
    {
        let ghost start = *self;
        match self.request(Command::Scan) {
            Ok(()) => {},
            Err(e) => {
                return Err(e);
            },
        }
        let ghost mid = *self;
        let descriptor = self.read_descriptor("scan descriptor");
        proof {
            lemma_records_compose(start, mid, *self);
            assert(sent_since(start, *self) == sent_since(start, mid));
        }
        let descriptor = match descriptor {
            Ok(d) => d,
            Err(e) => {
                return Err(e);
            },
        };
        match descriptor.expect(
            DATA_TYPE_MEASUREMENT,
            payload_len_u32(SCAN_NODE_LEN),
            SendMode::Multi,
        ) {
            Ok(()) => Ok(()),
            Err(p) => Err(LidarError::Protocol(p)),
        }
    }

    /// Performs the next step of `op` and returns the pause to wait out
    /// before calling again, or `None` once the operation is complete.
    ///
    /// On failure the operation is abandoned (`op` becomes
    /// [`Operation::Complete`]).
    pub fn advance(&mut self, op: &mut Operation) -> (r: Result<Option<Duration>, LidarError>)
        ensures
            final(self).settings() == old(self).settings(),
            advanced(*old(self), *final(self)),
            old(self).sent_bytes().is_prefix_of(final(self).sent_bytes()),
            all_reads_with(
                timeouts_since(*old(self), *final(self)),
                old(self).settings().response_timeout,
            ),
            advance_ended(
                *old(op),
                old(self).settings(),
                sent_since(*old(self), *final(self)),
                taken(*old(self), *final(self)),
                failures_since(*old(self), *final(self)),
                timeouts_since(*old(self), *final(self)),
                flushes_since(*old(self), *final(self)),
                *final(op),
                r,
            ),
            r is Err ==> *final(op) == Operation::Complete,
    {
        let ghost start = *self;
        proof {
            assert(self.sent@.take(self.sent@.len() as int) =~= self.sent@);
            lemma_records_still(start, *self);
        }
        let current = *op;
        *op = Operation::Complete;
        match current {
            Operation::Stop => {
                self.request(Command::Stop)?;
                *op = Operation::Flush;
                Ok(Some(self.config.stop_settle))
            },
            Operation::Reset => {
                self.request(Command::Reset)?;
                *op = Operation::Flush;
                Ok(Some(self.config.reset_settle))
            },
            Operation::SetMotorPwm(pwm) => {
                self.request(Command::SetMotorPwm(pwm))?;
                Ok(Some(self.config.motor_settle))
            },
            Operation::Flush => {
                self.discard_input()?;
                proof {
                    assert(sent_since(start, *self) =~= Seq::<u8>::empty());
                }
                Ok(None)
            },
            Operation::StartScan => {
                self.discard_input()?;
                let ghost flushed = *self;
                proof {
                    assert(self.sent@.take(self.sent@.len() as int) =~= self.sent@);
                }
                if self.config.motor_pwm > 0 {
                    let sent = self.request(Command::SetMotorPwm(self.config.motor_pwm));
                    proof {
                        lemma_records_compose(start, flushed, *self);
                        assert(sent_since(start, *self) =~= sent_since(flushed, *self));
                    }
                    sent?;
                    *op = Operation::ScanRequest;
                    Ok(Some(self.config.motor_settle))
                } else {
                    let res = self.scan_request();
                    proof {
                        lemma_records_compose(start, flushed, *self);
                        assert(sent_since(start, *self) =~= sent_since(flushed, *self));
                        assert(taken(start, *self) =~= taken(flushed, *self));
                        assert(failures_since(start, *self) =~= failures_since(flushed, *self));
                        assert(timeouts_since(start, *self) =~= timeouts_since(flushed, *self));
                    }
                    match res {
                        Ok(()) => Ok(None),
                        Err(e) => Err(e),
                    }
                }
            },
            Operation::ScanRequest => {
                let res = self.scan_request();
                match res {
                    Ok(()) => Ok(None),
                    Err(e) => Err(e),
                }
            },
            Operation::Complete => {
                proof {
                    assert(sent_since(start, *self) =~= Seq::<u8>::empty());
                }
                Ok(None)
            },
        }
    }

    /// Reads the next valid scan node, recovering from a desynchronized
    /// stream by discarding one byte at a time (at most
    /// [`MAX_DESYNC_DISCARD`]). `Ok(None)` means the byte source ended.
    fn next_node(&mut self, timeout: Duration) -> (r: Result<Option<ScanNode>, LidarError>)
        ensures
            final(self).settings() == old(self).settings(),
            final(self).sent_bytes() == old(self).sent_bytes(),
            advanced(*old(self), *final(self)),
            flushes_since(*old(self), *final(self)) == 0,
            timeouts_since(*old(self), *final(self)).len() >= 1,
            all_reads_with(timeouts_since(*old(self), *final(self)), timeout),
            ({
                let g = taken(*old(self), *final(self));
                let fails = failures_since(*old(self), *final(self));
                let ms = millis_u64(timeout);
                match r {
                    Ok(Some(node)) => resynced(g) && node == resync_node(g) && fails.len() == 0,
                    Ok(None) => no_node_in(g) && fails == seq![TransportError::Eof],
                    Err(LidarError::Desync(msg)) => desynced(g) && msg@ == desync_message(
                        MAX_DESYNC_DISCARD as nat,
                    ) && fails.len() == 0,
                    Err(e) => no_node_in(g) && fails.len() == 1 && !(fails[0] is Eof) && e
                        == lifted(fails[0], node_read_label(g), ms),
                }
            }),
    {
        let ghost start = *self;
        let mut buf = [0u8; SCAN_NODE_LEN];
        match self.receive(&mut buf, timeout) {
            Ok(()) => {},
            Err(TransportError::Eof) => {
                return Ok(None);
            },
            Err(e) => {
                return Err(lift(e, "scan node", timeout));
            },
        }
        proof {
            let g = taken(start, *self);
            assert(window(g, 0) =~= g);
        }
        let mut discarded: usize = 0;
        loop
            invariant
                self.config == old(self).config,
                self.sent@ == start.sent@,
                start == *old(self),
                advanced(start, *self),
                failures_since(start, *self).len() == 0,
                flushes_since(start, *self) == 0,
                timeouts_since(start, *self).len() >= 1,
                all_reads_with(timeouts_since(start, *self), timeout),
                taken(start, *self).len() == discarded + SCAN_NODE_LEN,
                buf@ == window(taken(start, *self), discarded as int),
                no_node_before(taken(start, *self), discarded as int),
                discarded <= MAX_DESYNC_DISCARD,
            decreases MAX_DESYNC_DISCARD - discarded,
        {
            match scan_node::parse_scan_node(&buf) {
                Ok(node) => {
                    return Ok(Some(node));
                },
                Err(_) => {
                    if discarded < MAX_DESYNC_DISCARD {
                        let ghost before = *self;
                        let ghost old_window = buf@;
                        discarded = discarded + 1;
                        // Slide the window one byte and pull one more.
                        buf[0] = buf[1];
                        buf[1] = buf[2];
                        buf[2] = buf[3];
                        buf[3] = buf[4];
                        proof {
                            let g0 = taken(start, before);
                            assert forall|i: int| 0 <= i < discarded implies !node_checks(
                                #[trigger] window(g0, i),
                            ) by {
                                if i == discarded - 1 {
                                    assert(window(g0, i) =~= old_window);
                                }
                            }
                        }
                        let mut last = [0u8; 1];
                        let got = self.receive(&mut last, timeout);
                        proof {
                            lemma_records_compose(start, before, *self);
                            let reads = timeouts_since(start, *self);
                            assert forall|k: int| 0 <= k < reads.len() implies reads[k]
                                == timeout by {
                                if k < timeouts_since(start, before).len() {
                                    assert(reads[k] == timeouts_since(start, before)[k]);
                                }
                            }
                        }
                        match got {
                            Ok(()) => {},
                            Err(TransportError::Eof) => {
                                return Ok(None);
                            },
                            Err(e) => {
                                return Err(lift(e, "scan node resync", timeout));
                            },
                        }
                        buf[4] = last[0];
                        proof {
                            let g0 = taken(start, before);
                            let g = taken(start, *self);
                            assert(g =~= g0 + last@);
                            assert(buf@ =~= window(g, discarded as int));
                            assert forall|i: int| 0 <= i < discarded implies !node_checks(
                                #[trigger] window(g, i),
                            ) by {
                                if i < discarded - 1 {
                                    assert(window(g, i) =~= window(g0, i));
                                } else {
                                    assert(window(g, i) =~= old_window);
                                }
                            }
                        }
                    } else {
                        proof {
                            let g = taken(start, *self);
                            assert forall|i: int| 0 <= i < MAX_DESYNC_DISCARD + 1 implies !node_checks(
                                #[trigger] window(g, i),
                            ) by {
                                if i == MAX_DESYNC_DISCARD {
                                    assert(window(g, i) =~= buf@);
                                }
                            }
                        }
                        return Err(LidarError::Desync(desync_text(discarded)));
                    }
                },
            }
        }
    }

    /// Reads the next node of a running scan into `rotations`: one call reads one
    /// node (resynchronizing if needed) and reports the rotation it
    /// completes, if any. Call after the scan was started, until the stream
    /// ends or fails.
    ///
    /// The first node gets [`LidarConfig::scan_startup_timeout`] (motor
    /// spin-up); later nodes get [`LidarConfig::response_timeout`].
    pub fn read_scan(&mut self, rotations: &mut ScanAssembler) -> (r: ScanProgress)
        ensures
            final(self).settings() == old(self).settings(),
            final(self).sent_bytes() == old(self).sent_bytes(),
            advanced(*old(self), *final(self)),
            flushes_since(*old(self), *final(self)) == 0,
            old(rotations).is_done() ==> r is Ended && *final(rotations) == *old(rotations) && taken(
                *old(self),
                *final(self),
            ).len() == 0 && failures_since(*old(self), *final(self)).len() == 0
                && timeouts_since(*old(self), *final(self)).len() == 0,
            follows_history(*final(rotations)),
            !old(rotations).is_done() ==> scan_read_ended(
                *old(rotations),
                *final(rotations),
                taken(*old(self), *final(self)),
                failures_since(*old(self), *final(self)),
                timeouts_since(*old(self), *final(self)),
                if old(rotations).has_started() {
                    old(self).settings().response_timeout
                } else {
                    old(self).settings().scan_startup_timeout
                },
                r,
            ),
    {
        if rotations.done() {
            proof {
                lemma_records_still(*old(self), *self);
            }
            return ScanProgress::Ended;
        }
        let timeout = if rotations.started() {
            self.config.response_timeout
        } else {
            self.config.scan_startup_timeout
        };
        match self.next_node(timeout) {
            Ok(Some(node)) => {
                rotations.mark_started();
                match rotations.push(node) {
                    Some(rotation) => ScanProgress::Rotation(rotation),
                    None => ScanProgress::Measured,
                }
            },
            Ok(None) => {
                rotations.finish();
                ScanProgress::Ended
            },
            Err(e) => {
                rotations.finish();
                ScanProgress::Failed(e)
            },
        }
    }
}

} // verus!
