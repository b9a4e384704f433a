//! Request framing: command opcodes and wire encoding.
//!
//! Requests are `0xA5 <opcode>`, or for commands carrying a payload,
//! `0xA5 <opcode> <payload len> <payload…> <checksum>` where the checksum is
//! the XOR of every preceding byte in the frame.

use vstd::prelude::*;

verus! {

/// First byte of every request frame and of every response descriptor.
pub const SYNC_BYTE: u8 = 0xA5;

/// Length of the longest request frame this crate can emit (with headroom
/// for the 9-byte express-scan request).
pub const MAX_REQUEST_LEN: usize = 12;

/// Maximum motor PWM duty value accepted by the device.
pub const MOTOR_PWM_MAX: u16 = 1023;

/// A request that can be sent to the device.
#[derive(Debug, Clone, Copy, PartialEq, Eq)]
#[non_exhaustive]
pub enum Command {
    /// Exit scanning mode and enter idle (`0x25`). No response.
    Stop,
    /// Reboot the device (`0x40`). The device answers with an unframed
    /// ASCII boot banner that must be discarded.
    Reset,
    /// Begin a standard scan (`0x20`): one descriptor, then an endless stream
    /// of 5-byte measurement nodes.
    Scan,
    /// Request model, firmware, hardware revision and serial number (`0x50`).
    GetInfo,
    /// Request the self-test health status (`0x52`).
    GetHealth,
    /// Request the standard/express sample durations (`0x59`).
    GetSampleRate,
    /// Set the motor PWM duty (`0xF0`). Values above [`MOTOR_PWM_MAX`] are
    /// clamped during encoding; `0` stops the motor.
    SetMotorPwm(u16),
}

/// The opcode byte of a command.
pub open spec fn spec_opcode(c: Command) -> u8 {
    match c {
        Command::Stop => 0x25,
        Command::Reset => 0x40,
        Command::Scan => 0x20,
        Command::GetInfo => 0x50,
        Command::GetHealth => 0x52,
        Command::GetSampleRate => 0x59,
        Command::SetMotorPwm(_) => 0xF0,
    }
}

/// XOR of all bytes of `s`, folded from the left starting at `0`.
pub open spec fn xor_all(s: Seq<u8>) -> u8
    decreases s.len(),
{
    if s.len() == 0 {
        0
    } else {
        xor_all(s.drop_last()) ^ s.last()
    }
}

/// The PWM duty actually sent for a requested duty.
pub open spec fn clamped_pwm(pwm: u16) -> u16 {
    if pwm > MOTOR_PWM_MAX {
        MOTOR_PWM_MAX
    } else {
        pwm
    }
}

/// The frame of a payload-carrying request before its checksum byte.
pub open spec fn pwm_frame_head(pwm: u16) -> Seq<u8> {
    let v = clamped_pwm(pwm);
    seq![SYNC_BYTE, 0xF0u8, 2u8, (v % 256) as u8, (v / 256) as u8]
}

/// The wire frame of a request.
pub open spec fn request_frame(c: Command) -> Seq<u8> {
    match c {
        Command::SetMotorPwm(pwm) => pwm_frame_head(pwm).push(xor_all(pwm_frame_head(pwm))),
        _ => seq![SYNC_BYTE, spec_opcode(c)],
    }
}

impl Command {
    /// The opcode byte sent after [`SYNC_BYTE`].
    pub fn opcode(self) -> (op: u8)
        ensures
            op == spec_opcode(self),
    {
        match self {
            Command::Stop => 0x25,
            Command::Reset => 0x40,
            Command::Scan => 0x20,
            Command::GetInfo => 0x50,
            Command::GetHealth => 0x52,
            Command::GetSampleRate => 0x59,
            Command::SetMotorPwm(_) => 0xF0,
        }
    }

    /// Encodes the framed request into the front of `out` and returns the
    /// frame length; the bytes after the frame are left as they were.
    pub fn encode(self, out: &mut [u8; MAX_REQUEST_LEN]) -> (len: usize)
        ensures
            len == request_frame(self).len(),
            final(out)@.take(len as int) == request_frame(self),
            final(out)@.skip(len as int) == old(out)@.skip(len as int),
    {
        out[0] = SYNC_BYTE;
        out[1] = self.opcode();
        match self {
            Command::SetMotorPwm(pwm) => {
                let duty = if pwm > MOTOR_PWM_MAX {
                    MOTOR_PWM_MAX
                } else {
                    pwm
                };
                assert(duty & 0xFF == duty % 256 && duty >> 8 == duty / 256) by (bit_vector);
                assert(duty <= 1023 ==> duty >> 8 < 256) by (bit_vector);
                out[2] = 2;
                out[3] = (duty & 0xFF) as u8;
                out[4] = (duty >> 8) as u8;
                let ghost head = out@.take(5);
                assert(head =~= pwm_frame_head(pwm));
                let checksum = xor_checksum(&out[0..5]);
                assert(checksum == xor_all(head));
                out[5] = checksum;
                proof {
                    assert(out@.take(5) =~= pwm_frame_head(pwm));
                    assert(out@.take(6) =~= request_frame(self));
                    assert(out@.skip(6) =~= old(out)@.skip(6));
                }
                6
            },
            _ => {
                proof {
                    assert(out@.take(2) =~= request_frame(self));
                    assert(out@.skip(2) =~= old(out)@.skip(2));
                }
                2
            },
        }
    }
}

/// XOR of all bytes; the request-frame checksum.
pub fn xor_checksum(bytes: &[u8]) -> (sum: u8)
    ensures
        sum == xor_all(bytes@),
{
    let mut acc: u8 = 0;
    let mut i: usize = 0;
    while i < bytes.len()
        invariant
            i <= bytes@.len(),
            acc == xor_all(bytes@.take(i as int)),
        decreases bytes@.len() - i,
    {
        assert(bytes@.take(i + 1).drop_last() =~= bytes@.take(i as int));
        acc = acc ^ bytes[i];
        i = i + 1;
    }
    assert(bytes@.take(i as int) =~= bytes@);
    acc
}

/// The XOR checksum composes over concatenation: the checksum of `a + b`
/// is the XOR of the checksums of `a` and `b`; the empty input's checksum
/// is `0`.
pub proof fn lemma_xor_all_concat(a: Seq<u8>, b: Seq<u8>)
    ensures
        xor_all(a + b) == xor_all(a) ^ xor_all(b),
        xor_all(Seq::<u8>::empty()) == 0,
    decreases b.len(),
{
    let xa = xor_all(a);
    if b.len() == 0 {
        assert(a + b =~= a);
        assert(xa ^ 0 == xa) by (bit_vector);
    } else {
        lemma_xor_all_concat(a, b.drop_last());
        assert((a + b).drop_last() =~= a + b.drop_last());
        assert((a + b).last() == b.last());
        let xb = xor_all(b.drop_last());
        let l = b.last();
        assert((xa ^ xb) ^ l == xa ^ (xb ^ l)) by (bit_vector);
    }
}

/// Repeating any input cancels its checksum: `a + a` XORs to zero.
pub proof fn lemma_xor_all_self_cancels(a: Seq<u8>)
    ensures
        xor_all(a + a) == 0,
{
    lemma_xor_all_concat(a, a);
    let x = xor_all(a);
    assert(x ^ x == 0) by (bit_vector);
}

/// Appending the checksum of any input closes it: the result XORs to zero.
pub proof fn lemma_xor_all_appended_checksum_closes(a: Seq<u8>)
    ensures
        xor_all(a.push(xor_all(a))) == 0,
{
    assert(a.push(xor_all(a)).drop_last() =~= a);
    let x = xor_all(a);
    assert(x ^ x == 0) by (bit_vector);
}

/// The XOR checksum does not depend on byte order: two inputs that hold the
/// same bytes, each as often, have the same checksum.
pub proof fn lemma_xor_all_order_free(s: Seq<u8>, t: Seq<u8>)
    requires
        s.to_multiset() == t.to_multiset(),
    ensures
        xor_all(s) == xor_all(t),
    decreases s.len(),
{
    vstd::seq_lib::to_multiset_len(s);
    vstd::seq_lib::to_multiset_len(t);
    if s.len() > 0 {
        let x = s.last();
        let s0 = s.drop_last();
        assert(s0.push(x) =~= s);
        vstd::seq_lib::to_multiset_build(s0, x);
        vstd::seq_lib::to_multiset_contains(t, x);
        assert(s.to_multiset().count(x) > 0) by {
            broadcast use vstd::multiset::group_multiset_axioms;

        }
        let i = choose|i: int| 0 <= i < t.len() && t[i] == x;
        let t0 = t.remove(i);
        vstd::seq_lib::to_multiset_remove(t, i);
        assert(s0.to_multiset() =~= t0.to_multiset()) by {
            broadcast use vstd::multiset::group_multiset_axioms;

        }
        lemma_xor_all_order_free(s0, t0);
        let a = t.take(i);
        let b = t.skip(i + 1);
        assert(t =~= a + seq![x] + b);
        assert(t0 =~= a + b);
        lemma_xor_all_concat(a + seq![x], b);
        lemma_xor_all_concat(a, seq![x]);
        lemma_xor_all_concat(a, b);
        assert(seq![x].drop_last() =~= Seq::<u8>::empty());
        let xa = xor_all(a);
        let xb = xor_all(b);
        assert(0u8 ^ x == x) by (bit_vector);
        assert((xa ^ x) ^ xb == (xa ^ xb) ^ x) by (bit_vector);
    }
}

/// A payload-carrying request frame XORs to zero: its last byte is the XOR
/// of every byte before it.
pub proof fn lemma_pwm_frame_checksum_closes(pwm: u16)
    ensures
        xor_all(request_frame(Command::SetMotorPwm(pwm))) == 0,
        request_frame(Command::SetMotorPwm(pwm)).last() == xor_all(
            request_frame(Command::SetMotorPwm(pwm)).drop_last(),
        ),
{
    let f = request_frame(Command::SetMotorPwm(pwm));
    let h = pwm_frame_head(pwm);
    assert(f.drop_last() =~= h);
    let x = xor_all(h);
    assert(x ^ x == 0) by (bit_vector);
}

/// Requests above the maximum duty are sent exactly as the maximum duty, and
/// the two payload bytes carry the clamped duty in little-endian order.
pub proof fn lemma_pwm_frame_clamps(pwm: u16)
    ensures
        request_frame(Command::SetMotorPwm(pwm)) == request_frame(
            Command::SetMotorPwm(clamped_pwm(pwm)),
        ),
        request_frame(Command::SetMotorPwm(pwm))[3] + 256 * request_frame(
            Command::SetMotorPwm(pwm),
        )[4] == clamped_pwm(pwm),
        clamped_pwm(pwm) <= MOTOR_PWM_MAX,
{
    assert(pwm_frame_head(pwm) =~= pwm_frame_head(clamped_pwm(pwm)));
}

} // verus!
