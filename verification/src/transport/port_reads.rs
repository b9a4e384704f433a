//! Decisions of a blocking serial-port read.
//!
//! A serial port answers each read with some bytes, nothing (closed), an
//! interruption, a timeout or a failure. What a blocking read makes of each
//! answer is decided here; the port itself and the clock stay with the
//! caller.

use vstd::prelude::*;

use core::time::Duration;

use super::TransportError;
use crate::time::{duration_as_nanos, duration_nanos};

verus! {

/// How one read from a serial port came back.
#[derive(Debug)]
pub enum PortRead {
    /// `n` bytes arrived; `0` means the port reported end of stream.
    Bytes(usize),
    /// A signal interrupted the read; it may simply be retried.
    Interrupted,
    /// No byte arrived within the port timeout.
    TimedOut,
    /// Any other I/O failure.
    Failed(std::io::Error),
}

/// What a blocking fill does after one port read.
#[derive(Debug)]
pub enum FillStep {
    /// Read again; this many bytes of the buffer are filled so far.
    Continue(usize),
    /// The buffer is full.
    Filled,
    /// Give up with this error.
    Stop(TransportError),
}

/// The outcome one port read gives a plain read: `None` to retry.
pub open spec fn port_read_outcome(read: PortRead) -> Option<Result<usize, TransportError>> {
    match read {
        PortRead::Bytes(n) => if n == 0 {
            Some(Err(TransportError::Eof))
        } else {
            Some(Ok(n))
        },
        PortRead::Interrupted => None,
        PortRead::TimedOut => Some(Err(TransportError::Timeout)),
        PortRead::Failed(e) => Some(Err(TransportError::Io(e))),
    }
}

/// What a plain read makes of one port read: the byte count, the end of
/// stream for a zero-byte read, a timeout, an I/O error, or `None` to retry
/// after an interruption.
pub fn classify_port_read(read: PortRead) -> (r: Option<Result<usize, TransportError>>)
    ensures
        r == port_read_outcome(read),
{
    match read {
        PortRead::Bytes(0) => Some(Err(TransportError::Eof)),
        PortRead::Bytes(n) => Some(Ok(n)),
        PortRead::Interrupted => None,
        PortRead::TimedOut => Some(Err(TransportError::Timeout)),
        PortRead::Failed(e) => Some(Err(TransportError::Io(e))),
    }
}

/// What filling `wanted` bytes makes of one port read into the unfilled
/// rest, with `filled` bytes already in: more bytes advance the fill (and
/// complete it once `wanted` are in), an interruption retries, and every
/// other answer stops the fill with the error a plain read gives.
pub fn fill_after(filled: usize, wanted: usize, read: PortRead) -> (step: FillStep)
    requires
        filled < wanted,
        read matches PortRead::Bytes(n) ==> n <= wanted - filled,
    ensures
        match port_read_outcome(read) {
            None => step matches FillStep::Continue(f) && f == filled,
            Some(Ok(n)) => if filled + n == wanted {
                step is Filled
            } else {
                step matches FillStep::Continue(f) && f == filled + n
            },
            Some(Err(e)) => step matches FillStep::Stop(e2) && e2 == e,
        },
{
    match classify_port_read(read) {
        None => FillStep::Continue(filled),
        Some(Ok(n)) => {
            let now = filled + n;
            if now == wanted {
                FillStep::Filled
            } else {
                FillStep::Continue(now)
            }
        },
        Some(Err(e)) => FillStep::Stop(e),
    }
}

/// The port timeout a read asks for: the time it has left, raised to one
/// millisecond (some platforms refuse a zero port timeout), in
/// nanoseconds.
pub open spec fn wanted_port_timeout(requested: Duration) -> nat {
    if duration_nanos(requested) < 1_000_000 {
        1_000_000
    } else {
        duration_nanos(requested)
    }
}

/// Whether the port's timeout must change before a read that has
/// `requested` left, with `current` configured on the port: `None` when it
/// already holds the wanted timeout, else `Some` of the timeout to set.
pub fn port_timeout_update(requested: Duration, current: Duration) -> (r: Option<Duration>)
    ensures
        r is None <==> duration_nanos(current) == wanted_port_timeout(requested),
        r matches Some(d) ==> duration_nanos(d) == wanted_port_timeout(requested),
{
    let want = duration_as_nanos(requested);
    let have = duration_as_nanos(current);
    if want < 1_000_000 {
        if have == 1_000_000 {
            None
        } else {
            Some(Duration::from_millis(1))
        }
    } else if have == want {
        None
    } else {
        Some(requested)
    }
}

} // verus!
