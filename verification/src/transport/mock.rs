//! Scriptable test-double transport.

use core::time::Duration;
use vstd::prelude::*;

use super::{Transport, TransportError};

verus! {

/// A [`Transport`] test double: reads come from bytes queued in advance,
/// writes are captured for inspection.
///
/// An exhausted queue reads as [`TransportError::Timeout`], like a silent
/// device, unlike the replay transport, whose exhausted recording is a clean
/// [`TransportError::Eof`].
#[derive(Debug)]
pub struct MockTransport {
    input: Vec<u8>,
    pos: usize,
    written: Vec<u8>,
    discards: usize,
}

impl MockTransport {
    #[verifier::type_invariant]
    spec fn pos_in_input(&self) -> bool {
        self.pos <= self.input@.len()
    }

    /// Queued bytes not yet taken off the input.
    pub closed spec fn pending(&self) -> Seq<u8> {
        self.input@.skip(self.pos as int)
    }

    /// Every byte written so far, in order.
    pub closed spec fn sent(&self) -> Seq<u8> {
        self.written@
    }

    /// Every queued byte taken off the input so far (read or discarded).
    pub closed spec fn consumed(&self) -> Seq<u8> {
        self.input@.take(self.pos as int)
    }

    /// How many times the input was discarded.
    pub closed spec fn discard_count(&self) -> nat {
        self.discards as nat
    }

    /// A mock with nothing queued and nothing written.
    pub fn new() -> (t: Self)
        ensures
            t.pending() == Seq::<u8>::empty(),
            t.sent() == Seq::<u8>::empty(),
            t.consumed() == Seq::<u8>::empty(),
            t.discard_count() == 0,
    {
        let t = MockTransport { input: Vec::new(), pos: 0, written: Vec::new(), discards: 0 };
        assert(t.input@.skip(0) =~= Seq::<u8>::empty());
        assert(t.input@.take(0) =~= Seq::<u8>::empty());
        t
    }

    /// Queues bytes for future reads.
    pub fn queue_input(&mut self, bytes: &[u8])
        ensures
            final(self).pending() == old(self).pending() + bytes@,
            final(self).sent() == old(self).sent(),
            final(self).consumed() == old(self).consumed(),
            final(self).discard_count() == old(self).discard_count(),
    {
        let mut taken = MockTransport::new();
        core::mem::swap(self, &mut taken);
        proof {
            use_type_invariant(&taken);
        }
        let MockTransport { mut input, pos, written, discards } = taken;
        input.extend_from_slice(bytes);
        assert(input@ =~= old(self).input@ + bytes@);
        assert(input@.skip(pos as int) =~= old(self).input@.skip(pos as int) + bytes@);
        assert(input@.take(pos as int) =~= old(self).input@.take(pos as int));
        *self = MockTransport { input, pos, written, discards };
    }

    /// Every byte written so far, in order.
    pub fn written(&self) -> (w: &[u8])
        ensures
            w@ == self.sent(),
    {
        self.written.as_slice()
    }

    /// How many times [`Transport::discard_input`] was called (saturating
    /// at `usize::MAX`).
    pub fn discards(&self) -> (n: usize)
        ensures
            n == self.discard_count(),
    {
        self.discards
    }

    fn remaining(&self) -> (n: usize)
        ensures
            n == self.pending().len(),
    {
        proof {
            use_type_invariant(self);
        }
        self.input.len() - self.pos
    }
}

impl Default for MockTransport {
    fn default() -> (t: Self)
        ensures
            t.pending() == Seq::<u8>::empty(),
            t.sent() == Seq::<u8>::empty(),
            t.consumed() == Seq::<u8>::empty(),
            t.discard_count() == 0,
    {
        MockTransport::new()
    }
}

impl Transport for MockTransport {
    fn write_all(&mut self, bytes: &[u8]) -> (r: Result<(), TransportError>)
        ensures
            r is Ok,
            final(self).sent() == old(self).sent() + bytes@,
            final(self).pending() == old(self).pending(),
            final(self).consumed() == old(self).consumed(),
            final(self).discard_count() == old(self).discard_count(),
    {
        let mut taken = MockTransport::new();
        core::mem::swap(self, &mut taken);
        proof {
            use_type_invariant(&taken);
        }
        let MockTransport { input, pos, mut written, discards } = taken;
        written.extend_from_slice(bytes);
        assert(written@ =~= old(self).written@ + bytes@);
        *self = MockTransport { input, pos, written, discards };
        Ok(())
    }

    /// Fills `buf` from the queue, or times out when fewer bytes are queued.
    fn read_exact(&mut self, buf: &mut [u8], _timeout: Duration) -> (r: Result<(), TransportError>)
        ensures
            old(self).pending().len() < old(buf)@.len() ==> (r matches Err(TransportError::Timeout)
                && final(buf)@ == old(buf)@
                && final(self).pending() == old(self).pending()
                && final(self).consumed() == old(self).consumed()),
            old(self).pending().len() >= old(buf)@.len() ==> r is Ok && final(buf)@ == old(self).pending().take(old(buf)@.len() as int) && final(self).pending() == old(self).pending().skip(old(buf)@.len() as int) && final(self).consumed() == old(self).consumed() + final(buf)@,
            final(self).sent() == old(self).sent(),
            final(self).discard_count() == old(self).discard_count(),
    {
        proof {
            use_type_invariant(&*self);
        }
        let n = buf.len();
        if self.remaining() < n {
            return Err(TransportError::Timeout);
        }
        let total = self.input.len();
        let mut i: usize = 0;
        while i < n
            invariant
                self.pos + n <= self.input@.len(),
                self.input@.len() == total,
                i <= n,
                n == buf@.len(),
                buf@.len() == old(buf)@.len(),
                forall|j: int| 0 <= j < i ==> buf@[j] == self.input@[self.pos + j],
            decreases n - i,
        {
            buf[i] = self.input[self.pos + i];
            i = i + 1;
        }
        let ghost start = self.pos as int;
        self.pos = self.pos + n;
        proof {
            assert(buf@ =~= self.input@.subrange(start, start + n));
            assert(self.input@.take(self.pos as int) =~= self.input@.take(start) + buf@);
            assert(buf@ =~= old(self).pending().take(n as int));
            assert(self.input@.skip(self.pos as int) =~= old(self).pending().skip(n as int));
        }
        Ok(())
    }

    /// Hands out up to `buf.len()` queued bytes, or times out when nothing is
    /// queued.
    fn read(&mut self, buf: &mut [u8], _timeout: Duration) -> (r: Result<usize, TransportError>)
        ensures
            old(self).pending().len() == 0 ==> (r matches Err(TransportError::Timeout)
                && final(buf)@ == old(buf)@
                && final(self).pending() == old(self).pending()
                && final(self).consumed() == old(self).consumed()),
            r matches Ok(n) ==> n == (if old(buf)@.len() < old(self).pending().len() {
                old(buf)@.len()
            } else {
                old(self).pending().len()
            }) && final(buf)@.take(n as int) == old(self).pending().take(n as int)
                && final(buf)@.skip(n as int) == old(buf)@.skip(n as int)
                && final(self).pending() == old(self).pending().skip(n as int) && final(self).consumed() == old(self).consumed() + final(buf)@.take(n as int),
            old(self).pending().len() > 0 ==> r is Ok,
            final(self).sent() == old(self).sent(),
            final(self).discard_count() == old(self).discard_count(),
    {
        proof {
            use_type_invariant(&*self);
        }
        let rem = self.remaining();
        if rem == 0 {
            return Err(TransportError::Timeout);
        }
        let n = if buf.len() < rem {
            buf.len()
        } else {
            rem
        };
        let total = self.input.len();
        let mut i: usize = 0;
        while i < n
            invariant
                self.pos + n <= self.input@.len(),
                self.input@.len() == total,
                i <= n,
                n <= buf@.len(),
                buf@.len() == old(buf)@.len(),
                forall|j: int| n <= j < buf@.len() ==> buf@[j] == old(buf)@[j],
                forall|j: int| 0 <= j < i ==> buf@[j] == self.input@[self.pos + j],
            decreases n - i,
        {
            buf[i] = self.input[self.pos + i];
            i = i + 1;
        }
        let ghost start = self.pos as int;
        self.pos = self.pos + n;
        proof {
            assert(buf@.take(n as int) =~= self.input@.subrange(start, start + n));
            assert(self.input@.take(self.pos as int) =~= self.input@.take(start) + buf@.take(
                n as int,
            ));
            assert(self.input@.skip(self.pos as int) =~= old(self).pending().skip(n as int));
        }
        Ok(n)
    }

    /// Drops everything queued, like hardware flushing its input buffer.
    fn discard_input(&mut self) -> (r: Result<(), TransportError>)
        ensures
            r is Ok,
            final(self).pending() == Seq::<u8>::empty(),
            final(self).consumed() == old(self).consumed() + old(self).pending(),
            final(self).sent() == old(self).sent(),
            final(self).discard_count() == if old(self).discard_count() < usize::MAX {
                old(self).discard_count() + 1
            } else {
                old(self).discard_count()
            },
    {
        proof {
            use_type_invariant(&*self);
        }
        self.pos = self.input.len();
        self.discards = self.discards.saturating_add(1);
        assert(self.input@.take(self.pos as int) =~= old(self).input@.take(old(self).pos as int)
            + old(self).input@.skip(old(self).pos as int));
        assert(self.input@.skip(self.pos as int) =~= Seq::<u8>::empty());
        Ok(())
    }
}

} // verus!
