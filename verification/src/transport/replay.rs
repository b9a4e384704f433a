//! Transport that replays a recorded byte stream.

use core::time::Duration;
use vstd::prelude::*;

use super::{Transport, TransportError};

verus! {

/// A [`Transport`] that reads from a recorded session instead of hardware.
///
/// Writes are accepted and dropped (a recording cannot answer), reads return
/// the recorded bytes in order, and the end of the recording surfaces as
/// [`TransportError::Eof`], which the rotation reader treats as a clean end
/// of stream.
#[derive(Debug)]
pub struct ReplayTransport {
    data: Vec<u8>,
    pos: usize,
}

impl ReplayTransport {
    #[verifier::type_invariant]
    spec fn pos_in_data(&self) -> bool {
        self.pos <= self.data@.len()
    }

    /// Recorded bytes not yet taken off the input.
    pub closed spec fn pending(&self) -> Seq<u8> {
        self.data@.skip(self.pos as int)
    }

    /// Every recorded byte taken off the input so far (read or dropped).
    pub closed spec fn consumed(&self) -> Seq<u8> {
        self.data@.take(self.pos as int)
    }

    /// The whole recording.
    pub closed spec fn recording(&self) -> Seq<u8> {
        self.data@
    }

    /// Replays from an in-memory byte buffer.
    pub fn from_bytes(data: Vec<u8>) -> (t: Self)
        ensures
            t.pending() == data@,
            t.consumed() == Seq::<u8>::empty(),
            t.recording() == data@,
            replay_consistent(t),
    {
        let t = ReplayTransport { data, pos: 0 };
        assert(t.data@.skip(0) =~= t.data@);
        assert(t.data@.take(0) =~= Seq::<u8>::empty());
        t
    }

    /// Bytes not yet consumed.
    pub fn remaining(&self) -> (n: usize)
        ensures
            n == self.pending().len(),
    {
        proof {
            use_type_invariant(self);
        }
        self.data.len() - self.pos
    }
}

impl Clone for ReplayTransport {
    fn clone(&self) -> (c: Self)
        ensures
            c.pending() == self.pending(),
            c.consumed() == self.consumed(),
            c.recording() == self.recording(),
    {
        proof {
            use_type_invariant(self);
        }
        ReplayTransport { data: self.data.clone(), pos: self.pos }
    }
}

/// A replay's state is consistent: what it took off the recording followed
/// by what is still pending is the whole recording.
pub open spec fn replay_consistent(t: ReplayTransport) -> bool {
    t.consumed() + t.pending() == t.recording()
}

/// One call on a replay that handed out `chunk`: the recording is kept, and
/// either exactly `chunk` was taken off it, or nothing was handed out and
/// the rest of the recording was dropped (a read past its end).
pub open spec fn replay_step(before: ReplayTransport, after: ReplayTransport, chunk: Seq<u8>) -> bool {
    &&& after.recording() == before.recording()
    &&& (after.consumed() == before.consumed() + chunk || (chunk.len() == 0 && after.pending().len()
        == 0))
}

/// Over a run of calls on a replay that starts with nothing taken off, the
/// bytes handed out, concatenated in order, are a prefix of the recording:
/// none skipped, none repeated.
pub proof fn lemma_replay_run_hands_out_prefix(states: Seq<ReplayTransport>, chunks: Seq<Seq<u8>>)
    requires
        states.len() == chunks.len() + 1,
        states[0].consumed().len() == 0,
        forall|i: int| 0 <= i < states.len() ==> replay_consistent(#[trigger] states[i]),
        forall|i: int|
            0 <= i < chunks.len() ==> replay_step(#[trigger] states[i], states[i + 1], chunks[i]),
    ensures
        chunks.flatten().is_prefix_of(states[0].recording()),
{
    lemma_replay_run_prefix_upto(states, chunks, chunks.len() as int);
    assert(chunks.take(chunks.len() as int) =~= chunks);
    chunks.lemma_flatten_and_flatten_alt_are_equivalent();
}

/// The first `k` chunks of a replay run, concatenated, are what was taken
/// off by state `k`, or a prefix of it once the whole recording was taken
/// off; the recording never changed.
proof fn lemma_replay_run_prefix_upto(states: Seq<ReplayTransport>, chunks: Seq<Seq<u8>>, k: int)
    requires
        states.len() == chunks.len() + 1,
        0 <= k <= chunks.len(),
        states[0].consumed().len() == 0,
        forall|i: int| 0 <= i < states.len() ==> replay_consistent(#[trigger] states[i]),
        forall|i: int|
            0 <= i < chunks.len() ==> replay_step(#[trigger] states[i], states[i + 1], chunks[i]),
    ensures
        chunks.take(k).flatten_alt().is_prefix_of(states[k].consumed()),
        chunks.take(k).flatten_alt() == states[k].consumed() || states[k].consumed()
            == states[k].recording(),
        states[k].recording() == states[0].recording(),
    decreases k,
{
    if k == 0 {
        assert(chunks.take(0).flatten_alt() =~= Seq::<u8>::empty());
        assert(states[0].consumed() =~= Seq::<u8>::empty());
    } else {
        lemma_replay_run_prefix_upto(states, chunks, k - 1);
        let prev = chunks.take(k - 1).flatten_alt();
        let chunk = chunks[k - 1];
        assert(chunks.take(k).drop_last() =~= chunks.take(k - 1));
        assert(chunks.take(k).flatten_alt() == prev + chunk);
        assert(replay_step(states[k - 1], states[k], chunk));
        assert(replay_consistent(states[k - 1]));
        assert(replay_consistent(states[k]));
        let c0 = states[k - 1].consumed();
        let c1 = states[k].consumed();
        let rec = states[k].recording();
        assert(c0.is_prefix_of(rec)) by {
            assert(rec.take(c0.len() as int) =~= c0);
        }
        if c1 == c0 + chunk {
            if prev == c0 {
                assert(prev + chunk =~= c1);
                assert(c1.take(c1.len() as int) =~= c1);
            } else {
                assert(c0 == rec);
                assert(chunk.len() == 0);
                assert(prev + chunk =~= prev);
                assert(c1 =~= c0);
            }
        } else {
            assert(chunk =~= Seq::<u8>::empty());
            assert(prev + chunk =~= prev);
            assert(states[k].pending() =~= Seq::<u8>::empty());
            assert(c1 =~= rec);
            assert(c1.take(prev.len() as int) =~= c0.take(prev.len() as int));
        }
    }
}

impl Transport for ReplayTransport {
    /// Accepts and drops the bytes.
    fn write_all(&mut self, bytes: &[u8]) -> (r: Result<(), TransportError>)
        ensures
            r is Ok,
            final(self).pending() == old(self).pending(),
            final(self).consumed() == old(self).consumed(),
            final(self).recording() == old(self).recording(),
            replay_consistent(*final(self)),
    {
        proof {
            use_type_invariant(&*self);
            assert(self.data@.take(self.pos as int) + self.data@.skip(self.pos as int)
                =~= self.data@);
        }
        Ok(())
    }

    /// Fills `buf` from the recording; a recording shorter than `buf` is
    /// over: the short tail is dropped and the read reports the end.
    fn read_exact(&mut self, buf: &mut [u8], _timeout: Duration) -> (r: Result<(), TransportError>)
        ensures
            old(self).pending().len() < old(buf)@.len() ==> (r matches Err(TransportError::Eof)
                && final(buf)@ == old(buf)@
                && final(self).pending() == Seq::<u8>::empty() && final(self).consumed() == old(self).consumed() + old(self).pending()),
            old(self).pending().len() >= old(buf)@.len() ==> r is Ok && final(buf)@ == old(self).pending().take(old(buf)@.len() as int) && final(self).pending() == old(self).pending().skip(old(buf)@.len() as int) && final(self).consumed() == old(self).consumed() + final(buf)@,
            final(self).recording() == old(self).recording(),
            replay_consistent(*final(self)),
    {
        proof {
            use_type_invariant(&*self);
        }
        let n = buf.len();
        if self.remaining() < n {
            self.pos = self.data.len();
            assert(self.data@.skip(self.pos as int) =~= Seq::<u8>::empty());
            assert(self.data@.take(self.pos as int) =~= old(self).data@.take(old(self).pos as int)
                + old(self).data@.skip(old(self).pos as int));
            proof {
                assert(self.data@.take(self.pos as int) + self.data@.skip(self.pos as int)
                    =~= self.data@);
            }
            return Err(TransportError::Eof);
        }
        let total = self.data.len();
        let mut i: usize = 0;
        while i < n
            invariant
                self.pos + n <= self.data@.len(),
                self.data@.len() == total,
                i <= n,
                n == buf@.len(),
                buf@.len() == old(buf)@.len(),
                forall|j: int| 0 <= j < i ==> buf@[j] == self.data@[self.pos + j],
            decreases n - i,
        {
            buf[i] = self.data[self.pos + i];
            i = i + 1;
        }
        let ghost start = self.pos as int;
        self.pos = self.pos + n;
        proof {
            assert(buf@ =~= self.data@.subrange(start, start + n));
            assert(self.data@.take(self.pos as int) =~= self.data@.take(start) + buf@);
            assert(buf@ =~= old(self).pending().take(n as int));
            assert(self.data@.skip(self.pos as int) =~= old(self).pending().skip(n as int));
        }
        proof {
            assert(self.data@.take(self.pos as int) + self.data@.skip(self.pos as int)
                =~= self.data@);
        }
        Ok(())
    }

    /// Hands out up to `buf.len()` recorded bytes, or reports the end when
    /// the recording is exhausted.
    fn read(&mut self, buf: &mut [u8], _timeout: Duration) -> (r: Result<usize, TransportError>)
        ensures
            old(self).pending().len() == 0 ==> (r matches Err(TransportError::Eof)
                && final(buf)@ == old(buf)@
                && final(self).pending() == old(self).pending()
                && final(self).consumed() == old(self).consumed()),
            r matches Ok(n) ==> n == (if old(buf)@.len() < old(self).pending().len() {
                old(buf)@.len()
            } else {
                old(self).pending().len()
            }) && final(buf)@.take(n as int) == old(self).pending().take(n as int)
                && final(buf)@.skip(n as int) == old(buf)@.skip(n as int)
                && final(self).pending() == old(self).pending().skip(n as int) && final(self).consumed() == old(self).consumed() + final(buf)@.take(n as int),
            old(self).pending().len() > 0 ==> r is Ok,
            final(self).recording() == old(self).recording(),
            replay_consistent(*final(self)),
    {
        proof {
            use_type_invariant(&*self);
        }
        let rem = self.remaining();
        if rem == 0 {
            proof {
                assert(self.data@.take(self.pos as int) + self.data@.skip(self.pos as int)
                    =~= self.data@);
            }
            return Err(TransportError::Eof);
        }
        let n = if buf.len() < rem {
            buf.len()
        } else {
            rem
        };
        let total = self.data.len();
        let mut i: usize = 0;
        while i < n
            invariant
                self.pos + n <= self.data@.len(),
                self.data@.len() == total,
                i <= n,
                n <= buf@.len(),
                buf@.len() == old(buf)@.len(),
                forall|j: int| n <= j < buf@.len() ==> buf@[j] == old(buf)@[j],
                forall|j: int| 0 <= j < i ==> buf@[j] == self.data@[self.pos + j],
            decreases n - i,
        {
            buf[i] = self.data[self.pos + i];
            i = i + 1;
        }
        let ghost start = self.pos as int;
        self.pos = self.pos + n;
        proof {
            assert(buf@.take(n as int) =~= self.data@.subrange(start, start + n));
            assert(self.data@.take(self.pos as int) =~= self.data@.take(start) + buf@.take(
                n as int,
            ));
            assert(self.data@.skip(self.pos as int) =~= old(self).pending().skip(n as int));
        }
        proof {
            assert(self.data@.take(self.pos as int) + self.data@.skip(self.pos as int)
                =~= self.data@);
        }
        Ok(n)
    }

    /// A recording has no pending input to flush: consuming it here would
    /// destroy the data the replay exists to provide.
    fn discard_input(&mut self) -> (r: Result<(), TransportError>)
        ensures
            r is Ok,
            final(self).pending() == old(self).pending(),
            final(self).consumed() == old(self).consumed(),
            final(self).recording() == old(self).recording(),
            replay_consistent(*final(self)),
    {
        proof {
            use_type_invariant(&*self);
            assert(self.data@.take(self.pos as int) + self.data@.skip(self.pos as int)
                =~= self.data@);
        }
        Ok(())
    }
}

} // verus!
