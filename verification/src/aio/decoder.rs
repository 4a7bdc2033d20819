//! The bounded decoder that collects each frame in a buffer of its own.

use vstd::prelude::*;
use bytes::BytesMut;
use crate::buffer;
use crate::buffer::held;
use crate::machine::{lemma_scan_advance, resumed, scan, step, Machine, Signal, State};
use crate::Action;
use crate::SlipError;
use crate::MAX_PACKET_SIZE;

verus! {

/// SLIP decoding context.
///
/// The parsing is left to a [`crate::SlipDecoder`]; this type adds the
/// buffer that the payload is collected in, and the bound on it.
pub struct SlipDecoder {
    buf: BytesMut,
    capacity: usize,
    inner: crate::SlipDecoder,
}

impl View for SlipDecoder {
    type V = Machine;

    closed spec fn view(&self) -> Machine {
        self.inner@
    }
}

impl SlipDecoder {
    /// The buffer holds the frame in progress, and nothing else, and the
    /// bound is one that a buffer can reach.
    #[verifier::type_invariant]
    spec fn consistent(self) -> bool {
        &&& held(self.buf) == self.inner@.buffer
        &&& self.capacity <= isize::MAX
    }

    /// The most payload bytes that a frame may have: the bound that the
    /// decoder was made with.
    pub closed spec fn limit(&self) -> Option<nat> {
        Some(self.capacity as nat)
    }

    /// What a call of `decode` returns for the signal that ended it.
    pub open spec fn replies(
        result: Result<Option<BytesMut>, SlipError>,
        signal: Option<Signal>,
    ) -> bool {
        match signal {
            None => result matches Ok(None),
            Some(Signal::Frame(payload)) => (result matches Ok(Some(frame)) && held(frame)
                == payload),
            Some(Signal::FramingError) => result matches Err(SlipError::FramingError),
            Some(Signal::OversizedPacket) => result matches Err(SlipError::OversizedPacket),
        }
    }

    /// Creates a new context with the given maximum buffer size.
    pub fn with_capacity(capacity: usize) -> (decoder: Self)
        requires
            capacity <= isize::MAX,
        ensures
            decoder@ == Machine::fresh(),
            decoder.limit() == Some(capacity as nat),
    {
        Self {
            buf: buffer::with_capacity(capacity),
            capacity,
            inner: crate::SlipDecoder::new(),
        }
    }

    /// Gives up on the frame in progress.
    ///
    /// The decoder goes into `ErrorRecovery`: it skips everything up to and
    /// including the next delimiter, drops what it has collected, and
    /// decodes again from there. This is how a caller gets past an
    /// `OversizedPacket`, which leaves the decoder where it was.
    pub fn resynchronize(&mut self)
        ensures
            final(self)@ == old(self)@.to(State::ErrorRecovery),
            final(self).limit() == old(self).limit(),
    {
        proof {
            use_type_invariant(&*self);
        }
        self.inner.resynchronize();
    }

    /// Decodes the bytes of `src` until a frame is complete, a fault is met
    /// or `src` is empty.
    ///
    /// The bytes taken leave `src`; what follows the end of a frame stays
    /// there for the next call. `Ok(None)` says that `src` ran out first:
    /// the frame in progress is kept and goes on with the next call.
    pub fn decode(&mut self, src: &mut BytesMut) -> (result: Result<Option<BytesMut>, SlipError>)
        ensures
            final(self).limit() == old(self).limit(),
            ({
                let run = scan(old(self)@, old(self).limit(), held(*old(src)));
                &&& final(self)@ == run.machine
                &&& held(*final(src)) == held(*old(src)).skip(run.consumed as int)
                &&& Self::replies(result, run.signal)
            }),
    {
        proof {
            use_type_invariant(&*self);
        }
        let ghost start = self@;
        let ghost input = held(*src);
        let ghost limit = self.limit();
        let ghost mut taken: nat = 0;
        let bound = self.capacity;
        let have = buffer::len(&self.buf);
        if have < bound {
            buffer::reserve(&mut self.buf, bound - have);
        }
        while buffer::has_remaining(src)
            invariant
                start == old(self)@,
                input == held(*old(src)),
                limit == old(self).limit(),
                limit == self.limit(),
                limit == Some(bound as nat),
                bound <= isize::MAX,
                taken + held(*src).len() == input.len(),
                held(*src) == input.skip(taken as int),
                scan(start, limit, input) == resumed(scan(self@, limit, held(*src)), taken),
            decreases held(*src).len(),
        {
            proof {
                use_type_invariant(&*self);
                lemma_scan_advance(start, self@, limit, input, taken);
                taken = taken + 1;
            }
            let value = buffer::get_u8(src);

            match advance(&mut self.inner, &mut self.buf, bound, value) {
                Some(result) => {
                    return result;
                },
                None => {},
            }
        }
        Ok(None)
    }
}

/// One byte of input for a decoder and the buffer that holds its frame in
/// progress: the decoder decides, and the buffer follows.
///
/// The answer is what the call of `decode` returns, if this byte ends it.
fn advance(inner: &mut crate::SlipDecoder, buf: &mut BytesMut, bound: usize, value: u8) -> (outcome:
    Option<Result<Option<BytesMut>, SlipError>>)
    requires
        held(*old(buf)) == old(inner)@.buffer,
        bound <= isize::MAX,
    ensures
        held(*final(buf)) == final(inner)@.buffer,
        final(inner)@ == step(old(inner)@, Some(bound as nat), value).0,
        match step(old(inner)@, Some(bound as nat), value).1 {
            None => outcome is None,
            Some(signal) => (outcome matches Some(result) && SlipDecoder::replies(
                result,
                Some(signal),
            )),
        },
    no_unwind
{
    let ghost pending = held(*buf);
    match inner.feed(value) {
        Action::Skip => None,
        Action::Discard => {
            buffer::clear(buf);
            None
        },
        Action::Store(payload) => {
            if buffer::len(buf) >= bound {
                Some(Err(SlipError::OversizedPacket))
            } else {
                buffer::put_u8(buf, payload);
                let _ = inner.push(payload, 1);
                None
            }
        },
        Action::Deliver(len) => {
            let frame = buffer::split_to(buf, len);
            assert(pending.take(len as int) =~= pending);
            assert(pending.skip(len as int) =~= Seq::<u8>::empty());
            Some(Ok(Some(frame)))
        },
        Action::Fail(error) => Some(Err(error)),
    }
}

impl Default for SlipDecoder {
    /// A decoder bounded by the packet size that RFC 1055 recommends.
    fn default() -> (decoder: Self)
        ensures
            decoder@ == Machine::fresh(),
            decoder.limit() == Some(MAX_PACKET_SIZE as nat),
    {
        Self::with_capacity(MAX_PACKET_SIZE)
    }
}

} // verus!
