//! The decoder that collects each frame in a buffer of its own.

use vstd::prelude::*;
use bytes::BytesMut;
use crate::buffer;
use crate::buffer::held;
use crate::machine::{full, lemma_scan_advance, resumed, scan, Machine, Signal, State};
use crate::SlipError;
use crate::{END, ESC, ESC_END, ESC_ESC};

verus! {

/// What a buffer is allocated to hold when no bound is given.
const INITIAL_CAPACITY: usize = 1024;

/// SLIP decoding context.
pub struct SlipDecoder {
    buf: BytesMut,
    capacity: Option<usize>,
    state: State,
}

impl View for SlipDecoder {
    type V = Machine;

    closed spec fn view(&self) -> Machine {
        Machine { state: self.state, buffer: held(self.buf) }
    }
}

impl SlipDecoder {
    /// The bound is one that a buffer can reach.
    #[verifier::type_invariant]
    spec fn bounded(self) -> bool {
        match self.capacity {
            Some(capacity) => capacity <= isize::MAX,
            None => true,
        }
    }

    /// The most payload bytes that a frame may have: the bound that the
    /// decoder was made with, or the most that a buffer can hold.
    pub closed spec fn limit(&self) -> Option<nat> {
        match self.capacity {
            Some(capacity) => Some(capacity as nat),
            None => Some(isize::MAX as nat),
        }
    }

    /// What a call of `decode` returns for the signal that ended it.
    pub open spec fn replies(
        result: Result<Option<BytesMut>, SlipError>,
        signal: Option<Signal>,
    ) -> bool {
        match signal {
            None => result matches Ok(None),
            Some(Signal::Frame(payload)) => (result matches Ok(Some(frame)) && held(frame)
                == payload),
            Some(Signal::FramingError) => result matches Err(SlipError::FramingError),
            Some(Signal::OversizedPacket) => result matches Err(SlipError::OversizedPacket),
        }
    }

    /// Creates a new context without a maximum buffer size.
    pub fn new() -> (decoder: Self)
        ensures
            decoder@ == Machine::fresh(),
            decoder.limit() == Some(isize::MAX as nat),
    {
        Self {
            buf: buffer::with_capacity(INITIAL_CAPACITY),
            capacity: None,
            state: State::Normal,
        }
    }

    /// Creates a new context with the given maximum buffer size.
    pub fn with_capacity(capacity: usize) -> (decoder: Self)
        requires
            capacity <= isize::MAX,
        ensures
            decoder@ == Machine::fresh(),
            decoder.limit() == Some(capacity as nat),
    {
        Self { buf: buffer::with_capacity(capacity), capacity: Some(capacity), state: State::Normal }
    }

    /// Gives up on the frame in progress.
    ///
    /// The decoder goes into `ErrorRecovery`: it skips everything up to and
    /// including the next delimiter, drops what it has collected, and
    /// decodes again from there. This is how a caller gets past an
    /// `OversizedPacket`, which leaves the decoder where it was.
    pub fn resynchronize(&mut self)
        ensures
            final(self)@ == old(self)@.to(State::ErrorRecovery),
            final(self).limit() == old(self).limit(),
    {
        proof {
            use_type_invariant(&*self);
        }
        self.state = State::ErrorRecovery;
    }

    /// Appends one decoded payload byte, unless the buffer is at its bound.
    fn push(&mut self, value: u8) -> (result: Result<(), SlipError>)
        ensures
            final(self).limit() == old(self).limit(),
            final(self).state == old(self).state,
            full(held(old(self).buf).len(), old(self).limit()) ==> (result matches Err(
                SlipError::OversizedPacket,
            )) && held(final(self).buf) == held(old(self).buf),
            !full(held(old(self).buf).len(), old(self).limit()) ==> result is Ok && held(
                final(self).buf,
            ) == held(old(self).buf).push(value),
    {
        proof {
            use_type_invariant(&*self);
        }
        let bound = match self.capacity {
            Some(capacity) => capacity,
            None => isize::MAX as usize,
        };
        if buffer::len(&self.buf) >= bound {
            return Err(SlipError::OversizedPacket);
        }
        buffer::put_u8(&mut self.buf, value);
        Ok(())
    }

    /// Decodes the bytes of `src` until a frame is complete, a fault is met
    /// or `src` is empty.
    ///
    /// The bytes taken leave `src`; what follows the end of a frame stays
    /// there for the next call. `Ok(None)` says that `src` ran out first:
    /// the frame in progress is kept and goes on with the next call.
    pub fn decode(&mut self, src: &mut BytesMut) -> (result: Result<Option<BytesMut>, SlipError>)
        ensures
            final(self).limit() == old(self).limit(),
            ({
                let run = scan(old(self)@, old(self).limit(), held(*old(src)));
                &&& final(self)@ == run.machine
                &&& held(*final(src)) == held(*old(src)).skip(run.consumed as int)
                &&& Self::replies(result, run.signal)
            }),
    {
        let ghost start = self@;
        let ghost input = held(*src);
        let ghost limit = self.limit();
        let ghost mut taken: nat = 0;
        while buffer::has_remaining(src)
            invariant
                start == old(self)@,
                input == held(*old(src)),
                limit == old(self).limit(),
                limit == self.limit(),
                taken + held(*src).len() == input.len(),
                held(*src) == input.skip(taken as int),
                scan(start, limit, input) == resumed(scan(self@, limit, held(*src)), taken),
            decreases held(*src).len(),
        {
            proof {
                use_type_invariant(&*self);
                lemma_scan_advance(start, self@, limit, input, taken);
                taken = taken + 1;
            }
            let value = buffer::get_u8(src);

            match self.state {
                State::Normal => {
                    if value == END {
                        if buffer::has_remaining(&self.buf) {
                            return Ok(Some(buffer::split(&mut self.buf)));
                        }
                    } else if value == ESC {
                        self.state = State::Escaping;
                    } else {
                        self.push(value)?;
                    }
                },
                State::ErrorRecovery => {
                    if value == END {
                        buffer::clear(&mut self.buf);
                        self.state = State::Normal;
                    }
                },
                State::Escaping => {
                    if value == ESC_END {
                        self.push(END)?;
                        self.state = State::Normal;
                    } else if value == ESC_ESC {
                        self.push(ESC)?;
                        self.state = State::Normal;
                    } else {
                        self.state = State::ErrorRecovery;
                        return Err(SlipError::FramingError);
                    }
                },
            }
        }
        Ok(None)
    }
}

} // verus!
