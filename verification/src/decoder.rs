//! The decoder that writes each frame into a sink of the caller's.

use vstd::prelude::*;
use vstd::slice::slice_subrange;
use vstd::std_specs::convert::FromSpecImpl;
use crate::machine::{decoded, emitted, full, react, scan, Machine, Signal, State};
use crate::machine::{lemma_emitted_advance, lemma_scan_advance, resumed};
use crate::{END, ESC, ESC_END, ESC_ESC};

verus! {

/// `std::io::Error`, carried through verified code as an opaque value.
#[verifier::external_type_specification]
#[verifier::external_body]
pub struct ExIoError(std::io::Error);

/// What a decoder can fail with.
#[derive(Debug)]
pub enum SlipError {
    /// An escape byte was followed by a byte that is no escape code.
    FramingError,
    /// A payload byte arrived for a buffer or a sink that can take no more.
    OversizedPacket,
    /// The input ran out before a frame was complete.
    EndOfStream,
    /// The source or the sink of the bytes failed.
    ReadError(std::io::Error),
}

/// The length of the frame that a call completed, or why there is none.
pub type SlipResult = std::result::Result<usize, SlipError>;

/// The `std::io::Error` of kind `Other` whose payload is the given text.
pub uninterp spec fn other_error(text: Seq<char>) -> std::io::Error;

/// `std::io::Error::new` with `ErrorKind::Other`: an error of that kind
/// around the text.
#[verifier::external_body]
fn new_other_error(text: &str) -> (error: std::io::Error)
    ensures
        error == other_error(text@),
{
    std::io::Error::new(std::io::ErrorKind::Other, text)
}

impl SlipError {
    /// The name of the variant, which is also what `Debug` prints for the
    /// three variants without a field.
    pub open spec fn spec_name(&self) -> Seq<char> {
        match self {
            SlipError::FramingError => "FramingError"@,
            SlipError::OversizedPacket => "OversizedPacket"@,
            SlipError::EndOfStream => "EndOfStream"@,
            SlipError::ReadError(_) => "ReadError"@,
        }
    }

    /// The name of the variant.
    pub fn name(&self) -> (name: &'static str)
        ensures
            name@ == self.spec_name(),
    {
        match self {
            SlipError::FramingError => "FramingError",
            SlipError::OversizedPacket => "OversizedPacket",
            SlipError::EndOfStream => "EndOfStream",
            SlipError::ReadError(_) => "ReadError",
        }
    }
}

impl From<SlipError> for std::io::Error {
    /// An I/O failure comes back as it was; each protocol error becomes an
    /// error of kind `Other` that carries the variant's name.
    fn from(err: SlipError) -> (error: std::io::Error) {
        match err {
            SlipError::ReadError(inner) => inner,
            other => new_other_error(other.name()),
        }
    }
}

impl FromSpecImpl<SlipError> for std::io::Error {
    open spec fn obeys_from_spec() -> bool {
        true
    }

    open spec fn from_spec(err: SlipError) -> std::io::Error {
        match err {
            SlipError::ReadError(inner) => inner,
            other => other_error(other.spec_name()),
        }
    }
}

impl From<std::io::Error> for SlipError {
    fn from(err: std::io::Error) -> (error: SlipError) {
        SlipError::ReadError(err)
    }
}

impl FromSpecImpl<std::io::Error> for SlipError {
    open spec fn obeys_from_spec() -> bool {
        true
    }

    open spec fn from_spec(err: std::io::Error) -> SlipError {
        SlipError::ReadError(err)
    }
}

/// What the driver of a decoder has to do with the byte it has just fed.
#[derive(Debug)]
pub enum Action {
    /// Nothing: the byte was a delimiter between frames, an escape byte, or
    /// garbage after a fault.
    Skip,
    /// Drop what the sink holds of the frame in progress: the delimiter
    /// after a fault was read.
    Discard,
    /// Append this payload byte to the sink, then report with
    /// [`SlipDecoder::push`] how the sink took it.
    Store(u8),
    /// The frame is complete: it is the last bytes appended, this many.
    Deliver(usize),
    /// Give up on the frame and report this error.
    Fail(SlipError),
}

/// SLIP decoder context.
///
/// It holds the parse state and the length of the frame in progress; the
/// payload itself goes to the sink of the caller. The bytes that went there
/// for the frame in progress are the decoder's view of its buffer.
pub struct SlipDecoder {
    count: usize,
    state: State,
    pending: Ghost<Seq<u8>>,
}

impl View for SlipDecoder {
    type V = Machine;

    closed spec fn view(&self) -> Machine {
        Machine { state: self.state, buffer: self.pending@ }
    }
}

impl SlipDecoder {
    #[verifier::type_invariant]
    spec fn counted(self) -> bool {
        self.count == self.pending@.len()
    }

    /// The bound that the width of the frame counter puts on a frame.
    pub open spec fn limit() -> Option<nat> {
        Some(usize::MAX as nat)
    }

    /// Whether `action` is what [`SlipDecoder::feed`] answers to a byte, for
    /// a decoder that stands at `m` before the call.
    pub open spec fn answers(action: Action, m: Machine, value: u8) -> bool {
        match decoded(m, value) {
            Some(payload) => if full(m.buffer.len(), Self::limit()) {
                action == Action::Fail(SlipError::OversizedPacket)
            } else {
                action == Action::Store(payload)
            },
            None => match react(m, value).1 {
                Some(Signal::Frame(frame)) => (action matches Action::Deliver(len) && len
                    == frame.len()),
                Some(_) => action == Action::Fail(SlipError::FramingError),
                None => if m.state == State::ErrorRecovery && value == END {
                    action == Action::Discard
                } else {
                    action == Action::Skip
                },
            },
        }
    }

    /// Whether `result` is what a call of `decode` returns for the signal
    /// that ended it.
    pub open spec fn replies(result: SlipResult, signal: Option<Signal>) -> bool {
        match signal {
            None => result == Err::<usize, SlipError>(SlipError::EndOfStream),
            Some(Signal::Frame(frame)) => (result matches Ok(len) && len == frame.len()),
            Some(Signal::FramingError) => result == Err::<usize, SlipError>(
                SlipError::FramingError,
            ),
            Some(Signal::OversizedPacket) => result == Err::<usize, SlipError>(
                SlipError::OversizedPacket,
            ),
        }
    }

    /// Creates a decoder that has seen no input.
    pub fn new() -> (decoder: Self)
        ensures
            decoder@ == Machine::fresh(),
        no_unwind
    {
        Self { count: 0usize, state: State::Normal, pending: Ghost(Seq::empty()) }
    }

    /// The number of payload bytes of the frame in progress.
    pub fn count(&self) -> (count: usize)
        ensures
            count == self@.buffer.len(),
    {
        proof {
            use_type_invariant(self);
        }
        self.count
    }

    /// Gives up on the frame in progress.
    ///
    /// The decoder goes into `ErrorRecovery`: it skips everything up to and
    /// including the next delimiter and decodes again from there. This is
    /// how a caller gets past an `OversizedPacket`, which leaves the decoder
    /// where it was.
    pub fn resynchronize(&mut self)
        ensures
            final(self)@ == old(self)@.to(State::ErrorRecovery),
        no_unwind
    {
        proof {
            use_type_invariant(&*self);
        }
        self.state = State::ErrorRecovery;
    }

    /// Takes one byte of input and decides what follows from it.
    ///
    /// A byte that stands for a payload byte leaves the decoder as it is:
    /// the answer is `Store`, and the decoder moves on when
    /// [`SlipDecoder::push`] reports that the sink took the byte. Every
    /// other byte moves the decoder as [`react`] says.
    pub fn feed(&mut self, value: u8) -> (action: Action)
        ensures
            Self::answers(action, old(self)@, value),
            final(self)@ == match decoded(old(self)@, value) {
                Some(_) => old(self)@,
                None => react(old(self)@, value).0,
            },
        no_unwind
    {
        proof {
            use_type_invariant(&*self);
        }
        match self.state {
            State::Normal => {
                if value == END {
                    if self.count > 0 {
                        let len = self.count;
                        *self = Self::new();
                        Action::Deliver(len)
                    } else {
                        Action::Skip
                    }
                } else if value == ESC {
                    self.state = State::Escaping;
                    Action::Skip
                } else {
                    self.store(value)
                }
            },
            State::ErrorRecovery => {
                if value == END {
                    *self = Self::new();
                    Action::Discard
                } else {
                    Action::Skip
                }
            },
            State::Escaping => {
                if value == ESC_END {
                    self.store(END)
                } else if value == ESC_ESC {
                    self.store(ESC)
                } else {
                    self.state = State::ErrorRecovery;
                    Action::Fail(SlipError::FramingError)
                }
            },
        }
    }

    /// The answer to a byte that stands for the payload byte `payload`.
    fn store(&self, payload: u8) -> (action: Action)
        ensures
            action == if full(self@.buffer.len(), Self::limit()) {
                Action::Fail(SlipError::OversizedPacket)
            } else {
                Action::Store(payload)
            },
        no_unwind
    {
        proof {
            use_type_invariant(self);
        }
        if self.count == usize::MAX {
            Action::Fail(SlipError::OversizedPacket)
        } else {
            Action::Store(payload)
        }
    }

    /// Records what the sink did with the payload byte `value`, of which it
    /// reports to have taken `written` bytes.
    ///
    /// A sink that took the byte moves the decoder on to `Normal`, with the
    /// byte counted. One that took nothing is full: the decoder stays as it
    /// is, and the frame is oversized.
    pub fn push(&mut self, value: u8, written: usize) -> (result: SlipResult)
        requires
            !full(old(self)@.buffer.len(), Self::limit()),
        ensures
            written == 1 ==> result == Ok::<usize, SlipError>(1) && final(self)@ == (Machine {
                state: State::Normal,
                buffer: old(self)@.buffer.push(value),
            }),
            written != 1 ==> result == Err::<usize, SlipError>(SlipError::OversizedPacket)
                && final(self)@ == old(self)@,
        no_unwind
    {
        proof {
            use_type_invariant(&*self);
        }
        if written != 1 {
            Err(SlipError::OversizedPacket)
        } else {
            *self = Self {
                count: self.count + 1,
                state: State::Normal,
                pending: Ghost(self.pending@.push(value)),
            };
            Ok(1usize)
        }
    }

    /// Decodes input until a frame is complete, a fault is met or the input
    /// runs out.
    ///
    /// The bytes taken leave `source`, so that what it still holds can go
    /// into the next call. Payload bytes are appended to `sink` as they are
    /// decoded, also those of a frame that this call does not complete. On
    /// `Ok(len)` the frame is the last `len` bytes that this decoder
    /// appended. Nothing is ever taken out of `sink`: after a fault the bytes
    /// of the broken frame stay there, and are no longer counted.
    pub fn decode(&mut self, source: &mut &[u8], sink: &mut Vec<u8>) -> (result: SlipResult)
        ensures
            ({
                let run = scan(old(self)@, Self::limit(), old(source)@);
                &&& final(self)@ == run.machine
                &&& final(source)@ == old(source)@.skip(run.consumed as int)
                &&& final(sink)@ == old(sink)@ + emitted(
                    old(self)@,
                    Self::limit(),
                    old(source)@,
                )
                &&& Self::replies(result, run.signal)
            }),
    {
        let ghost start = self@;
        let ghost input = source@;
        let ghost before = sink@;
        let ghost limit = Self::limit();
        let ghost mut taken: nat = 0;
        assert(input.skip(0) == input);
        while source.len() > 0
            invariant
                start == old(self)@,
                input == old(source)@,
                before == old(sink)@,
                limit == Self::limit(),
                taken + source@.len() == input.len(),
                source@ == input.skip(taken as int),
                scan(start, limit, input) == resumed(scan(self@, limit, source@), taken),
                before + emitted(start, limit, input) == sink@ + emitted(self@, limit, source@),
            decreases source.len(),
        {
            let value = source[0];
            let ghost held = sink@;
            proof {
                lemma_scan_advance(start, self@, limit, input, taken);
                lemma_emitted_advance(self@, limit, input, taken);
                taken = taken + 1;
            }
            *source = slice_subrange(*source, 1, source.len());
            match self.feed(value) {
                Action::Skip => {},
                Action::Discard => {},
                Action::Store(payload) => {
                    sink.push(payload);
                    let _ = self.push(payload, 1);
                    assert(sink@ + emitted(self@, limit, source@) == held + (seq![payload]
                        + emitted(self@, limit, source@)));
                },
                Action::Deliver(len) => {
                    return Ok(len);
                },
                Action::Fail(error) => {
                    return Err(error);
                },
            }
        }
        Err(SlipError::EndOfStream)
    }
}

impl Default for SlipDecoder {
    fn default() -> (decoder: Self)
        ensures
            decoder@ == Machine::fresh(),
    {
        Self::new()
    }
}

} // verus!
