//! The decoder as a state machine over byte sequences.
//!
//! Every decoder of this crate is a view of one [`Machine`]: a parse state
//! and the bytes of the frame in progress. [`step`] says how the machine
//! reacts to one byte, [`scan`] what one call of `decode` does with a chunk,
//! and [`signals`] with [`settle`] what a whole stream amounts to.
//!
//! | State | Input | Action | Next state |
//! |---|---|---|---|
//! | `Normal` | `END`, buffer not empty | hand out the buffer as a frame | `Normal` |
//! | `Normal` | `END`, buffer empty | nothing | `Normal` |
//! | `Normal` | `ESC` | nothing | `Escaping` |
//! | `Normal` | any other byte | store the byte | `Normal` |
//! | `Escaping` | `ESC_END` | store `END` | `Normal` |
//! | `Escaping` | `ESC_ESC` | store `ESC` | `Normal` |
//! | `Escaping` | any other byte | report `FramingError` | `ErrorRecovery` |
//! | `ErrorRecovery` | `END` | drop the buffer | `Normal` |
//! | `ErrorRecovery` | any other byte | nothing | `ErrorRecovery` |
//!
//! A byte is stored only while the buffer is under its bound. At the bound
//! the machine reports `OversizedPacket` instead and stays as it is, so that
//! the caller decides what becomes of the frame.

use vstd::prelude::*;
use crate::{END, ESC, ESC_END, ESC_ESC};

verus! {

/// Where the decoder stands between two bytes.
#[derive(Clone, Copy, Debug, PartialEq, Eq, Structural)]
pub enum State {
    /// Payload bytes are collected as they come.
    Normal,
    /// An escape byte was read; the next byte says which payload byte it
    /// stands for.
    Escaping,
    /// A fault was met; everything up to the next delimiter is dropped.
    ErrorRecovery,
}

/// A decoder, seen as a value: its state and the frame in progress.
pub ghost struct Machine {
    pub state: State,
    pub buffer: Seq<u8>,
}

/// What a decoder reports to its caller.
pub ghost enum Signal {
    /// A delimiter closed a frame with this payload.
    Frame(Seq<u8>),
    /// An escape byte was followed by a byte that is no escape code.
    FramingError,
    /// A payload byte arrived while the buffer was at its bound.
    OversizedPacket,
}

/// The outcome of one call of `decode` on a chunk.
pub ghost struct Scan {
    /// The decoder after the call.
    pub machine: Machine,
    /// How many bytes of the chunk the call took.
    pub consumed: nat,
    /// What the call reports: nothing, if the chunk ran out first.
    pub signal: Option<Signal>,
}

impl Machine {
    /// A decoder that has seen nothing yet, or has just finished a frame.
    pub open spec fn fresh() -> Machine {
        Machine { state: State::Normal, buffer: Seq::empty() }
    }

    /// The same buffer under another state.
    pub open spec fn to(self, state: State) -> Machine {
        Machine { state, buffer: self.buffer }
    }
}

/// Whether a buffer of `len` bytes can take no more under `limit`.
pub open spec fn full(len: nat, limit: Option<nat>) -> bool {
    match limit {
        Some(bound) => len >= bound,
        None => false,
    }
}

/// Appending one decoded payload byte: refused, with the machine left as it
/// is, when the buffer is at its bound.
pub open spec fn store(m: Machine, limit: Option<nat>, value: u8) -> (Machine, Option<Signal>) {
    if full(m.buffer.len(), limit) {
        (m, Some(Signal::OversizedPacket))
    } else {
        (Machine { state: State::Normal, buffer: m.buffer.push(value) }, None)
    }
}

/// The payload byte that an input byte stands for in the machine's state, if
/// it stands for one: itself in `Normal`, unless it is a token, and the byte
/// that an escape code names in `Escaping`.
pub open spec fn decoded(m: Machine, value: u8) -> Option<u8> {
    match m.state {
        State::Normal => if value == END || value == ESC {
            None
        } else {
            Some(value)
        },
        State::Escaping => if value == ESC_END {
            Some(END)
        } else if value == ESC_ESC {
            Some(ESC)
        } else {
            None
        },
        State::ErrorRecovery => None,
    }
}

/// The reaction of the machine to an input byte that stands for no payload
/// byte: a delimiter, an escape byte, a fault, or garbage that is skipped.
pub open spec fn react(m: Machine, value: u8) -> (Machine, Option<Signal>) {
    match m.state {
        State::Normal => {
            if value == END {
                if m.buffer.len() > 0 {
                    (Machine::fresh(), Some(Signal::Frame(m.buffer)))
                } else {
                    (m, None)
                }
            } else {
                (m.to(State::Escaping), None)
            }
        },
        State::Escaping => (m.to(State::ErrorRecovery), Some(Signal::FramingError)),
        State::ErrorRecovery => {
            if value == END {
                (Machine::fresh(), None)
            } else {
                (m, None)
            }
        },
    }
}

/// The reaction of the machine to one byte of input.
pub open spec fn step(m: Machine, limit: Option<nat>, value: u8) -> (Machine, Option<Signal>) {
    match decoded(m, value) {
        Some(payload) => store(m, limit, payload),
        None => react(m, value),
    }
}

/// The payload byte that one byte of input appends to the buffer, if it
/// appends one.
pub open spec fn output(m: Machine, limit: Option<nat>, value: u8) -> Seq<u8> {
    match decoded(m, value) {
        Some(payload) => if full(m.buffer.len(), limit) {
            Seq::empty()
        } else {
            seq![payload]
        },
        None => Seq::empty(),
    }
}

/// The payload bytes that one call of `decode` appends, in order.
pub open spec fn emitted(m: Machine, limit: Option<nat>, input: Seq<u8>) -> Seq<u8>
    decreases input.len(),
{
    if input.len() == 0 {
        Seq::empty()
    } else {
        let (next, signal) = step(m, limit, input[0]);
        if signal is Some {
            Seq::empty()
        } else {
            output(m, limit, input[0]) + emitted(next, limit, input.skip(1))
        }
    }
}

/// One call of `decode`: bytes are taken from the front of `input` until one
/// of them raises a signal or none is left.
pub open spec fn scan(m: Machine, limit: Option<nat>, input: Seq<u8>) -> Scan
    decreases input.len(),
{
    if input.len() == 0 {
        Scan { machine: m, consumed: 0, signal: None }
    } else {
        let (next, signal) = step(m, limit, input[0]);
        if signal is Some {
            Scan { machine: next, consumed: 1, signal }
        } else {
            let rest = scan(next, limit, input.skip(1));
            Scan { machine: rest.machine, consumed: rest.consumed + 1, signal: rest.signal }
        }
    }
}

/// Everything that a stream makes the decoder report, in order, when the
/// caller goes on after each signal with the bytes that are left.
pub open spec fn signals(m: Machine, limit: Option<nat>, input: Seq<u8>) -> Seq<Signal>
    decreases input.len(),
{
    if input.len() == 0 {
        Seq::empty()
    } else {
        let (next, signal) = step(m, limit, input[0]);
        let rest = signals(next, limit, input.skip(1));
        match signal {
            Some(s) => seq![s] + rest,
            None => rest,
        }
    }
}

/// The decoder after a whole stream.
pub open spec fn settle(m: Machine, limit: Option<nat>, input: Seq<u8>) -> Machine
    decreases input.len(),
{
    if input.len() == 0 {
        m
    } else {
        settle(step(m, limit, input[0]).0, limit, input.skip(1))
    }
}

/// The frames among a sequence of signals, in order.
pub open spec fn frames(signals: Seq<Signal>) -> Seq<Seq<u8>>
    decreases signals.len(),
{
    if signals.len() == 0 {
        Seq::empty()
    } else {
        let earlier = frames(signals.drop_last());
        match signals.last() {
            Signal::Frame(payload) => earlier.push(payload),
            _ => earlier,
        }
    }
}

/// Feeding a stream chunk by chunk: the decoder after the last chunk, and
/// everything that it reported on the way.
pub open spec fn fed(m: Machine, limit: Option<nat>, chunks: Seq<Seq<u8>>) -> (
    Machine,
    Seq<Signal>,
)
    decreases chunks.len(),
{
    if chunks.len() == 0 {
        (m, Seq::empty())
    } else {
        let later = fed(settle(m, limit, chunks.first()), limit, chunks.drop_first());
        (later.0, signals(m, limit, chunks.first()) + later.1)
    }
}

/// What a stream decodes to, from a decoder that has seen nothing yet.
pub open spec fn decode_all(limit: Option<nat>, input: Seq<u8>) -> Seq<Seq<u8>> {
    frames(signals(Machine::fresh(), limit, input))
}

/// A scan that has taken `taken` bytes without a signal and stands at
/// machine `now` ends as the scan of the remaining bytes from `now` does,
/// `taken` bytes further on.
pub open spec fn resumed(rest: Scan, taken: nat) -> Scan {
    Scan { machine: rest.machine, consumed: rest.consumed + taken, signal: rest.signal }
}

/// Taking the first byte of the remainder keeps a scan in step with the
/// scan of the whole input.
pub proof fn lemma_scan_advance(
    start: Machine,
    now: Machine,
    limit: Option<nat>,
    input: Seq<u8>,
    taken: nat,
)
    requires
        taken < input.len(),
        scan(start, limit, input) == resumed(scan(now, limit, input.skip(taken as int)), taken),
    ensures
        ({
            let (next, signal) = step(now, limit, input[taken as int]);
            if signal is Some {
                scan(start, limit, input) == (Scan {
                    machine: next,
                    consumed: taken + 1,
                    signal,
                })
            } else {
                scan(start, limit, input) == resumed(
                    scan(next, limit, input.skip(taken + 1 as int)),
                    taken + 1,
                )
            }
        }),
{
    assert(input.skip(taken as int).skip(1) == input.skip(taken + 1 as int));
}

/// Taking the first byte of the remainder keeps the bytes appended so far
/// in step with those of the whole call.
pub proof fn lemma_emitted_advance(
    now: Machine,
    limit: Option<nat>,
    input: Seq<u8>,
    taken: nat,
)
    requires
        taken < input.len(),
    ensures
        ({
            let (next, signal) = step(now, limit, input[taken as int]);
            emitted(now, limit, input.skip(taken as int)) == if signal is Some {
                Seq::<u8>::empty()
            } else {
                output(now, limit, input[taken as int]) + emitted(
                    next,
                    limit,
                    input.skip(taken + 1 as int),
                )
            }
        }),
{
    assert(input.skip(taken as int).skip(1) == input.skip(taken + 1 as int));
}

} // verus!
