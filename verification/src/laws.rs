//! What follows from the wire format and the machine: decoding undoes
//! encoding, chunk boundaries do not matter, a fault is left behind at the
//! next delimiter, and a frame beyond the bound is reported, not cut.

use vstd::prelude::*;
use crate::machine::{decode_all, emitted, fed, frames, full, output, resumed, scan, settle};
use crate::machine::{signals, step, store};
use crate::machine::{Machine, Scan, Signal, State};
use crate::wire::{escaped, framed, stuffed};
use crate::wire::{lemma_stuffed_concat, lemma_stuffed_push};
use crate::{END, ESC, ESC_END, ESC_ESC};

verus! {

/// The transition table of the decoder, row by row.
pub proof fn law_transitions(m: Machine, limit: Option<nat>, value: u8)
    ensures
        m.state == State::Normal && value == END && m.buffer.len() > 0 ==> step(m, limit, value)
            == (Machine::fresh(), Some(Signal::Frame(m.buffer))),
        m.state == State::Normal && value == END && m.buffer.len() == 0 ==> step(m, limit, value)
            == (m, None::<Signal>),
        m.state == State::Normal && value == ESC ==> step(m, limit, value) == (
            m.to(State::Escaping),
            None::<Signal>,
        ),
        m.state == State::Normal && value != END && value != ESC ==> step(m, limit, value)
            == store(m, limit, value),
        m.state == State::Escaping && value == ESC_END ==> step(m, limit, value) == store(
            m,
            limit,
            END,
        ),
        m.state == State::Escaping && value == ESC_ESC ==> step(m, limit, value) == store(
            m,
            limit,
            ESC,
        ),
        m.state == State::Escaping && value != ESC_END && value != ESC_ESC ==> step(
            m,
            limit,
            value,
        ) == (m.to(State::ErrorRecovery), Some(Signal::FramingError)),
        m.state == State::ErrorRecovery && value == END ==> step(m, limit, value) == (
            Machine::fresh(),
            None::<Signal>,
        ),
        m.state == State::ErrorRecovery && value != END ==> step(m, limit, value) == (
            m,
            None::<Signal>,
        ),
        full(m.buffer.len(), limit) ==> store(m, limit, value) == (
            m,
            Some(Signal::OversizedPacket),
        ),
        !full(m.buffer.len(), limit) ==> store(m, limit, value) == (
            Machine { state: State::Normal, buffer: m.buffer.push(value) },
            None::<Signal>,
        ),
{
}

/// A stream in two parts: the second part meets the decoder that the first
/// part left, and the reports of the two follow one another.
pub proof fn lemma_signals_concat(m: Machine, limit: Option<nat>, head: Seq<u8>, tail: Seq<u8>)
    ensures
        settle(m, limit, head + tail) == settle(settle(m, limit, head), limit, tail),
        signals(m, limit, head + tail) == signals(m, limit, head) + signals(
            settle(m, limit, head),
            limit,
            tail,
        ),
    decreases head.len(),
{
    if head.len() > 0 {
        assert((head + tail).skip(1) == head.skip(1) + tail);
        let (next, signal) = step(m, limit, head[0]);
        lemma_signals_concat(next, limit, head.skip(1), tail);
        if signal is Some {
            let first = signals(next, limit, head.skip(1));
            let second = signals(settle(next, limit, head.skip(1)), limit, tail);
            assert(seq![signal.unwrap()] + (first + second) == (seq![signal.unwrap()] + first)
                + second);
        }
    }
}

/// A call of `decode` on a chunk whose first part raises no signal goes
/// through that part and ends as a call on the rest does.
pub proof fn lemma_scan_concat(m: Machine, limit: Option<nat>, head: Seq<u8>, tail: Seq<u8>)
    requires
        signals(m, limit, head).len() == 0,
    ensures
        scan(m, limit, head + tail) == resumed(
            scan(settle(m, limit, head), limit, tail),
            head.len(),
        ),
        emitted(m, limit, head + tail) == emitted(m, limit, head) + emitted(
            settle(m, limit, head),
            limit,
            tail,
        ),
    decreases head.len(),
{
    if head.len() > 0 {
        assert((head + tail).skip(1) == head.skip(1) + tail);
        lemma_scan_concat(step(m, limit, head[0]).0, limit, head.skip(1), tail);
    }
}

/// What one call of `decode` reports is the first of the stream's reports,
/// and the calls that follow on the bytes it left report the others.
pub proof fn lemma_scan_then_rest(m: Machine, limit: Option<nat>, input: Seq<u8>)
    ensures
        ({
            let run = scan(m, limit, input);
            let rest = input.skip(run.consumed as int);
            &&& run.consumed <= input.len()
            &&& settle(m, limit, input) == settle(run.machine, limit, rest)
            &&& signals(m, limit, input) == match run.signal {
                Some(signal) => seq![signal] + signals(run.machine, limit, rest),
                None => Seq::empty(),
            }
            &&& run.signal is None ==> rest.len() == 0
        }),
    decreases input.len(),
{
    if input.len() > 0 {
        let (next, signal) = step(m, limit, input[0]);
        if signal is None {
            lemma_scan_then_rest(next, limit, input.skip(1));
            let taken = scan(next, limit, input.skip(1)).consumed;
            assert(input.skip(1).skip(taken as int) == input.skip(taken + 1 as int));
        }
    }
}

/// The wire form of one payload byte makes a decoder in `Normal` append
/// that byte, and nothing else.
pub proof fn lemma_escaped_decodes(m: Machine, limit: Option<nat>, value: u8)
    requires
        m.state == State::Normal,
        !full(m.buffer.len(), limit),
    ensures
        settle(m, limit, escaped(value)) == (Machine {
            state: State::Normal,
            buffer: m.buffer.push(value),
        }),
        signals(m, limit, escaped(value)).len() == 0,
        emitted(m, limit, escaped(value)) == seq![value],
{
    // One byte on the wire, or two: the definitions are unfolded that far.
    reveal_with_fuel(settle, 3);
    reveal_with_fuel(signals, 3);
    reveal_with_fuel(emitted, 3);
}

/// The wire form of a payload makes a decoder in `Normal` append the
/// payload, and nothing else, as long as the bound leaves room for it.
pub proof fn lemma_stuffed_decodes(m: Machine, limit: Option<nat>, frame: Seq<u8>)
    requires
        m.state == State::Normal,
        limit matches Some(bound) ==> m.buffer.len() + frame.len() <= bound,
    ensures
        settle(m, limit, stuffed(frame)) == (Machine {
            state: State::Normal,
            buffer: m.buffer + frame,
        }),
        signals(m, limit, stuffed(frame)).len() == 0,
        emitted(m, limit, stuffed(frame)) == frame,
    decreases frame.len(),
{
    if frame.len() > 0 {
        let front = frame.drop_last();
        let last = frame.last();
        lemma_stuffed_decodes(m, limit, front);
        let mid = Machine { state: State::Normal, buffer: m.buffer + front };
        lemma_escaped_decodes(mid, limit, last);
        lemma_signals_concat(m, limit, stuffed(front), escaped(last));
        lemma_scan_concat(m, limit, stuffed(front), escaped(last));
        assert((m.buffer + front).push(last) == m.buffer + frame);
    }
}

/// A chunk of one byte: the call takes it and reports what the step
/// reports.
pub proof fn lemma_one_byte(m: Machine, limit: Option<nat>, value: u8)
    ensures
        settle(m, limit, seq![value]) == step(m, limit, value).0,
        scan(m, limit, seq![value]) == (Scan {
            machine: step(m, limit, value).0,
            consumed: 1,
            signal: step(m, limit, value).1,
        }),
        signals(m, limit, seq![value]) == match step(m, limit, value).1 {
            Some(signal) => seq![signal],
            None => Seq::empty(),
        },
        emitted(m, limit, seq![value]) == if step(m, limit, value).1 is Some {
            Seq::<u8>::empty()
        } else {
            output(m, limit, value)
        },
{
    // After the one byte nothing is left.
    let next = step(m, limit, value).0;
    let rest = seq![value].skip(1);
    assert(settle(next, limit, rest) == next);
    assert(signals(next, limit, rest).len() == 0);
    assert(emitted(next, limit, rest).len() == 0);
    assert(scan(next, limit, rest).consumed == 0);
}

/// The opening of a frame on the wire, which is nothing or one delimiter.
pub open spec fn opening(begin_with_end: bool) -> Seq<u8> {
    if begin_with_end {
        seq![END]
    } else {
        Seq::empty()
    }
}

/// A frame on the wire without its closing delimiter makes a decoder that
/// has seen nothing yet collect the payload, and nothing else, as long as
/// the bound leaves room for it.
pub proof fn lemma_body_decodes(begin_with_end: bool, frame: Seq<u8>, limit: Option<nat>)
    requires
        limit matches Some(bound) ==> frame.len() <= bound,
    ensures
        framed(begin_with_end, frame) == opening(begin_with_end) + stuffed(frame) + seq![END],
        settle(Machine::fresh(), limit, opening(begin_with_end) + stuffed(frame)) == (Machine {
            state: State::Normal,
            buffer: frame,
        }),
        signals(Machine::fresh(), limit, opening(begin_with_end) + stuffed(frame)).len() == 0,
        emitted(Machine::fresh(), limit, opening(begin_with_end) + stuffed(frame)) == frame,
{
    let start = Machine::fresh();
    let head = opening(begin_with_end);
    assert(settle(start, limit, head) == start && signals(start, limit, head).len() == 0
        && emitted(start, limit, head).len() == 0) by {
        if begin_with_end {
            lemma_one_byte(start, limit, END);
        }
    }
    lemma_stuffed_decodes(start, limit, frame);
    lemma_signals_concat(start, limit, head, stuffed(frame));
    lemma_scan_concat(start, limit, head, stuffed(frame));
}

/// Decoding undoes encoding.
///
/// A decoder that has seen nothing yet, given the wire form of a payload of
/// at least one byte that its bound admits, reports that payload as one
/// frame, in one call that takes every byte, and is then again as if it had
/// seen nothing. An empty payload is left out: its wire form is delimiters
/// only, which a decoder skips.
pub proof fn law_round_trip(begin_with_end: bool, frame: Seq<u8>, limit: Option<nat>)
    requires
        frame.len() > 0,
        limit matches Some(bound) ==> frame.len() <= bound,
    ensures
        decode_all(limit, framed(begin_with_end, frame)) == seq![frame],
        signals(Machine::fresh(), limit, framed(begin_with_end, frame)) == seq![
            Signal::Frame(frame),
        ],
        settle(Machine::fresh(), limit, framed(begin_with_end, frame)) == Machine::fresh(),
        scan(Machine::fresh(), limit, framed(begin_with_end, frame)) == (Scan {
            machine: Machine::fresh(),
            consumed: framed(begin_with_end, frame).len(),
            signal: Some(Signal::Frame(frame)),
        }),
        emitted(Machine::fresh(), limit, framed(begin_with_end, frame)) == frame,
{
    let start = Machine::fresh();
    let body = opening(begin_with_end) + stuffed(frame);
    let closing = seq![END];
    let loaded = Machine { state: State::Normal, buffer: frame };
    // The payload is collected, and the closing delimiter hands it out.
    lemma_body_decodes(begin_with_end, frame, limit);
    lemma_one_byte(loaded, limit, END);
    lemma_signals_concat(start, limit, body, closing);
    lemma_scan_concat(start, limit, body, closing);
    assert(frames(seq![Signal::Frame(frame)]) == seq![frame]) by {
        reveal_with_fuel(frames, 2);
    }
}

/// An empty payload does not come back: its wire form is delimiters only,
/// and a decoder that has seen nothing yet skips them without a report.
pub proof fn law_empty_frame_is_skipped(begin_with_end: bool, limit: Option<nat>)
    ensures
        decode_all(limit, framed(begin_with_end, Seq::empty())).len() == 0,
        signals(Machine::fresh(), limit, framed(begin_with_end, Seq::empty())).len() == 0,
        settle(Machine::fresh(), limit, framed(begin_with_end, Seq::empty())) == Machine::fresh(),
{
    let start = Machine::fresh();
    let nothing = Seq::<u8>::empty();
    let body = opening(begin_with_end) + stuffed(nothing);
    lemma_body_decodes(begin_with_end, nothing, limit);
    lemma_one_byte(start, limit, END);
    lemma_signals_concat(start, limit, body, seq![END]);
}

/// Resynchronization.
///
/// A framing error leaves the decoder in `ErrorRecovery`, and from there
/// any bytes up to and including the next delimiter bring it back to
/// `Normal` with an empty buffer, without another report.
pub proof fn law_resynchronization(
    m: Machine,
    limit: Option<nat>,
    fault: u8,
    garbage: Seq<u8>,
)
    requires
        step(m, limit, fault).1 == Some(Signal::FramingError),
        forall|i: int| 0 <= i < garbage.len() ==> garbage[i] != END,
    ensures
        step(m, limit, fault).0.state == State::ErrorRecovery,
        settle(step(m, limit, fault).0, limit, garbage.push(END)) == Machine::fresh(),
        signals(step(m, limit, fault).0, limit, garbage.push(END)).len() == 0,
{
    lemma_recovery(step(m, limit, fault).0, limit, garbage);
}

/// From `ErrorRecovery`, bytes up to and including the next delimiter are
/// dropped without a report, and the decoder is then as if it had seen
/// nothing.
pub proof fn lemma_recovery(m: Machine, limit: Option<nat>, garbage: Seq<u8>)
    requires
        m.state == State::ErrorRecovery,
        forall|i: int| 0 <= i < garbage.len() ==> garbage[i] != END,
    ensures
        settle(m, limit, garbage.push(END)) == Machine::fresh(),
        signals(m, limit, garbage.push(END)).len() == 0,
        scan(m, limit, garbage.push(END)) == (Scan {
            machine: Machine::fresh(),
            consumed: garbage.len() + 1,
            signal: None,
        }),
        emitted(m, limit, garbage.push(END)).len() == 0,
    decreases garbage.len(),
{
    if garbage.len() == 0 {
        lemma_one_byte(m, limit, END);
        assert(garbage.push(END) == seq![END]);
    } else {
        // The first byte is skipped, and the rest is shorter garbage.
        assert(garbage.push(END).skip(1) == garbage.skip(1).push(END));
        lemma_recovery(m, limit, garbage.skip(1));
    }
}

/// The payload bytes that a call of `decode` appends continue the frame in
/// progress: with those collected before, they are the frame that the call
/// completes, or the buffer that it leaves. The one exception is a call
/// that starts in `ErrorRecovery` and reads a delimiter: what was collected
/// before is garbage, and the bytes appended stand alone.
pub proof fn law_emitted_continues(m: Machine, limit: Option<nat>, input: Seq<u8>)
    ensures
        ({
            let run = scan(m, limit, input);
            let out = emitted(m, limit, input);
            let collected = match run.signal {
                Some(Signal::Frame(frame)) => frame,
                _ => run.machine.buffer,
            };
            if m.state == State::ErrorRecovery {
                collected == out || (out.len() == 0 && collected == m.buffer)
            } else {
                collected == m.buffer + out
            }
        }),
    decreases input.len(),
{
    if input.len() > 0 {
        let (next, signal) = step(m, limit, input[0]);
        if signal is None {
            law_emitted_continues(next, limit, input.skip(1));
            // A step without a signal appends its output to the buffer,
            // unless it is the delimiter that ends a recovery.
            assert(next.buffer == m.buffer + output(m, limit, input[0]) || (m.state
                == State::ErrorRecovery && input[0] == END));
        }
    }
}

/// Chunk-boundary independence.
///
/// Cut into chunks in any way, a stream leaves the decoder where the
/// stream in one piece leaves it, with the same reports in the same order.
pub proof fn law_chunk_independence(m: Machine, limit: Option<nat>, chunks: Seq<Seq<u8>>)
    ensures
        fed(m, limit, chunks) == (
            settle(m, limit, chunks.flatten()),
            signals(m, limit, chunks.flatten()),
        ),
    decreases chunks.len(),
{
    if chunks.len() > 0 {
        let first = chunks.first();
        law_chunk_independence(settle(m, limit, first), limit, chunks.drop_first());
        lemma_signals_concat(m, limit, first, chunks.drop_first().flatten());
    }
}

/// A frame on the wire, cut into chunks in any way and fed to a decoder
/// that has seen nothing yet, comes out as the one frame that it comes out
/// as in one piece.
pub proof fn law_chunked_round_trip(
    begin_with_end: bool,
    frame: Seq<u8>,
    limit: Option<nat>,
    chunks: Seq<Seq<u8>>,
)
    requires
        frame.len() > 0,
        limit matches Some(bound) ==> frame.len() <= bound,
        chunks.flatten() == framed(begin_with_end, frame),
    ensures
        fed(Machine::fresh(), limit, chunks) == (Machine::fresh(), seq![Signal::Frame(frame)]),
        frames(fed(Machine::fresh(), limit, chunks).1) == decode_all(
            limit,
            framed(begin_with_end, frame),
        ),
        frames(fed(Machine::fresh(), limit, chunks).1) == seq![frame],
{
    law_chunk_independence(Machine::fresh(), limit, chunks);
    law_round_trip(begin_with_end, frame, limit);
}

/// A payload byte on the wire that finds the buffer full, whatever follows
/// it: the call reports `OversizedPacket` at the byte that would have been
/// stored, and the buffer is as before.
pub proof fn lemma_full_refuses(m: Machine, limit: Option<nat>, value: u8, tail: Seq<u8>)
    requires
        m.state == State::Normal,
        full(m.buffer.len(), limit),
    ensures
        scan(m, limit, escaped(value) + tail) == (Scan {
            machine: if value == END || value == ESC {
                m.to(State::Escaping)
            } else {
                m
            },
            consumed: escaped(value).len(),
            signal: Some(Signal::OversizedPacket),
        }),
{
    if value == END || value == ESC {
        // The escape byte is taken; the escape code after it is refused.
        let rest = (escaped(value) + tail).skip(1);
        assert(scan(m.to(State::Escaping), limit, rest).signal == Some(Signal::OversizedPacket));
    }
}

/// Oversized input.
///
/// A decoder bounded by `bound` that has seen nothing yet, given the wire
/// form of a longer payload, reports `OversizedPacket` at the first payload
/// byte beyond the bound. No frame is reported before that: the payload is
/// not cut to fit.
pub proof fn law_oversized(begin_with_end: bool, frame: Seq<u8>, bound: nat)
    requires
        frame.len() > bound,
    ensures
        ({
            let run = scan(Machine::fresh(), Some(bound), framed(begin_with_end, frame));
            &&& run.signal == Some(Signal::OversizedPacket)
            &&& run.machine.buffer == frame.take(bound as int)
            &&& run.consumed == framed(begin_with_end, frame.take(bound + 1 as int)).len() - 1
        }),
        signals(Machine::fresh(), Some(bound), framed(begin_with_end, frame)).len() > 0,
        signals(Machine::fresh(), Some(bound), framed(begin_with_end, frame))[0]
            == Signal::OversizedPacket,
{
    let start = Machine::fresh();
    let limit = Some(bound);
    let kept = frame.take(bound as int);
    let over = frame[bound as int];
    let after = frame.skip(bound + 1 as int);
    let loaded = Machine { state: State::Normal, buffer: kept };
    // The wire in three parts: up to the bound, the byte beyond it, the rest.
    let head = opening(begin_with_end) + stuffed(kept);
    let tail = stuffed(after) + seq![END];
    assert(stuffed(frame) == stuffed(kept) + escaped(over) + stuffed(after)) by {
        assert(kept.push(over) + after == frame);
        lemma_stuffed_concat(kept.push(over), after);
        lemma_stuffed_push(kept, over);
    }
    assert(framed(begin_with_end, frame) == head + (escaped(over) + tail));
    assert(framed(begin_with_end, frame.take(bound + 1 as int)) == head + escaped(over)
        + seq![END]) by {
        assert(kept.push(over) == frame.take(bound + 1 as int));
        lemma_stuffed_push(kept, over);
    }
    // Up to the bound the payload is collected; the next byte finds no room.
    lemma_body_decodes(begin_with_end, kept, limit);
    lemma_scan_concat(start, limit, head, escaped(over) + tail);
    lemma_full_refuses(loaded, limit, over, tail);
    lemma_scan_then_rest(start, limit, framed(begin_with_end, frame));
}

} // verus!
