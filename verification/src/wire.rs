//! The wire format, as functions on byte sequences.

use vstd::prelude::*;
use crate::{END, ESC, ESC_END, ESC_ESC};

verus! {

/// Whether a payload byte collides with a protocol token and has to be
/// escaped on the wire.
pub open spec fn reserved(value: u8) -> bool {
    value == END || value == ESC
}

/// The wire form of one payload byte.
pub open spec fn escaped(value: u8) -> Seq<u8> {
    if value == END {
        seq![ESC, ESC_END]
    } else if value == ESC {
        seq![ESC, ESC_ESC]
    } else {
        seq![value]
    }
}

/// The wire form of a payload: the wire forms of its bytes, in order.
pub open spec fn stuffed(frame: Seq<u8>) -> Seq<u8>
    decreases frame.len(),
{
    if frame.len() == 0 {
        Seq::empty()
    } else {
        stuffed(frame.drop_last()) + escaped(frame.last())
    }
}

/// How many bytes of a payload have to be escaped.
pub open spec fn reserved_count(frame: Seq<u8>) -> nat
    decreases frame.len(),
{
    if frame.len() == 0 {
        0
    } else {
        reserved_count(frame.drop_last()) + if reserved(frame.last()) {
            1nat
        } else {
            0nat
        }
    }
}

/// A whole frame on the wire: an optional opening delimiter, the stuffed
/// payload, and the closing delimiter.
pub open spec fn framed(begin_with_end: bool, frame: Seq<u8>) -> Seq<u8> {
    let opening = if begin_with_end {
        seq![END]
    } else {
        Seq::<u8>::empty()
    };
    opening + stuffed(frame) + seq![END]
}

/// The number of bytes that `framed` produces.
pub open spec fn framed_len(begin_with_end: bool, frame: Seq<u8>) -> nat {
    frame.len() + reserved_count(frame) + if begin_with_end {
        2nat
    } else {
        1nat
    }
}

/// Stuffing adds one byte for each reserved byte of the payload.
pub proof fn lemma_stuffed_len(frame: Seq<u8>)
    ensures
        stuffed(frame).len() == frame.len() + reserved_count(frame),
    decreases frame.len(),
{
    if frame.len() > 0 {
        lemma_stuffed_len(frame.drop_last());
    }
}

/// A frame on the wire is as long as its payload, plus one byte for each
/// reserved byte in it, plus its delimiters.
pub proof fn lemma_framed_len(begin_with_end: bool, frame: Seq<u8>)
    ensures
        framed(begin_with_end, frame).len() == framed_len(begin_with_end, frame),
        frame.len() + 1 <= framed(begin_with_end, frame).len() <= 2 * frame.len() + 2,
{
    lemma_stuffed_len(frame);
    lemma_reserved_count_bound(frame);
}

/// No payload has more reserved bytes than bytes.
pub proof fn lemma_reserved_count_bound(frame: Seq<u8>)
    ensures
        reserved_count(frame) <= frame.len(),
    decreases frame.len(),
{
    if frame.len() > 0 {
        lemma_reserved_count_bound(frame.drop_last());
    }
}

/// Stuffing one more byte appends that byte's wire form.
pub proof fn lemma_stuffed_push(frame: Seq<u8>, value: u8)
    ensures
        stuffed(frame.push(value)) == stuffed(frame) + escaped(value),
        reserved_count(frame.push(value)) == reserved_count(frame) + if reserved(value) {
            1nat
        } else {
            0nat
        },
{
    assert(frame.push(value).drop_last() == frame);
}

/// Stuffing distributes over concatenation.
pub proof fn lemma_stuffed_concat(head: Seq<u8>, tail: Seq<u8>)
    ensures
        stuffed(head + tail) == stuffed(head) + stuffed(tail),
    decreases tail.len(),
{
    if tail.len() > 0 {
        lemma_stuffed_concat(head, tail.drop_last());
        assert((head + tail).drop_last() == head + tail.drop_last());
        assert(stuffed(head) + (stuffed(tail.drop_last()) + escaped(tail.last())) == (stuffed(head)
            + stuffed(tail.drop_last())) + escaped(tail.last()));
    }
}

/// The reserved bytes of a payload are those before a cut and those after
/// it.
pub proof fn lemma_split_count(frame: Seq<u8>, at: int)
    requires
        0 <= at <= frame.len(),
    ensures
        reserved_count(frame) == reserved_count(frame.take(at)) + reserved_count(frame.skip(at)),
    decreases frame.len() - at,
{
    if at == frame.len() {
        assert(frame.take(at) == frame);
    } else {
        lemma_split_count(frame, at + 1);
        lemma_stuffed_push(frame.take(at), frame[at]);
        assert(frame.take(at).push(frame[at]) == frame.take(at + 1));
        lemma_reserved_front(frame.skip(at));
        assert(frame.skip(at).skip(1) == frame.skip(at + 1));
    }
}

/// The reserved bytes of a payload, counted from its first byte.
pub proof fn lemma_reserved_front(frame: Seq<u8>)
    requires
        frame.len() > 0,
    ensures
        reserved_count(frame) == reserved_count(frame.skip(1)) + if reserved(frame[0]) {
            1nat
        } else {
            0nat
        },
    decreases frame.len(),
{
    if frame.len() == 1 {
        assert(reserved_count(frame.drop_last()) == 0);
    } else {
        lemma_reserved_front(frame.drop_last());
        assert(frame.drop_last().skip(1) == frame.skip(1).drop_last());
    }
}

} // verus!
