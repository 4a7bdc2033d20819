//! The encoder that writes a frame's wire form into a sink of the caller's.

use vstd::prelude::*;
use crate::wire::{escaped, framed, framed_len, reserved_count, stuffed};
use crate::wire::{lemma_framed_len, lemma_stuffed_push};
use crate::{END, ESC, ESC_END, ESC_ESC};

verus! {

/// Appends the wire form of one payload byte to `sink`.
pub fn stuff_byte(value: u8, sink: &mut Vec<u8>)
    ensures
        final(sink)@ == old(sink)@ + escaped(value),
{
    if value == END {
        sink.push(ESC);
        sink.push(ESC_END);
    } else if value == ESC {
        sink.push(ESC);
        sink.push(ESC_ESC);
    } else {
        sink.push(value);
    }
}

/// SLIP encoder context.
pub struct SlipEncoder {
    begin_with_end: bool,
}

impl SlipEncoder {
    /// Whether each frame is opened by a delimiter, besides the one that
    /// closes it.
    pub closed spec fn begins_with_end(&self) -> bool {
        self.begin_with_end
    }

    /// Creates a new encoder context.
    pub fn new(begin_with_end: bool) -> (encoder: Self)
        ensures
            encoder.begins_with_end() == begin_with_end,
    {
        Self { begin_with_end }
    }

    /// The number of bytes that `encode` writes for `buf`, unless it is
    /// more than a `usize` can say.
    pub fn encoded_len(&self, buf: &[u8]) -> (len: Option<usize>)
        ensures
            len == if framed_len(self.begins_with_end(), buf@) <= usize::MAX {
                Some(framed_len(self.begins_with_end(), buf@) as usize)
            } else {
                None
            },
    {
        let mut extra: usize = 0;
        let mut at: usize = 0;
        while at < buf.len()
            invariant
                at <= buf.len(),
                extra == reserved_count(buf@.take(at as int)),
                extra <= at,
            decreases buf.len() - at,
        {
            proof {
                lemma_stuffed_push(buf@.take(at as int), buf@[at as int]);
                assert(buf@.take(at as int).push(buf@[at as int]) == buf@.take(at + 1));
            }
            if buf[at] == END || buf[at] == ESC {
                extra = extra + 1;
            }
            at = at + 1;
        }
        assert(buf@.take(buf.len() as int) == buf@);
        let delimiters: usize = if self.begin_with_end {
            2
        } else {
            1
        };
        match buf.len().checked_add(extra) {
            Some(stuffed) => stuffed.checked_add(delimiters),
            None => None,
        }
    }

    /// Encodes the given buffer in a SLIP frame and appends it to the sink.
    ///
    /// Returns the number of bytes appended. Appending to a vector cannot
    /// fail, so the result is always `Ok`.
    pub fn encode(&mut self, buf: &[u8], sink: &mut Vec<u8>) -> (result: std::io::Result<usize>)
        ensures
            final(self).begins_with_end() == old(self).begins_with_end(),
            final(sink)@ == old(sink)@ + framed(old(self).begins_with_end(), buf@),
            result matches Ok(len) && len == framed_len(old(self).begins_with_end(), buf@),
    {
        let ghost before = sink@;
        let ghost opening = if self.begin_with_end {
            seq![END]
        } else {
            Seq::<u8>::empty()
        };
        let start = sink.len();
        if self.begin_with_end {
            sink.push(END);
        }
        let mut at: usize = 0;
        while at < buf.len()
            invariant
                at <= buf.len(),
                sink@ == before + opening + stuffed(buf@.take(at as int)),
            decreases buf.len() - at,
        {
            proof {
                lemma_stuffed_push(buf@.take(at as int), buf@[at as int]);
                assert(buf@.take(at as int).push(buf@[at as int]) == buf@.take(at + 1));
            }
            stuff_byte(buf[at], sink);
            at = at + 1;
        }
        sink.push(END);
        proof {
            assert(buf@.take(buf.len() as int) == buf@);
            lemma_framed_len(self.begin_with_end, buf@);
        }
        Ok(sink.len() - start)
    }
}

impl Default for SlipEncoder {
    /// An encoder that opens each frame with a delimiter.
    fn default() -> (encoder: Self)
        ensures
            encoder.begins_with_end(),
    {
        Self::new(true)
    }
}

} // verus!
