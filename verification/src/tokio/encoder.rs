//! The encoder that appends a frame's wire form to a `bytes` buffer.

use vstd::prelude::*;
use bytes::Bytes;
use bytes::BytesMut;
use crate::buffer;
use crate::buffer::{held, room, shared};
use crate::wire::{escaped, framed, framed_len, reserved_count, stuffed};
use crate::wire::{lemma_framed_len, lemma_reserved_count_bound, lemma_reserved_front};
use crate::wire::{lemma_split_count, lemma_stuffed_len, lemma_stuffed_push};
use crate::SlipError;
use crate::{END, ESC, ESC_END, ESC_ESC};

verus! {

/// SLIP encoder context.
pub struct SlipEncoder {}

impl SlipEncoder {
    /// Creates a new encoder context.
    pub fn new() -> (encoder: Self) {
        Self {  }
    }

    /// Appends `item` to `dst` as one frame, with a delimiter before it and
    /// one after it.
    ///
    /// The frame has to fit into `dst`: a buffer cannot grow beyond
    /// `isize::MAX` bytes.
    pub fn encode(&mut self, item: Bytes, dst: &mut BytesMut) -> (result: Result<(), SlipError>)
        requires
            room(held(*old(dst)).len()) >= framed_len(true, shared(item)),
        ensures
            result is Ok,
            held(*final(dst)) == held(*old(dst)) + framed(true, shared(item)),
    {
        let ghost before = held(*dst);
        let ghost input = shared(item);
        let ghost mut taken: int = 0;
        let mut item = item;
        proof {
            lemma_framed_len(true, input);
            lemma_reserved_count_bound(input);
        }
        buffer::reserve(dst, buffer::shared_len(&item));

        buffer::put_u8(dst, END);
        proof {
            lemma_split_count(input, 0);
        }

        while buffer::shared_has_remaining(&item)
            invariant
                before == held(*old(dst)),
                room(before.len()) >= framed_len(true, input),
                0 <= taken,
                taken + shared(item).len() == input.len(),
                shared(item) == input.skip(taken),
                held(*dst) == before + seq![END] + stuffed(input.take(taken)),
                reserved_count(input) == reserved_count(input.take(taken)) + reserved_count(
                    input.skip(taken),
                ),
            decreases shared(item).len(),
        {
            proof {
                lemma_stuffed_len(input.take(taken));
                lemma_reserved_count_bound(input.skip(taken));
                lemma_stuffed_push(input.take(taken), input[taken]);
                assert(input.take(taken).push(input[taken]) == input.take(taken + 1));
                lemma_split_count(input, taken + 1);
                lemma_reserved_front(input.skip(taken));
            }
            let value = buffer::shared_get_u8(&mut item);
            if value == END {
                buffer::put_u8(dst, ESC);
                buffer::put_u8(dst, ESC_END);
            } else if value == ESC {
                buffer::put_u8(dst, ESC);
                buffer::put_u8(dst, ESC_ESC);
            } else {
                buffer::put_u8(dst, value);
            }
            proof {
                taken = taken + 1;
            }
        }

        proof {
            assert(input.take(taken) == input);
            lemma_stuffed_len(input);
        }
        buffer::put_u8(dst, END);

        Ok(())
    }
}

} // verus!
