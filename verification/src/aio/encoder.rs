//! The encoder that appends a frame's wire form to a `bytes` buffer.

use vstd::prelude::*;
use bytes::Bytes;
use bytes::BytesMut;
use crate::buffer;
use crate::buffer::{held, room, shared};
use crate::wire::{framed, framed_len, lemma_framed_len};

verus! {

/// SLIP encoder context.
pub struct SlipEncoder {
    inner: crate::SlipEncoder,
}

impl SlipEncoder {
    /// Whether each frame is opened by a delimiter, besides the one that
    /// closes it.
    pub closed spec fn begins_with_end(&self) -> bool {
        self.inner.begins_with_end()
    }

    /// Creates a new encoder context.
    pub fn new(begin_with_end: bool) -> (encoder: Self)
        ensures
            encoder.begins_with_end() == begin_with_end,
    {
        Self { inner: crate::SlipEncoder::new(begin_with_end) }
    }

    /// Appends `item` to `dst` as one frame.
    ///
    /// The frame has to fit into `dst`: a buffer cannot grow beyond
    /// `isize::MAX` bytes.
    pub fn encode(&mut self, item: Bytes, dst: &mut BytesMut) -> (result: Result<
        (),
        std::io::Error,
    >)
        requires
            room(held(*old(dst)).len()) >= framed_len(old(self).begins_with_end(), shared(item)),
        ensures
            final(self).begins_with_end() == old(self).begins_with_end(),
            result is Ok,
            held(*final(dst)) == held(*old(dst)) + framed(
                old(self).begins_with_end(),
                shared(item),
            ),
    {
        let mut wire: Vec<u8> = Vec::new();
        match self.inner.encode(buffer::shared_as_slice(&item), &mut wire) {
            Ok(_) => {
                proof {
                    lemma_framed_len(self.begins_with_end(), shared(item));
                }
                buffer::put_slice(dst, wire.as_slice());
                Ok(())
            },
            Err(error) => Err(error),
        }
    }
}

impl Default for SlipEncoder {
    /// An encoder that opens each frame with a delimiter.
    fn default() -> (encoder: Self)
        ensures
            encoder.begins_with_end(),
    {
        Self::new(true)
    }
}

} // verus!
