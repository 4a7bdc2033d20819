//! Decoder and encoder as one codec, and the builder that configures it.

use vstd::prelude::*;
use bytes::Bytes;
use bytes::BytesMut;
use crate::aio::SlipDecoder;
use crate::aio::SlipEncoder;
use crate::buffer::{held, room, shared};
use crate::machine::{scan, Machine, State};
use crate::wire::{framed, framed_len};
use crate::SlipError;
use crate::MAX_PACKET_SIZE;

verus! {

/// A decoder and an encoder for the two directions of one connection.
pub struct SlipCodec {
    decoder: SlipDecoder,
    encoder: SlipEncoder,
}

/// The settings of a [`SlipCodec`] that is still to be built.
pub struct SlipCodecBuilder {
    begin_with_end: bool,
    capacity: usize,
}

impl View for SlipCodec {
    type V = Machine;

    /// The codec's decoder, as a machine.
    closed spec fn view(&self) -> Machine {
        self.decoder@
    }
}

impl SlipCodec {
    /// The most payload bytes that a decoded frame may have.
    pub closed spec fn limit(&self) -> Option<nat> {
        self.decoder.limit()
    }

    /// Whether each encoded frame is opened by a delimiter.
    pub closed spec fn begins_with_end(&self) -> bool {
        self.encoder.begins_with_end()
    }

    /// A codec with the default settings: frames of up to
    /// `MAX_PACKET_SIZE` bytes are decoded, and each encoded frame is opened
    /// by a delimiter.
    pub fn new() -> (codec: Self)
        ensures
            codec@ == Machine::fresh(),
            codec.limit() == Some(MAX_PACKET_SIZE as nat),
            codec.begins_with_end(),
    {
        Self { decoder: SlipDecoder::default(), encoder: SlipEncoder::default() }
    }

    /// A builder that starts from the default settings.
    pub fn builder() -> (builder: SlipCodecBuilder)
        ensures
            builder.spec_begin_with_end(),
            builder.spec_capacity() == MAX_PACKET_SIZE,
    {
        SlipCodecBuilder { begin_with_end: true, capacity: MAX_PACKET_SIZE }
    }

    /// Gives up on the frame that is being decoded, as
    /// [`SlipDecoder::resynchronize`] does.
    pub fn resynchronize(&mut self)
        ensures
            final(self)@ == old(self)@.to(State::ErrorRecovery),
            final(self).limit() == old(self).limit(),
            final(self).begins_with_end() == old(self).begins_with_end(),
    {
        self.decoder.resynchronize();
    }

    /// Decodes the bytes of `src` as [`SlipDecoder::decode`] does.
    pub fn decode(&mut self, src: &mut BytesMut) -> (result: Result<Option<BytesMut>, SlipError>)
        ensures
            final(self).limit() == old(self).limit(),
            final(self).begins_with_end() == old(self).begins_with_end(),
            ({
                let run = scan(old(self)@, old(self).limit(), held(*old(src)));
                &&& final(self)@ == run.machine
                &&& held(*final(src)) == held(*old(src)).skip(run.consumed as int)
                &&& SlipDecoder::replies(result, run.signal)
            }),
    {
        self.decoder.decode(src)
    }

    /// Appends `item` to `dst` as one frame, as [`SlipEncoder::encode`]
    /// does.
    pub fn encode(&mut self, item: Bytes, dst: &mut BytesMut) -> (result: Result<(), SlipError>)
        requires
            room(held(*old(dst)).len()) >= framed_len(old(self).begins_with_end(), shared(item)),
        ensures
            final(self)@ == old(self)@,
            final(self).limit() == old(self).limit(),
            final(self).begins_with_end() == old(self).begins_with_end(),
            result is Ok,
            held(*final(dst)) == held(*old(dst)) + framed(
                old(self).begins_with_end(),
                shared(item),
            ),
    {
        match self.encoder.encode(item, dst) {
            Ok(done) => Ok(done),
            Err(error) => Err(SlipError::ReadError(error)),
        }
    }
}

impl Default for SlipCodec {
    fn default() -> (codec: Self)
        ensures
            codec@ == Machine::fresh(),
            codec.limit() == Some(MAX_PACKET_SIZE as nat),
            codec.begins_with_end(),
    {
        Self::new()
    }
}

impl SlipCodecBuilder {
    /// Whether the codec will open each encoded frame with a delimiter.
    pub closed spec fn spec_begin_with_end(&self) -> bool {
        self.begin_with_end
    }

    /// The bound that the codec will put on the payload of a decoded frame.
    pub closed spec fn spec_capacity(&self) -> usize {
        self.capacity
    }

    /// Sets whether each encoded frame is opened by a delimiter.
    pub fn begin_with_end(self, begin_with_end: bool) -> (builder: Self)
        ensures
            builder.spec_begin_with_end() == begin_with_end,
            builder.spec_capacity() == self.spec_capacity(),
    {
        Self { begin_with_end, ..self }
    }

    /// Sets the bound on the payload of a decoded frame.
    pub fn capacity(self, capacity: usize) -> (builder: Self)
        ensures
            builder.spec_capacity() == capacity,
            builder.spec_begin_with_end() == self.spec_begin_with_end(),
    {
        Self { capacity, ..self }
    }

    /// Builds the codec.
    ///
    /// The bound has to be one that a buffer can be allocated for.
    pub fn build(self) -> (codec: SlipCodec)
        requires
            self.spec_capacity() <= isize::MAX,
        ensures
            codec@ == Machine::fresh(),
            codec.limit() == Some(self.spec_capacity() as nat),
            codec.begins_with_end() == self.spec_begin_with_end(),
    {
        SlipCodec {
            decoder: SlipDecoder::with_capacity(self.capacity),
            encoder: SlipEncoder::new(self.begin_with_end),
        }
    }
}

} // verus!
