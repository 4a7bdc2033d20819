//! The codec over `bytes` buffers, in the shape of `asynchronous-codec`'s
//! codec traits.

mod codec;
pub use codec::SlipCodec;
pub use codec::SlipCodecBuilder;

mod decoder;
pub use decoder::SlipDecoder;

mod encoder;
pub use encoder::SlipEncoder;
