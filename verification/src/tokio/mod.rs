//! The codec over `bytes` buffers, in the shape of `tokio-util`'s codec
//! traits.

mod decoder;
pub use decoder::SlipDecoder;

mod encoder;
pub use encoder::SlipEncoder;
