//! Serial Line Internet Protocol (SLIP, RFC 1055) framing.
//!
//! A frame travels as its bytes with every delimiter or escape byte replaced
//! by a two-byte escape sequence, closed by one delimiter. [`SlipEncoder`]
//! produces that form and [`SlipDecoder`] recovers frames from a stream that
//! arrives in chunks of any size. The modules [`aio`] and [`tokio`] hold the
//! same pair over `bytes` buffers, in the shape that the codec traits of
//! `asynchronous-codec` and `tokio-util` expect.
//!
//! What the wire looks like is defined in [`wire`], how a decoder reacts to
//! each byte in [`machine`], and what follows from the two in [`laws`].

use vstd::prelude::*;

pub mod wire;
pub mod machine;
pub mod laws;
pub mod buffer;

mod encoder;
pub use encoder::stuff_byte;
pub use encoder::SlipEncoder;

mod decoder;
pub use decoder::Action;
pub use decoder::SlipDecoder;
pub use decoder::SlipError;
pub use decoder::SlipResult;

pub mod aio;
pub mod tokio;

verus! {

/// End of packet: closes a frame, and may open one.
pub const END: u8 = 0xC0;

/// Escape: introduces a two-byte sequence that stands for one payload byte.
pub const ESC: u8 = 0xDB;

/// Second byte of the sequence that stands for a payload byte equal to `END`.
pub const ESC_END: u8 = 0xDC;

/// Second byte of the sequence that stands for a payload byte equal to `ESC`.
pub const ESC_ESC: u8 = 0xDD;

/// Largest packet that RFC 1055 recommends; the default bound of the
/// buffered decoders.
pub const MAX_PACKET_SIZE: usize = 1006;

} // verus!
