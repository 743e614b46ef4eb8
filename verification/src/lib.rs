//! Conversion of fixed-size values to and from explicit little-endian and
//! big-endian binary representations, read from or written to a byte stream,
//! for code that must produce deterministic binary layouts regardless of the
//! machine it runs on.
//!
//! The library has two cooperating parts:
//!
//! - a transform primitive ([`order::reverse_bytes`], [`order::transform_bytes`])
//!   that rearranges a staged byte region in place so that it matches a
//!   requested byte order, and
//! - a conversion capability (the [`endian::Endian`] trait) that stages a
//!   value's bytes in a scratch buffer, applies the transform primitive, and
//!   moves the bytes to or from a stream, in checked (stream-based) and
//!   unchecked (caller-guaranteed capacity) forms.
//!
//! Streams are external collaborators described by the [`stream::ByteSink`]
//! and [`stream::ByteSource`] traits; [`stream::VecSink`],
//! [`stream::BoundedSink`] and [`stream::VecSource`] are verified in-memory
//! implementations.

pub mod endian;
pub mod order;
pub mod stream;
pub mod values;

pub use endian::decoded_value;
pub use endian::encoded_bytes;
pub use endian::lemma_checked_unchecked_agree;
pub use endian::lemma_encoded_len;
pub use endian::lemma_round_trip;
pub use endian::Endian;
pub use order::lemma_ordered_bytes_involutive;
pub use order::lemma_reverse_involutive;
pub use order::lemma_transform_involutive;
pub use order::lemma_transform_middle_byte;
pub use order::ordered_bytes;
pub use order::reverse_bytes;
pub use order::transform_bytes;
pub use order::ByteOrder;
pub use stream::BoundedSink;
pub use stream::ByteSink;
pub use stream::ByteSource;
pub use stream::EndianError;
pub use stream::VecSink;
pub use stream::VecSource;
pub use values::Empty;
