//! A codec layer over byte streams.
//!
//! Fixed-width integers in either byte order, text of known length in
//! UTF-8 or UTF-16, and zero-terminated strings are read from any
//! [`ByteSource`] and written to any [`ByteSink`]. The streams are borrowed
//! for one operation at a time, and every operation says exactly which
//! bytes it takes and where it leaves the cursor.
pub mod byte_order;
pub mod codec;
pub mod primitives;
pub mod stream;
pub mod strings;
pub mod text;

pub use byte_order::ByteOrder;
pub use primitives::{ReadPrimitives, WritePrimitives};
pub use stream::{BoundedSink, ByteSeek, ByteSink, ByteSource, Cursor, SeekTo, StreamError};
pub use strings::{ReadStrings, WriteStrings};
pub use text::InvalidEncoding;
