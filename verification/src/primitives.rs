//! Fixed-width integers read from a source and written to a sink.
//!
//! Every method exists once per width, sign and byte order. The ones that
//! take the order as an argument do the work; the `_le`, `_be` and `_ne`
//! forms fix it to little-endian, big-endian and the order of the machine.
use crate::byte_order::{
    decode, decode_signed, encode, encode_signed, fits_signed, lemma_decode_bound,
    lemma_encode_len, lemma_pow256_values, pow256, to_signed, to_unsigned, ByteOrder, MAX_WIDTH,
};
use crate::codec::{decode_int, decode_uint, encode_int, encode_uint};
use crate::stream::{read_outcome, wrote, ByteSink, ByteSource, StreamError};
use vstd::prelude::*;

verus! {

/// The byte that carries the signed value `v`.
pub open spec fn byte_of(v: i8) -> u8 {
    to_unsigned(v as int, 1) as u8
}

/// A write of the `width`-byte encoding of `residue`, in one of the two
/// byte orders, took `before` to `after` and reported `r`.
pub open spec fn wrote_in_either_order<W: ByteSink>(
    before: W,
    after: W,
    residue: nat,
    width: nat,
    r: Result<usize, StreamError>,
) -> bool {
    ||| wrote(before, after, encode(ByteOrder::Little, residue, width), r)
    ||| wrote(before, after, encode(ByteOrder::Big, residue, width), r)
}

/// Reading integers from any source of bytes.
///
/// A read takes exactly as many bytes as the type is wide. With fewer left
/// it fails with [`StreamError::UnexpectedEndOfStream`], delivers no value
/// and leaves the source drained.
pub trait ReadPrimitives: ByteSource {
    /// Reads an unsigned integer of `width` bytes in the given byte order.
    fn read_uint(&mut self, width: usize, order: ByteOrder) -> (r: Result<u128, StreamError>)
        requires
            width <= MAX_WIDTH,
        ensures
            read_outcome(old(self).state(), final(self).state(), width as nat, r),
            r matches Ok(v) ==> v as nat == decode(
                order,
                old(self).state().remaining.take(width as int),
            ) && v < pow256(width as nat),
    {
        match self.read_exact(width) {
            Ok(bytes) => {
                proof {
                    lemma_decode_bound(order, bytes@);
                }
                Ok(decode_uint(bytes.as_slice(), order))
            },
            Err(e) => Err(e),
        }
    }

    /// Reads a two's-complement integer of `width` bytes in the given byte
    /// order.
    fn read_int(&mut self, width: usize, order: ByteOrder) -> (r: Result<i128, StreamError>)
        requires
            1 <= width <= MAX_WIDTH,
        ensures
            read_outcome(old(self).state(), final(self).state(), width as nat, r),
            r matches Ok(v) ==> v as int == decode_signed(
                order,
                old(self).state().remaining.take(width as int),
            ) && fits_signed(v as int, width as nat),
    {
        match self.read_exact(width) {
            Ok(bytes) => {
                proof {
                    lemma_decode_bound(order, bytes@);
                }
                Ok(decode_int(bytes.as_slice(), order))
            },
            Err(e) => Err(e),
        }
    }

    /// Reads a `u8`.
    fn read_u8(&mut self) -> (r: Result<u8, StreamError>)
        ensures
            read_outcome(old(self).state(), final(self).state(), 1, r),
            r matches Ok(v) ==> v == old(self).state().remaining[0],
    {
        match self.read_exact(1) {
            Ok(bytes) => Ok(bytes[0]),
            Err(e) => Err(e),
        }
    }

    /// Reads an `i8`.
    fn read_i8(&mut self) -> (r: Result<i8, StreamError>)
        ensures
            read_outcome(old(self).state(), final(self).state(), 1, r),
            r matches Ok(v) ==> v as int == to_signed(old(self).state().remaining[0] as nat, 1),
    {
        proof {
            lemma_pow256_values();
        }
        match self.read_exact(1) {
            Ok(bytes) => {
                let byte: u8 = bytes[0];
                if byte < 128 {
                    Ok(byte as i8)
                } else {
                    Ok((byte as i16 - 256) as i8)
                }
            },
            Err(e) => Err(e),
        }
    }

    /// Reads a `u8`. One byte has no order: the same as [`read_u8`](Self::read_u8).
    fn read_u8_le(&mut self) -> (r: Result<u8, StreamError>)
        ensures
            read_outcome(old(self).state(), final(self).state(), 1, r),
            r matches Ok(v) ==> v == old(self).state().remaining[0],
    {
        self.read_u8()
    }

    /// Reads a `u8`. One byte has no order: the same as [`read_u8`](Self::read_u8).
    fn read_u8_be(&mut self) -> (r: Result<u8, StreamError>)
        ensures
            read_outcome(old(self).state(), final(self).state(), 1, r),
            r matches Ok(v) ==> v == old(self).state().remaining[0],
    {
        self.read_u8()
    }

    /// Reads a `u8`. One byte has no order: the same as [`read_u8`](Self::read_u8).
    fn read_u8_ne(&mut self) -> (r: Result<u8, StreamError>)
        ensures
            read_outcome(old(self).state(), final(self).state(), 1, r),
            r matches Ok(v) ==> v == old(self).state().remaining[0],
    {
        self.read_u8()
    }

    /// Reads an `i8`. One byte has no order: the same as [`read_i8`](Self::read_i8).
    fn read_i8_le(&mut self) -> (r: Result<i8, StreamError>)
        ensures
            read_outcome(old(self).state(), final(self).state(), 1, r),
            r matches Ok(v) ==> v as int == to_signed(old(self).state().remaining[0] as nat, 1),
    {
        self.read_i8()
    }

    /// Reads an `i8`. One byte has no order: the same as [`read_i8`](Self::read_i8).
    fn read_i8_be(&mut self) -> (r: Result<i8, StreamError>)
        ensures
            read_outcome(old(self).state(), final(self).state(), 1, r),
            r matches Ok(v) ==> v as int == to_signed(old(self).state().remaining[0] as nat, 1),
    {
        self.read_i8()
    }

    /// Reads an `i8`. One byte has no order: the same as [`read_i8`](Self::read_i8).
    fn read_i8_ne(&mut self) -> (r: Result<i8, StreamError>)
        ensures
            read_outcome(old(self).state(), final(self).state(), 1, r),
            r matches Ok(v) ==> v as int == to_signed(old(self).state().remaining[0] as nat, 1),
    {
        self.read_i8()
    }

    /// Reads an `i16` in the given byte order.
    fn read_i16(&mut self, order: ByteOrder) -> (r: Result<i16, StreamError>)
        ensures
            read_outcome(old(self).state(), final(self).state(), 2, r),
            r matches Ok(v) ==> v as int == decode_signed(
                order,
                old(self).state().remaining.take(2),
            ),
    {
        proof {
            lemma_pow256_values();
        }
        match self.read_int(2, order) {
            Ok(v) => Ok(v as i16),
            Err(e) => Err(e),
        }
    }

    /// Reads an `i16`, little-endian.
    fn read_i16_le(&mut self) -> (r: Result<i16, StreamError>)
        ensures
            read_outcome(old(self).state(), final(self).state(), 2, r),
            r matches Ok(v) ==> v as int == decode_signed(
                ByteOrder::Little,
                old(self).state().remaining.take(2),
            ),
    {
        self.read_i16(ByteOrder::Little)
    }

    /// Reads an `i16`, big-endian.
    fn read_i16_be(&mut self) -> (r: Result<i16, StreamError>)
        ensures
            read_outcome(old(self).state(), final(self).state(), 2, r),
            r matches Ok(v) ==> v as int == decode_signed(
                ByteOrder::Big,
                old(self).state().remaining.take(2),
            ),
    {
        self.read_i16(ByteOrder::Big)
    }

    /// Reads an `i16` in the byte order of the machine, whichever of the
    /// two that is.
    fn read_i16_ne(&mut self) -> (r: Result<i16, StreamError>)
        ensures
            read_outcome(old(self).state(), final(self).state(), 2, r),
            r matches Ok(v) ==> {
                let bytes = old(self).state().remaining.take(2);
                ||| v as int == decode_signed(ByteOrder::Little, bytes)
                ||| v as int == decode_signed(ByteOrder::Big, bytes)
            },
    {
        self.read_i16(ByteOrder::native())
    }

    /// Reads a `u16` in the given byte order.
    fn read_u16(&mut self, order: ByteOrder) -> (r: Result<u16, StreamError>)
        ensures
            read_outcome(old(self).state(), final(self).state(), 2, r),
            r matches Ok(v) ==> v as nat == decode(order, old(self).state().remaining.take(2)),
    {
        proof {
            lemma_pow256_values();
        }
        match self.read_uint(2, order) {
            Ok(v) => Ok(v as u16),
            Err(e) => Err(e),
        }
    }

    /// Reads a `u16`, little-endian.
    fn read_u16_le(&mut self) -> (r: Result<u16, StreamError>)
        ensures
            read_outcome(old(self).state(), final(self).state(), 2, r),
            r matches Ok(v) ==> v as nat == decode(
                ByteOrder::Little,
                old(self).state().remaining.take(2),
            ),
    {
        self.read_u16(ByteOrder::Little)
    }

    /// Reads a `u16`, big-endian.
    fn read_u16_be(&mut self) -> (r: Result<u16, StreamError>)
        ensures
            read_outcome(old(self).state(), final(self).state(), 2, r),
            r matches Ok(v) ==> v as nat == decode(
                ByteOrder::Big,
                old(self).state().remaining.take(2),
            ),
    {
        self.read_u16(ByteOrder::Big)
    }

    /// Reads a `u16` in the byte order of the machine, whichever of the
    /// two that is.
    fn read_u16_ne(&mut self) -> (r: Result<u16, StreamError>)
        ensures
            read_outcome(old(self).state(), final(self).state(), 2, r),
            r matches Ok(v) ==> {
                let bytes = old(self).state().remaining.take(2);
                ||| v as nat == decode(ByteOrder::Little, bytes)
                ||| v as nat == decode(ByteOrder::Big, bytes)
            },
    {
        self.read_u16(ByteOrder::native())
    }

    /// Reads an `i32` in the given byte order.
    fn read_i32(&mut self, order: ByteOrder) -> (r: Result<i32, StreamError>)
        ensures
            read_outcome(old(self).state(), final(self).state(), 4, r),
            r matches Ok(v) ==> v as int == decode_signed(
                order,
                old(self).state().remaining.take(4),
            ),
    {
        proof {
            lemma_pow256_values();
        }
        match self.read_int(4, order) {
            Ok(v) => Ok(v as i32),
            Err(e) => Err(e),
        }
    }

    /// Reads an `i32`, little-endian.
    fn read_i32_le(&mut self) -> (r: Result<i32, StreamError>)
        ensures
            read_outcome(old(self).state(), final(self).state(), 4, r),
            r matches Ok(v) ==> v as int == decode_signed(
                ByteOrder::Little,
                old(self).state().remaining.take(4),
            ),
    {
        self.read_i32(ByteOrder::Little)
    }

    /// Reads an `i32`, big-endian.
    fn read_i32_be(&mut self) -> (r: Result<i32, StreamError>)
        ensures
            read_outcome(old(self).state(), final(self).state(), 4, r),
            r matches Ok(v) ==> v as int == decode_signed(
                ByteOrder::Big,
                old(self).state().remaining.take(4),
            ),
    {
        self.read_i32(ByteOrder::Big)
    }

    /// Reads an `i32` in the byte order of the machine, whichever of the
    /// two that is.
    fn read_i32_ne(&mut self) -> (r: Result<i32, StreamError>)
        ensures
            read_outcome(old(self).state(), final(self).state(), 4, r),
            r matches Ok(v) ==> {
                let bytes = old(self).state().remaining.take(4);
                ||| v as int == decode_signed(ByteOrder::Little, bytes)
                ||| v as int == decode_signed(ByteOrder::Big, bytes)
            },
    {
        self.read_i32(ByteOrder::native())
    }

    /// Reads a `u32` in the given byte order.
    fn read_u32(&mut self, order: ByteOrder) -> (r: Result<u32, StreamError>)
        ensures
            read_outcome(old(self).state(), final(self).state(), 4, r),
            r matches Ok(v) ==> v as nat == decode(order, old(self).state().remaining.take(4)),
    {
        proof {
            lemma_pow256_values();
        }
        match self.read_uint(4, order) {
            Ok(v) => Ok(v as u32),
            Err(e) => Err(e),
        }
    }

    /// Reads a `u32`, little-endian.
    fn read_u32_le(&mut self) -> (r: Result<u32, StreamError>)
        ensures
            read_outcome(old(self).state(), final(self).state(), 4, r),
            r matches Ok(v) ==> v as nat == decode(
                ByteOrder::Little,
                old(self).state().remaining.take(4),
            ),
    {
        self.read_u32(ByteOrder::Little)
    }

    /// Reads a `u32`, big-endian.
    fn read_u32_be(&mut self) -> (r: Result<u32, StreamError>)
        ensures
            read_outcome(old(self).state(), final(self).state(), 4, r),
            r matches Ok(v) ==> v as nat == decode(
                ByteOrder::Big,
                old(self).state().remaining.take(4),
            ),
    {
        self.read_u32(ByteOrder::Big)
    }

    /// Reads a `u32` in the byte order of the machine, whichever of the
    /// two that is.
    fn read_u32_ne(&mut self) -> (r: Result<u32, StreamError>)
        ensures
            read_outcome(old(self).state(), final(self).state(), 4, r),
            r matches Ok(v) ==> {
                let bytes = old(self).state().remaining.take(4);
                ||| v as nat == decode(ByteOrder::Little, bytes)
                ||| v as nat == decode(ByteOrder::Big, bytes)
            },
    {
        self.read_u32(ByteOrder::native())
    }

    /// Reads an `i64` in the given byte order.
    fn read_i64(&mut self, order: ByteOrder) -> (r: Result<i64, StreamError>)
        ensures
            read_outcome(old(self).state(), final(self).state(), 8, r),
            r matches Ok(v) ==> v as int == decode_signed(
                order,
                old(self).state().remaining.take(8),
            ),
    {
        proof {
            lemma_pow256_values();
        }
        match self.read_int(8, order) {
            Ok(v) => Ok(v as i64),
            Err(e) => Err(e),
        }
    }

    /// Reads an `i64`, little-endian.
    fn read_i64_le(&mut self) -> (r: Result<i64, StreamError>)
        ensures
            read_outcome(old(self).state(), final(self).state(), 8, r),
            r matches Ok(v) ==> v as int == decode_signed(
                ByteOrder::Little,
                old(self).state().remaining.take(8),
            ),
    {
        self.read_i64(ByteOrder::Little)
    }

    /// Reads an `i64`, big-endian.
    fn read_i64_be(&mut self) -> (r: Result<i64, StreamError>)
        ensures
            read_outcome(old(self).state(), final(self).state(), 8, r),
            r matches Ok(v) ==> v as int == decode_signed(
                ByteOrder::Big,
                old(self).state().remaining.take(8),
            ),
    {
        self.read_i64(ByteOrder::Big)
    }

    /// Reads an `i64` in the byte order of the machine, whichever of the
    /// two that is.
    fn read_i64_ne(&mut self) -> (r: Result<i64, StreamError>)
        ensures
            read_outcome(old(self).state(), final(self).state(), 8, r),
            r matches Ok(v) ==> {
                let bytes = old(self).state().remaining.take(8);
                ||| v as int == decode_signed(ByteOrder::Little, bytes)
                ||| v as int == decode_signed(ByteOrder::Big, bytes)
            },
    {
        self.read_i64(ByteOrder::native())
    }

    /// Reads a `u64` in the given byte order.
    fn read_u64(&mut self, order: ByteOrder) -> (r: Result<u64, StreamError>)
        ensures
            read_outcome(old(self).state(), final(self).state(), 8, r),
            r matches Ok(v) ==> v as nat == decode(order, old(self).state().remaining.take(8)),
    {
        proof {
            lemma_pow256_values();
        }
        match self.read_uint(8, order) {
            Ok(v) => Ok(v as u64),
            Err(e) => Err(e),
        }
    }

    /// Reads a `u64`, little-endian.
    fn read_u64_le(&mut self) -> (r: Result<u64, StreamError>)
        ensures
            read_outcome(old(self).state(), final(self).state(), 8, r),
            r matches Ok(v) ==> v as nat == decode(
                ByteOrder::Little,
                old(self).state().remaining.take(8),
            ),
    {
        self.read_u64(ByteOrder::Little)
    }

    /// Reads a `u64`, big-endian.
    fn read_u64_be(&mut self) -> (r: Result<u64, StreamError>)
        ensures
            read_outcome(old(self).state(), final(self).state(), 8, r),
            r matches Ok(v) ==> v as nat == decode(
                ByteOrder::Big,
                old(self).state().remaining.take(8),
            ),
    {
        self.read_u64(ByteOrder::Big)
    }

    /// Reads a `u64` in the byte order of the machine, whichever of the
    /// two that is.
    fn read_u64_ne(&mut self) -> (r: Result<u64, StreamError>)
        ensures
            read_outcome(old(self).state(), final(self).state(), 8, r),
            r matches Ok(v) ==> {
                let bytes = old(self).state().remaining.take(8);
                ||| v as nat == decode(ByteOrder::Little, bytes)
                ||| v as nat == decode(ByteOrder::Big, bytes)
            },
    {
        self.read_u64(ByteOrder::native())
    }

    /// Reads an `i128` in the given byte order.
    fn read_i128(&mut self, order: ByteOrder) -> (r: Result<i128, StreamError>)
        ensures
            read_outcome(old(self).state(), final(self).state(), 16, r),
            r matches Ok(v) ==> v as int == decode_signed(
                order,
                old(self).state().remaining.take(16),
            ),
    {
        self.read_int(16, order)
    }

    /// Reads an `i128`, little-endian.
    fn read_i128_le(&mut self) -> (r: Result<i128, StreamError>)
        ensures
            read_outcome(old(self).state(), final(self).state(), 16, r),
            r matches Ok(v) ==> v as int == decode_signed(
                ByteOrder::Little,
                old(self).state().remaining.take(16),
            ),
    {
        self.read_i128(ByteOrder::Little)
    }

    /// Reads an `i128`, big-endian.
    fn read_i128_be(&mut self) -> (r: Result<i128, StreamError>)
        ensures
            read_outcome(old(self).state(), final(self).state(), 16, r),
            r matches Ok(v) ==> v as int == decode_signed(
                ByteOrder::Big,
                old(self).state().remaining.take(16),
            ),
    {
        self.read_i128(ByteOrder::Big)
    }

    /// Reads an `i128` in the byte order of the machine, whichever of the
    /// two that is.
    fn read_i128_ne(&mut self) -> (r: Result<i128, StreamError>)
        ensures
            read_outcome(old(self).state(), final(self).state(), 16, r),
            r matches Ok(v) ==> {
                let bytes = old(self).state().remaining.take(16);
                ||| v as int == decode_signed(ByteOrder::Little, bytes)
                ||| v as int == decode_signed(ByteOrder::Big, bytes)
            },
    {
        self.read_i128(ByteOrder::native())
    }

    /// Reads a `u128` in the given byte order.
    fn read_u128(&mut self, order: ByteOrder) -> (r: Result<u128, StreamError>)
        ensures
            read_outcome(old(self).state(), final(self).state(), 16, r),
            r matches Ok(v) ==> v as nat == decode(order, old(self).state().remaining.take(16)),
    {
        self.read_uint(16, order)
    }

    /// Reads a `u128`, little-endian.
    fn read_u128_le(&mut self) -> (r: Result<u128, StreamError>)
        ensures
            read_outcome(old(self).state(), final(self).state(), 16, r),
            r matches Ok(v) ==> v as nat == decode(
                ByteOrder::Little,
                old(self).state().remaining.take(16),
            ),
    {
        self.read_u128(ByteOrder::Little)
    }

    /// Reads a `u128`, big-endian.
    fn read_u128_be(&mut self) -> (r: Result<u128, StreamError>)
        ensures
            read_outcome(old(self).state(), final(self).state(), 16, r),
            r matches Ok(v) ==> v as nat == decode(
                ByteOrder::Big,
                old(self).state().remaining.take(16),
            ),
    {
        self.read_u128(ByteOrder::Big)
    }

    /// Reads a `u128` in the byte order of the machine, whichever of the
    /// two that is.
    fn read_u128_ne(&mut self) -> (r: Result<u128, StreamError>)
        ensures
            read_outcome(old(self).state(), final(self).state(), 16, r),
            r matches Ok(v) ==> {
                let bytes = old(self).state().remaining.take(16);
                ||| v as nat == decode(ByteOrder::Little, bytes)
                ||| v as nat == decode(ByteOrder::Big, bytes)
            },
    {
        self.read_u128(ByteOrder::native())
    }
}

impl<R: ByteSource> ReadPrimitives for R {

}

/// Writing integers to any sink of bytes.
///
/// A write offers the sink the bytes of the value and returns what the sink
/// reports: the number of bytes it took, which may fall short of the width,
/// or its failure.
pub trait WritePrimitives: ByteSink {
    /// Writes the `width` low-order bytes of `val` in the given byte order.
    fn write_uint(&mut self, val: u128, width: usize, order: ByteOrder) -> (r: Result<
        usize,
        StreamError,
    >)
        ensures
            wrote(*old(self), *final(self), encode(order, val as nat, width as nat), r),
    {
        let bytes: Vec<u8> = encode_uint(val, width, order);
        self.write(bytes.as_slice())
    }

    /// Writes `val` as `width` bytes of two's complement in the given byte
    /// order.
    fn write_int(&mut self, val: i128, width: usize, order: ByteOrder) -> (r: Result<
        usize,
        StreamError,
    >)
        requires
            1 <= width <= MAX_WIDTH,
            fits_signed(val as int, width as nat),
        ensures
            wrote(*old(self), *final(self), encode_signed(order, val as int, width as nat), r),
    {
        let bytes: Vec<u8> = encode_int(val, width, order);
        self.write(bytes.as_slice())
    }

    /// Writes a `u8`.
    fn write_u8(&mut self, val: u8) -> (r: Result<usize, StreamError>)
        ensures
            wrote(*old(self), *final(self), seq![val], r),
    {
        let mut bytes: Vec<u8> = Vec::with_capacity(1);
        bytes.push(val);
        self.write(bytes.as_slice())
    }

    /// Writes an `i8`.
    fn write_i8(&mut self, val: i8) -> (r: Result<usize, StreamError>)
        ensures
            wrote(*old(self), *final(self), seq![byte_of(val)], r),
    {
        proof {
            lemma_pow256_values();
        }
        let byte: u8 = if val >= 0 {
            val as u8
        } else {
            (val as i16 + 256) as u8
        };
        self.write_u8(byte)
    }

    /// Writes a `u8`. One byte has no order: the same as [`write_u8`](Self::write_u8).
    fn write_u8_le(&mut self, val: u8) -> (r: Result<usize, StreamError>)
        ensures
            wrote(*old(self), *final(self), seq![val], r),
    {
        self.write_u8(val)
    }

    /// Writes a `u8`. One byte has no order: the same as [`write_u8`](Self::write_u8).
    fn write_u8_be(&mut self, val: u8) -> (r: Result<usize, StreamError>)
        ensures
            wrote(*old(self), *final(self), seq![val], r),
    {
        self.write_u8(val)
    }

    /// Writes a `u8`. One byte has no order: the same as [`write_u8`](Self::write_u8).
    fn write_u8_ne(&mut self, val: u8) -> (r: Result<usize, StreamError>)
        ensures
            wrote(*old(self), *final(self), seq![val], r),
    {
        self.write_u8(val)
    }

    /// Writes an `i8`. One byte has no order: the same as [`write_i8`](Self::write_i8).
    fn write_i8_le(&mut self, val: i8) -> (r: Result<usize, StreamError>)
        ensures
            wrote(*old(self), *final(self), seq![byte_of(val)], r),
    {
        self.write_i8(val)
    }

    /// Writes an `i8`. One byte has no order: the same as [`write_i8`](Self::write_i8).
    fn write_i8_be(&mut self, val: i8) -> (r: Result<usize, StreamError>)
        ensures
            wrote(*old(self), *final(self), seq![byte_of(val)], r),
    {
        self.write_i8(val)
    }

    /// Writes an `i8`. One byte has no order: the same as [`write_i8`](Self::write_i8).
    fn write_i8_ne(&mut self, val: i8) -> (r: Result<usize, StreamError>)
        ensures
            wrote(*old(self), *final(self), seq![byte_of(val)], r),
    {
        self.write_i8(val)
    }

    /// Writes an `i16` in the given byte order.
    fn write_i16(&mut self, val: i16, order: ByteOrder) -> (r: Result<usize, StreamError>)
        ensures
            wrote(*old(self), *final(self), encode_signed(order, val as int, 2), r),
    {
        proof {
            lemma_pow256_values();
        }
        self.write_int(val as i128, 2, order)
    }

    /// Writes an `i16`, little-endian.
    fn write_i16_le(&mut self, val: i16) -> (r: Result<usize, StreamError>)
        ensures
            wrote(*old(self), *final(self), encode_signed(ByteOrder::Little, val as int, 2), r),
    {
        self.write_i16(val, ByteOrder::Little)
    }

    /// Writes an `i16`, big-endian.
    fn write_i16_be(&mut self, val: i16) -> (r: Result<usize, StreamError>)
        ensures
            wrote(*old(self), *final(self), encode_signed(ByteOrder::Big, val as int, 2), r),
    {
        self.write_i16(val, ByteOrder::Big)
    }

    /// Writes an `i16` in the byte order of the machine, whichever of the
    /// two that is.
    fn write_i16_ne(&mut self, val: i16) -> (r: Result<usize, StreamError>)
        ensures
            wrote_in_either_order(*old(self), *final(self), to_unsigned(val as int, 2), 2, r),
    {
        self.write_i16(val, ByteOrder::native())
    }

    /// Writes a `u16` in the given byte order.
    fn write_u16(&mut self, val: u16, order: ByteOrder) -> (r: Result<usize, StreamError>)
        ensures
            wrote(*old(self), *final(self), encode(order, val as nat, 2), r),
    {
        self.write_uint(val as u128, 2, order)
    }

    /// Writes a `u16`, little-endian.
    fn write_u16_le(&mut self, val: u16) -> (r: Result<usize, StreamError>)
        ensures
            wrote(*old(self), *final(self), encode(ByteOrder::Little, val as nat, 2), r),
    {
        self.write_u16(val, ByteOrder::Little)
    }

    /// Writes a `u16`, big-endian.
    fn write_u16_be(&mut self, val: u16) -> (r: Result<usize, StreamError>)
        ensures
            wrote(*old(self), *final(self), encode(ByteOrder::Big, val as nat, 2), r),
    {
        self.write_u16(val, ByteOrder::Big)
    }

    /// Writes a `u16` in the byte order of the machine, whichever of the
    /// two that is.
    fn write_u16_ne(&mut self, val: u16) -> (r: Result<usize, StreamError>)
        ensures
            wrote_in_either_order(*old(self), *final(self), val as nat, 2, r),
    {
        self.write_u16(val, ByteOrder::native())
    }

    /// Writes an `i32` in the given byte order.
    fn write_i32(&mut self, val: i32, order: ByteOrder) -> (r: Result<usize, StreamError>)
        ensures
            wrote(*old(self), *final(self), encode_signed(order, val as int, 4), r),
    {
        proof {
            lemma_pow256_values();
        }
        self.write_int(val as i128, 4, order)
    }

    /// Writes an `i32`, little-endian.
    fn write_i32_le(&mut self, val: i32) -> (r: Result<usize, StreamError>)
        ensures
            wrote(*old(self), *final(self), encode_signed(ByteOrder::Little, val as int, 4), r),
    {
        self.write_i32(val, ByteOrder::Little)
    }

    /// Writes an `i32`, big-endian.
    fn write_i32_be(&mut self, val: i32) -> (r: Result<usize, StreamError>)
        ensures
            wrote(*old(self), *final(self), encode_signed(ByteOrder::Big, val as int, 4), r),
    {
        self.write_i32(val, ByteOrder::Big)
    }

    /// Writes an `i32` in the byte order of the machine, whichever of the
    /// two that is.
    fn write_i32_ne(&mut self, val: i32) -> (r: Result<usize, StreamError>)
        ensures
            wrote_in_either_order(*old(self), *final(self), to_unsigned(val as int, 4), 4, r),
    {
        self.write_i32(val, ByteOrder::native())
    }

    /// Writes a `u32` in the given byte order.
    fn write_u32(&mut self, val: u32, order: ByteOrder) -> (r: Result<usize, StreamError>)
        ensures
            wrote(*old(self), *final(self), encode(order, val as nat, 4), r),
    {
        self.write_uint(val as u128, 4, order)
    }

    /// Writes a `u32`, little-endian.
    fn write_u32_le(&mut self, val: u32) -> (r: Result<usize, StreamError>)
        ensures
            wrote(*old(self), *final(self), encode(ByteOrder::Little, val as nat, 4), r),
    {
        self.write_u32(val, ByteOrder::Little)
    }

    /// Writes a `u32`, big-endian.
    fn write_u32_be(&mut self, val: u32) -> (r: Result<usize, StreamError>)
        ensures
            wrote(*old(self), *final(self), encode(ByteOrder::Big, val as nat, 4), r),
    {
        self.write_u32(val, ByteOrder::Big)
    }

    /// Writes a `u32` in the byte order of the machine, whichever of the
    /// two that is.
    fn write_u32_ne(&mut self, val: u32) -> (r: Result<usize, StreamError>)
        ensures
            wrote_in_either_order(*old(self), *final(self), val as nat, 4, r),
    {
        self.write_u32(val, ByteOrder::native())
    }

    /// Writes an `i64` in the given byte order.
    fn write_i64(&mut self, val: i64, order: ByteOrder) -> (r: Result<usize, StreamError>)
        ensures
            wrote(*old(self), *final(self), encode_signed(order, val as int, 8), r),
    {
        proof {
            lemma_pow256_values();
        }
        self.write_int(val as i128, 8, order)
    }

    /// Writes an `i64`, little-endian.
    fn write_i64_le(&mut self, val: i64) -> (r: Result<usize, StreamError>)
        ensures
            wrote(*old(self), *final(self), encode_signed(ByteOrder::Little, val as int, 8), r),
    {
        self.write_i64(val, ByteOrder::Little)
    }

    /// Writes an `i64`, big-endian.
    fn write_i64_be(&mut self, val: i64) -> (r: Result<usize, StreamError>)
        ensures
            wrote(*old(self), *final(self), encode_signed(ByteOrder::Big, val as int, 8), r),
    {
        self.write_i64(val, ByteOrder::Big)
    }

    /// Writes an `i64` in the byte order of the machine, whichever of the
    /// two that is.
    fn write_i64_ne(&mut self, val: i64) -> (r: Result<usize, StreamError>)
        ensures
            wrote_in_either_order(*old(self), *final(self), to_unsigned(val as int, 8), 8, r),
    {
        self.write_i64(val, ByteOrder::native())
    }

    /// Writes a `u64` in the given byte order.
    fn write_u64(&mut self, val: u64, order: ByteOrder) -> (r: Result<usize, StreamError>)
        ensures
            wrote(*old(self), *final(self), encode(order, val as nat, 8), r),
    {
        self.write_uint(val as u128, 8, order)
    }

    /// Writes a `u64`, little-endian.
    fn write_u64_le(&mut self, val: u64) -> (r: Result<usize, StreamError>)
        ensures
            wrote(*old(self), *final(self), encode(ByteOrder::Little, val as nat, 8), r),
    {
        self.write_u64(val, ByteOrder::Little)
    }

    /// Writes a `u64`, big-endian.
    fn write_u64_be(&mut self, val: u64) -> (r: Result<usize, StreamError>)
        ensures
            wrote(*old(self), *final(self), encode(ByteOrder::Big, val as nat, 8), r),
    {
        self.write_u64(val, ByteOrder::Big)
    }

    /// Writes a `u64` in the byte order of the machine, whichever of the
    /// two that is.
    fn write_u64_ne(&mut self, val: u64) -> (r: Result<usize, StreamError>)
        ensures
            wrote_in_either_order(*old(self), *final(self), val as nat, 8, r),
    {
        self.write_u64(val, ByteOrder::native())
    }

    /// Writes an `i128` in the given byte order.
    fn write_i128(&mut self, val: i128, order: ByteOrder) -> (r: Result<usize, StreamError>)
        ensures
            wrote(*old(self), *final(self), encode_signed(order, val as int, 16), r),
    {
        proof {
            lemma_pow256_values();
        }
        self.write_int(val, 16, order)
    }

    /// Writes an `i128`, little-endian.
    fn write_i128_le(&mut self, val: i128) -> (r: Result<usize, StreamError>)
        ensures
            wrote(*old(self), *final(self), encode_signed(ByteOrder::Little, val as int, 16), r),
    {
        self.write_i128(val, ByteOrder::Little)
    }

    /// Writes an `i128`, big-endian.
    fn write_i128_be(&mut self, val: i128) -> (r: Result<usize, StreamError>)
        ensures
            wrote(*old(self), *final(self), encode_signed(ByteOrder::Big, val as int, 16), r),
    {
        self.write_i128(val, ByteOrder::Big)
    }

    /// Writes an `i128` in the byte order of the machine, whichever of the
    /// two that is.
    fn write_i128_ne(&mut self, val: i128) -> (r: Result<usize, StreamError>)
        ensures
            wrote_in_either_order(*old(self), *final(self), to_unsigned(val as int, 16), 16, r),
    {
        self.write_i128(val, ByteOrder::native())
    }

    /// Writes a `u128` in the given byte order.
    fn write_u128(&mut self, val: u128, order: ByteOrder) -> (r: Result<usize, StreamError>)
        ensures
            wrote(*old(self), *final(self), encode(order, val as nat, 16), r),
    {
        self.write_uint(val, 16, order)
    }

    /// Writes a `u128`, little-endian.
    fn write_u128_le(&mut self, val: u128) -> (r: Result<usize, StreamError>)
        ensures
            wrote(*old(self), *final(self), encode(ByteOrder::Little, val as nat, 16), r),
    {
        self.write_u128(val, ByteOrder::Little)
    }

    /// Writes a `u128`, big-endian.
    fn write_u128_be(&mut self, val: u128) -> (r: Result<usize, StreamError>)
        ensures
            wrote(*old(self), *final(self), encode(ByteOrder::Big, val as nat, 16), r),
    {
        self.write_u128(val, ByteOrder::Big)
    }

    /// Writes a `u128` in the byte order of the machine, whichever of the
    /// two that is.
    fn write_u128_ne(&mut self, val: u128) -> (r: Result<usize, StreamError>)
        ensures
            wrote_in_either_order(*old(self), *final(self), val as nat, 16, r),
    {
        self.write_u128(val, ByteOrder::native())
    }
}

impl<W: ByteSink> WritePrimitives for W {

}

/// Encoding does not depend on what was written before. Two writes of the
/// same value in the same order, each taken whole by the sink, leave the
/// same run of bytes twice in a row: the encoding of the value.
pub proof fn lemma_write_twice<W: ByteSink>(
    before: W,
    between: W,
    after: W,
    order: ByteOrder,
    v: nat,
    width: nat,
    first: Result<usize, StreamError>,
    second: Result<usize, StreamError>,
)
    requires
        wrote(before, between, encode(order, v, width), first),
        wrote(between, after, encode(order, v, width), second),
        first is Ok && first->Ok_0 == width,
        second is Ok && second->Ok_0 == width,
    ensures
        after.written() == before.written() + encode(order, v, width) + encode(order, v, width),
        after.written().subrange(
            before.written().len() as int,
            before.written().len() as int + width,
        ) == encode(order, v, width),
        after.written().subrange(
            before.written().len() as int + width,
            before.written().len() as int + 2 * width,
        ) == encode(order, v, width),
{
    lemma_encode_len(order, v, width);
}

} // verus!
