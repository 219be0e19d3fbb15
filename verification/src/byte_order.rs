//! Fixed-width integers as bytes, least or most significant byte first.
//!
//! The model is arithmetic: a run of bytes stands for a natural number in
//! base 256, and a signed integer is carried by its two's-complement
//! residue. The executable functions work on `u128`, wide enough for every
//! supported width, and are proved against that model.
use vstd::prelude::*;

verus! {

/// The order in which the bytes of a value follow one another.
#[derive(Clone, Copy, Debug, PartialEq, Eq, Structural)]
pub enum ByteOrder {
    /// Least significant byte first.
    Little,
    /// Most significant byte first.
    Big,
}

/// The widest value, in bytes, that the codec handles.
pub const MAX_WIDTH: usize = 16;

/// The number of values that `width` bytes can tell apart: 256 to the power `width`.
pub open spec fn pow256(width: nat) -> nat
    decreases width,
{
    if width == 0 {
        1
    } else {
        256 * pow256((width - 1) as nat)
    }
}

/// The `width` low-order base-256 digits of `v`, least significant first.
pub open spec fn le_bytes(v: nat, width: nat) -> Seq<u8>
    decreases width,
{
    if width == 0 {
        Seq::empty()
    } else {
        seq![(v % 256) as u8] + le_bytes(v / 256, (width - 1) as nat)
    }
}

/// The `width` low-order base-256 digits of `v`, most significant first.
pub open spec fn be_bytes(v: nat, width: nat) -> Seq<u8>
    decreases width,
{
    if width == 0 {
        Seq::empty()
    } else {
        be_bytes(v / 256, (width - 1) as nat).push((v % 256) as u8)
    }
}

/// The number that `bytes` spell when the first byte is the least significant.
pub open spec fn le_value(bytes: Seq<u8>) -> nat
    decreases bytes.len(),
{
    if bytes.len() == 0 {
        0
    } else {
        bytes[0] as nat + 256 * le_value(bytes.skip(1))
    }
}

/// The number that `bytes` spell when the first byte is the most significant.
pub open spec fn be_value(bytes: Seq<u8>) -> nat
    decreases bytes.len(),
{
    if bytes.len() == 0 {
        0
    } else {
        256 * be_value(bytes.drop_last()) + bytes.last() as nat
    }
}

/// The bytes of `v` at the given width, in the given order.
pub open spec fn encode(order: ByteOrder, v: nat, width: nat) -> Seq<u8> {
    match order {
        ByteOrder::Little => le_bytes(v, width),
        ByteOrder::Big => be_bytes(v, width),
    }
}

/// The number that `bytes` spell in the given order.
pub open spec fn decode(order: ByteOrder, bytes: Seq<u8>) -> nat {
    match order {
        ByteOrder::Little => le_value(bytes),
        ByteOrder::Big => be_value(bytes),
    }
}

/// Whether `v` is a two's-complement value of `width` bytes.
pub open spec fn fits_signed(v: int, width: nat) -> bool {
    -(pow256(width) as int) <= 2 * v < pow256(width) as int
}

/// The residue that carries the signed value `v` at `width` bytes.
pub open spec fn to_unsigned(v: int, width: nat) -> nat {
    if v >= 0 {
        v as nat
    } else {
        (v + pow256(width)) as nat
    }
}

/// The signed value that the residue `u` carries at `width` bytes.
pub open spec fn to_signed(u: nat, width: nat) -> int {
    if 2 * u < pow256(width) {
        u as int
    } else {
        u - pow256(width)
    }
}

/// The bytes of the signed value `v`: those of its two's-complement residue.
pub open spec fn encode_signed(order: ByteOrder, v: int, width: nat) -> Seq<u8> {
    encode(order, to_unsigned(v, width), width)
}

/// The signed value that `bytes` spell in two's complement.
pub open spec fn decode_signed(order: ByteOrder, bytes: Seq<u8>) -> int {
    to_signed(decode(order, bytes), bytes.len())
}

pub proof fn lemma_pow256_positive(width: nat)
    ensures
        pow256(width) >= 1,
    decreases width,
{
    if width > 0 {
        lemma_pow256_positive((width - 1) as nat);
    }
}

pub proof fn lemma_pow256_monotonic(a: nat, b: nat)
    requires
        a <= b,
    ensures
        pow256(a) <= pow256(b),
    decreases b,
{
    if a < b {
        lemma_pow256_monotonic(a, (b - 1) as nat);
        lemma_pow256_positive((b - 1) as nat);
    }
}

/// The powers of 256 at the widths of the primitive types.
pub proof fn lemma_pow256_values()
    ensures
        pow256(0) == 1,
        pow256(1) == 0x100,
        pow256(2) == 0x1_0000,
        pow256(4) == 0x1_0000_0000,
        pow256(8) == 0x1_0000_0000_0000_0000,
        pow256(15) == 0x100_0000_0000_0000_0000_0000_0000_0000,
        pow256(16) == 0x1_0000_0000_0000_0000_0000_0000_0000_0000,
{
    reveal_with_fuel(pow256, 17);
}

pub proof fn lemma_encode_len(order: ByteOrder, v: nat, width: nat)
    ensures
        encode(order, v, width).len() == width,
    decreases width,
{
    if width > 0 {
        lemma_encode_len(order, v / 256, (width - 1) as nat);
    }
}

/// A run of bytes spells a number below 256 to the power of its length.
pub proof fn lemma_decode_bound(order: ByteOrder, bytes: Seq<u8>)
    ensures
        decode(order, bytes) < pow256(bytes.len()),
    decreases bytes.len(),
{
    if bytes.len() > 0 {
        match order {
            ByteOrder::Little => lemma_decode_bound(order, bytes.skip(1)),
            ByteOrder::Big => lemma_decode_bound(order, bytes.drop_last()),
        }
    }
}

/// Decoding undoes encoding: every value that fits the width comes back
/// unchanged, in either order.
pub proof fn lemma_decode_encode(order: ByteOrder, v: nat, width: nat)
    requires
        v < pow256(width),
    ensures
        decode(order, encode(order, v, width)) == v,
    decreases width,
{
    if width > 0 {
        let rest = (width - 1) as nat;
        lemma_decode_encode(order, v / 256, rest);
        lemma_encode_len(order, v / 256, rest);
        match order {
            ByteOrder::Little => {
                let bytes = le_bytes(v, width);
                assert(bytes.skip(1) =~= le_bytes(v / 256, rest));
            },
            ByteOrder::Big => {
                let bytes = be_bytes(v, width);
                assert(bytes.drop_last() =~= be_bytes(v / 256, rest));
            },
        }
    }
}

/// Encoding undoes decoding: a run of bytes is the encoding, at its own
/// length, of the number it spells.
pub proof fn lemma_encode_decode(order: ByteOrder, bytes: Seq<u8>)
    ensures
        encode(order, decode(order, bytes), bytes.len()) == bytes,
    decreases bytes.len(),
{
    if bytes.len() > 0 {
        match order {
            ByteOrder::Little => lemma_encode_decode(order, bytes.skip(1)),
            ByteOrder::Big => lemma_encode_decode(order, bytes.drop_last()),
        }
    }
}

/// The two orders mirror each other: the big-endian bytes of a value are its
/// little-endian bytes read backwards.
pub proof fn lemma_orders_are_reverses(v: nat, width: nat)
    ensures
        encode(ByteOrder::Big, v, width) == encode(ByteOrder::Little, v, width).reverse(),
        encode(ByteOrder::Little, v, width) == encode(ByteOrder::Big, v, width).reverse(),
    decreases width,
{
    let le = le_bytes(v, width);
    let be = be_bytes(v, width);
    lemma_encode_len(ByteOrder::Little, v, width);
    lemma_encode_len(ByteOrder::Big, v, width);
    if width > 0 {
        let rest = (width - 1) as nat;
        lemma_orders_are_reverses(v / 256, rest);
        lemma_encode_len(ByteOrder::Little, v / 256, rest);
        lemma_encode_len(ByteOrder::Big, v / 256, rest);
        assert forall|i: int| 0 <= i < width implies be[i] == le[width - 1 - i] by {}
    }
}

/// Reading a run of bytes in one order gives what reading the reversed run
/// in the other order gives.
pub proof fn lemma_decode_reversed(bytes: Seq<u8>)
    ensures
        decode(ByteOrder::Big, bytes) == decode(ByteOrder::Little, bytes.reverse()),
{
    let v = decode(ByteOrder::Big, bytes);
    lemma_decode_bound(ByteOrder::Big, bytes);
    lemma_encode_decode(ByteOrder::Big, bytes);
    lemma_orders_are_reverses(v, bytes.len());
    lemma_decode_encode(ByteOrder::Little, v, bytes.len());
}

/// The signed round trip: a two's-complement value that fits the width is
/// carried by a residue below 256 to the power of the width, and comes back
/// from it unchanged.
pub proof fn lemma_signed_round_trip(v: int, width: nat)
    requires
        width >= 1,
        fits_signed(v, width),
    ensures
        to_unsigned(v, width) < pow256(width),
        to_signed(to_unsigned(v, width), width) == v,
{
    lemma_pow256_positive(width);
}

/// The residue of a signed value goes back to that value's residue.
pub proof fn lemma_unsigned_round_trip(u: nat, width: nat)
    requires
        width >= 1,
        u < pow256(width),
    ensures
        fits_signed(to_signed(u, width), width),
        to_unsigned(to_signed(u, width), width) == u,
{
    lemma_pow256_positive(width);
}

/// Decoding undoes encoding for signed values too.
pub proof fn lemma_decode_encode_signed(order: ByteOrder, v: int, width: nat)
    requires
        width >= 1,
        fits_signed(v, width),
    ensures
        decode_signed(order, encode_signed(order, v, width)) == v,
{
    lemma_signed_round_trip(v, width);
    lemma_encode_len(order, to_unsigned(v, width), width);
    lemma_decode_encode(order, to_unsigned(v, width), width);
}

} // verus!
