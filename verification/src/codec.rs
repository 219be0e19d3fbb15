//! The executable integer codec: values to bytes and back, at any width up
//! to sixteen bytes and in either byte order.
use crate::byte_order::{
    be_value, decode, decode_signed, encode, encode_signed, fits_signed, le_bytes, le_value,
    lemma_decode_bound, lemma_orders_are_reverses, lemma_pow256_monotonic, lemma_pow256_values,
    lemma_signed_round_trip, lemma_unsigned_round_trip, pow256, to_signed, to_unsigned, ByteOrder,
    MAX_WIDTH,
};
use vstd::prelude::*;

verus! {

/// `u16::from_ne_bytes`: the number that two bytes spell in the order of the
/// machine this runs on. Which order that is differs from machine to
/// machine; the claim is only that it is one of the two.
#[verifier::external_body]
fn u16_from_native_bytes(bytes: [u8; 2]) -> (v: u16)
    ensures
        v as nat == decode(ByteOrder::Little, bytes@) || v as nat == decode(ByteOrder::Big, bytes@),
{
    u16::from_ne_bytes(bytes)
}

/// The two readings of the probe bytes `1, 0`: little-endian they spell 1,
/// big-endian 256.
pub proof fn lemma_probe_readings()
    ensures
        decode(ByteOrder::Little, seq![1u8, 0u8]) == 1,
        decode(ByteOrder::Big, seq![1u8, 0u8]) == 256,
{
    reveal_with_fuel(le_value, 3);
    reveal_with_fuel(be_value, 3);
}

impl ByteOrder {
    /// The order in which the bytes `1, 0` spell `probe`: little-endian for
    /// 1, big-endian for 256 and, by convention, for any other number.
    pub fn of_probe(probe: u16) -> (order: ByteOrder)
        ensures
            order == ByteOrder::Little <==> probe == 1,
            probe == 1 || probe == 256 ==> decode(order, seq![1u8, 0u8]) == probe,
    {
        proof {
            lemma_probe_readings();
        }
        if probe == 1 {
            ByteOrder::Little
        } else {
            ByteOrder::Big
        }
    }

    /// The byte order of the machine this runs on.
    ///
    /// Either order may come back; a caller that wants one answer for a
    /// whole computation asks once and passes the order on.
    pub fn native() -> ByteOrder {
        let probe: [u8; 2] = [1u8, 0u8];
        ByteOrder::of_probe(u16_from_native_bytes(probe))
    }
}

/// 256 to the power `width`, for the widths at which it fits.
fn pow256_exec(width: usize) -> (p: u128)
    requires
        width < MAX_WIDTH,
    ensures
        p as nat == pow256(width as nat),
{
    let mut p: u128 = 1;
    let mut i: usize = 0;
    while i < width
        invariant
            i <= width < MAX_WIDTH,
            p as nat == pow256(i as nat),
        decreases width - i,
    {
        proof {
            lemma_pow256_monotonic((i + 1) as nat, 15);
            lemma_pow256_values();
        }
        p = p * 256;
        i += 1;
    }
    p
}

/// Writes `v` as `width` bytes in the given order.
///
/// Only the `width` low-order bytes of `v` are kept; beyond the sixteenth
/// byte the encoding is padded with zeros.
pub fn encode_uint(v: u128, width: usize, order: ByteOrder) -> (bytes: Vec<u8>)
    ensures
        bytes@ == encode(order, v as nat, width as nat),
{
    let mut low_first: Vec<u8> = Vec::with_capacity(width);
    let mut rest: u128 = v;
    let mut i: usize = 0;
    while i < width
        invariant
            i <= width,
            low_first@.len() == i,
            low_first@ + le_bytes(rest as nat, (width - i) as nat) == le_bytes(
                v as nat,
                width as nat,
            ),
        decreases width - i,
    {
        low_first.push((rest % 256) as u8);
        rest = rest / 256;
        i += 1;
    }
    match order {
        ByteOrder::Little => low_first,
        ByteOrder::Big => {
            let mut high_first: Vec<u8> = Vec::with_capacity(width);
            let mut j: usize = 0;
            while j < width
                invariant
                    j <= width,
                    low_first@.len() == width,
                    high_first@.len() == j,
                    forall|k: int| 0 <= k < j ==> high_first@[k] == low_first@[width - 1 - k],
                decreases width - j,
            {
                high_first.push(low_first[width - 1 - j]);
                j += 1;
            }
            proof {
                lemma_orders_are_reverses(v as nat, width as nat);
            }
            high_first
        },
    }
}

/// Reads `bytes` as one unsigned number in the given order.
pub fn decode_uint(bytes: &[u8], order: ByteOrder) -> (v: u128)
    requires
        bytes@.len() <= MAX_WIDTH,
    ensures
        v as nat == decode(order, bytes@),
{
    let n: usize = bytes.len();
    let mut acc: u128 = 0;
    let mut i: usize = 0;
    match order {
        ByteOrder::Little => {
            while i < n
                invariant
                    i <= n == bytes@.len() <= MAX_WIDTH,
                    acc as nat == le_value(bytes@.skip(n - i)),
                decreases n - i,
            {
                let ghost suffix = bytes@.skip(n - i - 1);
                proof {
                    assert(suffix.skip(1) =~= bytes@.skip(n - i));
                    lemma_decode_bound(ByteOrder::Little, suffix);
                    lemma_pow256_monotonic(suffix.len(), 16);
                    lemma_pow256_values();
                }
                acc = acc * 256 + bytes[n - 1 - i] as u128;
                i += 1;
            }
            assert(bytes@.skip(0) =~= bytes@);
        },
        ByteOrder::Big => {
            while i < n
                invariant
                    i <= n == bytes@.len() <= MAX_WIDTH,
                    acc as nat == be_value(bytes@.take(i as int)),
                decreases n - i,
            {
                let ghost prefix = bytes@.take(i + 1);
                proof {
                    assert(prefix.drop_last() =~= bytes@.take(i as int));
                    lemma_decode_bound(ByteOrder::Big, prefix);
                    lemma_pow256_monotonic(prefix.len(), 16);
                    lemma_pow256_values();
                }
                acc = acc * 256 + bytes[i] as u128;
                i += 1;
            }
            assert(bytes@.take(n as int) =~= bytes@);
        },
    }
    acc
}

/// The two's-complement residue that carries `v` at `width` bytes.
pub fn unsigned_residue(v: i128, width: usize) -> (u: u128)
    requires
        1 <= width <= MAX_WIDTH,
        fits_signed(v as int, width as nat),
    ensures
        u as nat == to_unsigned(v as int, width as nat),
        u < pow256(width as nat),
{
    proof {
        lemma_pow256_values();
        lemma_signed_round_trip(v as int, width as nat);
    }
    if v >= 0 {
        v as u128
    } else if width == MAX_WIDTH {
        u128::MAX - ((-(v + 1)) as u128)
    } else {
        proof {
            lemma_pow256_monotonic(width as nat, 15);
        }
        let span: u128 = pow256_exec(width);
        (v + span as i128) as u128
    }
}

/// The signed value that the residue `u` carries at `width` bytes.
pub fn signed_value(u: u128, width: usize) -> (v: i128)
    requires
        1 <= width <= MAX_WIDTH,
        u < pow256(width as nat),
    ensures
        v as int == to_signed(u as nat, width as nat),
        fits_signed(v as int, width as nat),
{
    proof {
        lemma_pow256_values();
        lemma_unsigned_round_trip(u as nat, width as nat);
    }
    if width == MAX_WIDTH {
        if u <= i128::MAX as u128 {
            u as i128
        } else {
            -((u128::MAX - u) as i128) - 1
        }
    } else {
        proof {
            lemma_pow256_monotonic(width as nat, 15);
        }
        let span: u128 = pow256_exec(width);
        if u < span / 2 {
            u as i128
        } else {
            u as i128 - span as i128
        }
    }
}

/// Writes the signed value `v` as `width` bytes of two's complement.
pub fn encode_int(v: i128, width: usize, order: ByteOrder) -> (bytes: Vec<u8>)
    requires
        1 <= width <= MAX_WIDTH,
        fits_signed(v as int, width as nat),
    ensures
        bytes@ == encode_signed(order, v as int, width as nat),
{
    encode_uint(unsigned_residue(v, width), width, order)
}

/// Reads `bytes` as one signed number in two's complement.
pub fn decode_int(bytes: &[u8], order: ByteOrder) -> (v: i128)
    requires
        1 <= bytes@.len() <= MAX_WIDTH,
    ensures
        v as int == decode_signed(order, bytes@),
{
    proof {
        lemma_decode_bound(order, bytes@);
    }
    signed_value(decode_uint(bytes, order), bytes.len())
}

} // verus!
