//! Text out of raw bytes and code units, strictly or with replacement.
//!
//! Strict decoding either yields the whole text or hands the raw bytes
//! back untouched. Lossy decoding always yields a text, with U+FFFD where
//! the input could not be read.
use crate::byte_order::{decode, lemma_decode_bound, lemma_pow256_values, ByteOrder};
use crate::codec::decode_uint;
use vstd::prelude::*;
use vstd::slice::slice_subrange;
use vstd::utf8::{is_scalar, valid_utf8};

verus! {

/// A failed strict decode. It keeps the bytes that could not be read as
/// text, exactly as they came from the stream.
#[derive(Clone, Debug, PartialEq, Eq)]
pub struct InvalidEncoding {
    bytes: Vec<u8>,
}

impl View for InvalidEncoding {
    type V = Seq<u8>;

    closed spec fn view(&self) -> Seq<u8> {
        self.bytes@
    }
}

impl InvalidEncoding {
    /// The failure that holds `bytes`.
    pub fn new(bytes: Vec<u8>) -> (failure: InvalidEncoding)
        ensures
            failure@ == bytes@,
    {
        InvalidEncoding { bytes }
    }

    /// The bytes that could not be decoded.
    pub fn as_bytes(&self) -> (bytes: &[u8])
        ensures
            bytes@ == self@,
    {
        self.bytes.as_slice()
    }

    /// Gives the bytes back, for another attempt.
    pub fn into_bytes(self) -> (bytes: Vec<u8>)
        ensures
            bytes@ == self@,
    {
        self.bytes
    }
}

/// The character that stands in for input that cannot be decoded.
pub open spec fn replacement() -> char {
    '\u{FFFD}'
}

/// The text that `bytes` encode in UTF-8, if they encode one.
pub open spec fn utf8_text(bytes: Seq<u8>) -> Option<Seq<char>> {
    if valid_utf8(bytes) {
        Some(vstd::utf8::decode_utf8(bytes))
    } else {
        None
    }
}

/// `text` is the strict reading of `bytes` as UTF-8: the text they encode,
/// or a failure that holds them.
pub open spec fn strict_utf8(bytes: Seq<u8>, text: Result<String, InvalidEncoding>) -> bool {
    match utf8_text(bytes) {
        Some(chars) => text is Ok && text->Ok_0@ == chars,
        None => text is Err && text->Err_0@ == bytes,
    }
}

/// The text that lossy UTF-8 decoding makes of `bytes`: what they encode
/// where they are well formed, with U+FFFD for each stretch that is not.
pub uninterp spec fn utf8_lossy_text(bytes: Seq<u8>) -> Seq<char>;

/// Whether `unit` is a surrogate, a code unit that is only half a character.
pub open spec fn is_surrogate(unit: u16) -> bool {
    0xD800 <= unit <= 0xDFFF
}

/// Whether `units` begin with a leading surrogate and its trailing one.
pub open spec fn starts_with_pair(units: Seq<u16>) -> bool {
    &&& units.len() >= 2
    &&& 0xD800 <= units[0] <= 0xDBFF
    &&& 0xDC00 <= units[1] <= 0xDFFF
}

/// The supplementary-plane character that a surrogate pair stands for.
pub open spec fn pair_scalar(lead: u16, trail: u16) -> u32 {
    (0x10000 + (lead - 0xD800) * 0x400 + (trail - 0xDC00)) as u32
}

/// Whether `units` are well-formed UTF-16: every surrogate is part of a pair.
pub open spec fn utf16_well_formed(units: Seq<u16>) -> bool
    decreases units.len(),
{
    if units.len() == 0 {
        true
    } else if starts_with_pair(units) {
        utf16_well_formed(units.skip(2))
    } else if is_surrogate(units[0]) {
        false
    } else {
        utf16_well_formed(units.skip(1))
    }
}

/// The text that lossy UTF-16 decoding makes of `units`: one character for
/// each pair and for each unit that is no surrogate, and U+FFFD for each
/// surrogate without its partner.
pub open spec fn utf16_lossy_text(units: Seq<u16>) -> Seq<char>
    decreases units.len(),
{
    if units.len() == 0 {
        Seq::empty()
    } else if starts_with_pair(units) {
        seq![pair_scalar(units[0], units[1]) as char] + utf16_lossy_text(units.skip(2))
    } else if is_surrogate(units[0]) {
        seq![replacement()] + utf16_lossy_text(units.skip(1))
    } else {
        seq![units[0] as u32 as char] + utf16_lossy_text(units.skip(1))
    }
}

/// The text that `units` encode in UTF-16, if they encode one.
pub open spec fn utf16_text(units: Seq<u16>) -> Option<Seq<char>> {
    if utf16_well_formed(units) {
        Some(utf16_lossy_text(units))
    } else {
        None
    }
}

/// The code units that `bytes` hold two by two, each pair of bytes read in
/// the given order. An odd byte at the end belongs to no unit.
pub open spec fn units_of(order: ByteOrder, bytes: Seq<u8>) -> Seq<u16> {
    Seq::new(bytes.len() / 2, |i: int| decode(order, bytes.subrange(2 * i, 2 * i + 2)) as u16)
}

/// `text` is the strict reading of `bytes` as UTF-16 in the given order:
/// the text they encode, or a failure that holds them.
pub open spec fn strict_utf16(
    order: ByteOrder,
    bytes: Seq<u8>,
    text: Result<String, InvalidEncoding>,
) -> bool {
    match utf16_text(units_of(order, bytes)) {
        Some(chars) => text is Ok && text->Ok_0@ == chars,
        None => text is Err && text->Err_0@ == bytes,
    }
}

/// The code units that encode one character in UTF-16.
pub open spec fn char_units(c: char) -> Seq<u16> {
    if (c as u32) < 0x10000 {
        seq![c as u32 as u16]
    } else {
        let offset = (c as u32 - 0x10000) as int;
        seq![(0xD800 + offset / 0x400) as u16, (0xDC00 + offset % 0x400) as u16]
    }
}

/// The code units that encode `chars` in UTF-16.
pub open spec fn utf16_units(chars: Seq<char>) -> Seq<u16>
    decreases chars.len(),
{
    if chars.len() == 0 {
        Seq::empty()
    } else {
        char_units(chars[0]) + utf16_units(chars.skip(1))
    }
}

/// Every text survives UTF-16: its encoding is well formed and decodes,
/// strictly and lossily, to the text itself, characters beyond the basic
/// plane included.
pub proof fn lemma_utf16_round_trip(chars: Seq<char>)
    ensures
        utf16_well_formed(utf16_units(chars)),
        utf16_text(utf16_units(chars)) == Some(chars),
        utf16_lossy_text(utf16_units(chars)) == chars,
    decreases chars.len(),
{
    if chars.len() > 0 {
        let c = chars[0];
        let rest = chars.skip(1);
        lemma_utf16_round_trip(rest);
        let units = utf16_units(chars);
        vstd::utf8::char_is_scalar(c);
        vstd::utf8::char_u32_cast(c, c as u32);
        if (c as u32) < 0x10000 {
            assert(units.skip(1) =~= utf16_units(rest));
        } else {
            let offset = (c as u32 - 0x10000) as int;
            assert(units.skip(2) =~= utf16_units(rest));
            assert(pair_scalar(units[0], units[1]) == c as u32) by {
                assert(0 <= offset / 0x400 < 0x400 && 0 <= offset % 0x400 < 0x400
                    && offset == 0x400 * (offset / 0x400) + offset % 0x400) by (nonlinear_arith)
                    requires
                        0 <= offset <= 0xFFFFF,
                ;
            }
        }
    }
}

/// `String::from_utf8`, with the rejected bytes taken out of its error by
/// `FromUtf8Error::into_bytes`. Claims what std documents: the bytes become
/// a string exactly when they are valid UTF-8, the string is the text they
/// encode, and a refusal returns the bytes it was given.
#[verifier::external_body]
fn string_from_utf8(bytes: Vec<u8>) -> (r: Result<String, Vec<u8>>)
    ensures
        match r {
            Ok(text) => valid_utf8(bytes@) && text@ == vstd::utf8::decode_utf8(bytes@),
            Err(rejected) => !valid_utf8(bytes@) && rejected@ == bytes@,
        },
{
    match String::from_utf8(bytes) {
        Ok(text) => Ok(text),
        Err(e) => Err(e.into_bytes()),
    }
}

/// `String::from_utf8_lossy`, made an owned string. Its handling of
/// malformed stretches is std's own and only named here; of valid UTF-8 std
/// documents that it comes through unchanged, and that much is claimed.
#[verifier::external_body]
fn string_from_utf8_lossy(bytes: &[u8]) -> (text: String)
    ensures
        text@ == utf8_lossy_text(bytes@),
        valid_utf8(bytes@) ==> text@ == vstd::utf8::decode_utf8(bytes@),
{
    String::from_utf8_lossy(bytes).into_owned()
}

/// `String::push` appends one character to the string.
pub assume_specification[ String::push ](text: &mut String, ch: char)
    ensures
        final(text)@ == old(text)@.push(ch),
;

/// `char::from_u32` gives the character with the given scalar value, and
/// nothing for a number that is no Unicode scalar value.
pub assume_specification[ char::from_u32 ](i: u32) -> (r: Option<char>)
    ensures
        is_scalar(i) ==> r == Some(i as char),
        !is_scalar(i) ==> r is None,
;

/// Decodes `bytes` as UTF-8, strictly.
///
/// Bytes that are not valid UTF-8 come back untouched inside the failure.
pub fn decode_utf8(bytes: Vec<u8>) -> (text: Result<String, InvalidEncoding>)
    ensures
        strict_utf8(bytes@, text),
{
    match string_from_utf8(bytes) {
        Ok(text) => Ok(text),
        Err(rejected) => Err(InvalidEncoding::new(rejected)),
    }
}

/// Decodes `bytes` as UTF-8, with U+FFFD in place of what is malformed.
///
/// Valid UTF-8 decodes to the text it encodes.
pub fn decode_utf8_lossy(bytes: &[u8]) -> (text: String)
    ensures
        text@ == utf8_lossy_text(bytes@),
        utf8_text(bytes@) matches Some(chars) ==> text@ == chars,
{
    string_from_utf8_lossy(bytes)
}

/// Reads `bytes` two by two as 16-bit code units in the given byte order.
pub fn code_units(bytes: &[u8], order: ByteOrder) -> (units: Vec<u16>)
    ensures
        units@ == units_of(order, bytes@),
{
    let count: usize = bytes.len() / 2;
    let mut units: Vec<u16> = Vec::with_capacity(count);
    let mut i: usize = 0;
    while i < count
        invariant
            i <= count == bytes@.len() / 2,
            bytes@.len() <= usize::MAX,
            units@.len() == i,
            forall|k: int| 0 <= k < i ==> units@[k] == units_of(order, bytes@)[k],
        decreases count - i,
    {
        let pair: &[u8] = slice_subrange(bytes, 2 * i, 2 * i + 2);
        proof {
            lemma_decode_bound(order, pair@);
            lemma_pow256_values();
        }
        let unit: u128 = decode_uint(pair, order);
        units.push(unit as u16);
        i += 1;
    }
    units
}

/// The decoder behind both UTF-16 entry points: it walks the units once and,
/// at a surrogate without its partner, either substitutes or gives up.
fn decode_units(units: &[u16], lossy: bool) -> (r: Option<String>)
    ensures
        lossy ==> r is Some,
        !lossy ==> (r is Some <==> utf16_well_formed(units@)),
        r matches Some(text) ==> text@ == utf16_lossy_text(units@),
{
    let n: usize = units.len();
    let mut text: String = String::new();
    let mut i: usize = 0;
    proof {
        assert(units@.skip(0) =~= units@);
    }
    while i < n
        invariant
            i <= n == units@.len(),
            text@ + utf16_lossy_text(units@.skip(i as int)) == utf16_lossy_text(units@),
            !lossy ==> utf16_well_formed(units@.skip(i as int)) == utf16_well_formed(units@),
        decreases n - i,
    {
        let ghost rest = units@.skip(i as int);
        let unit: u16 = units[i];
        if unit < 0xD800 || unit > 0xDFFF {
            let ch: char = char::from_u32(unit as u32).unwrap();
            text.push(ch);
            i += 1;
            proof {
                assert(rest.skip(1) =~= units@.skip(i as int));
            }
        } else if unit <= 0xDBFF && i + 1 < n && 0xDC00 <= units[i + 1] && units[i + 1] <= 0xDFFF {
            let trail: u16 = units[i + 1];
            let scalar: u32 = 0x10000 + (unit - 0xD800) as u32 * 0x400 + (trail - 0xDC00) as u32;
            let ch: char = char::from_u32(scalar).unwrap();
            text.push(ch);
            i += 2;
            proof {
                assert(rest.skip(2) =~= units@.skip(i as int));
            }
        } else if lossy {
            text.push('\u{FFFD}');
            i += 1;
            proof {
                assert(rest.skip(1) =~= units@.skip(i as int));
            }
        } else {
            return None;
        }
    }
    Some(text)
}

/// Decodes `units` as UTF-16, strictly: the text, or nothing where a
/// surrogate stands without its partner.
pub fn decode_utf16(units: &[u16]) -> (text: Option<String>)
    ensures
        match utf16_text(units@) {
            Some(chars) => text is Some && text->Some_0@ == chars,
            None => text is None,
        },
{
    decode_units(units, false)
}

/// Decodes `units` as UTF-16, with U+FFFD for each surrogate that stands
/// without its partner.
pub fn decode_utf16_lossy(units: &[u16]) -> (text: String)
    ensures
        text@ == utf16_lossy_text(units@),
{
    decode_units(units, true).unwrap()
}

} // verus!
