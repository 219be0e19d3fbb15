//! Text read from a source and written to a sink: runs of known length in
//! UTF-8 or UTF-16, and runs that end at a zero byte.
//!
//! The two ways of reading a zero-terminated run find the same run and
//! fail alike, but they leave the cursor in different places: the
//! incremental one stops after the terminator, the seek-assisted one
//! before it.
use crate::byte_order::ByteOrder;
use crate::stream::{
    advanced, drained, read_outcome, wrote, ByteSeek, ByteSink, ByteSource, SeekTo, SourceState,
    StreamError,
};
use crate::text::{
    code_units, decode_utf16, decode_utf16_lossy, decode_utf8, decode_utf8_lossy, strict_utf16,
    strict_utf8, units_of, utf16_lossy_text, utf8_lossy_text, utf8_text, InvalidEncoding,
};
use vstd::prelude::*;
use vstd::utf8::{encode_utf8, valid_utf8};

verus! {

/// The number of bytes before the first zero byte, or the length of
/// `bytes` where none is zero.
pub open spec fn run_length(bytes: Seq<u8>) -> nat
    decreases bytes.len(),
{
    if bytes.len() == 0 || bytes[0] == 0 {
        0
    } else {
        1 + run_length(bytes.skip(1))
    }
}

/// The bytes before the first zero byte.
pub open spec fn run(bytes: Seq<u8>) -> Seq<u8> {
    bytes.take(run_length(bytes) as int)
}

/// What a scan for the terminator does to the source.
///
/// A run longer than `max` fails with [`StreamError::ScanLimitExceeded`]
/// once `max + 1` bytes have been taken. Otherwise a run that ends at a zero
/// byte succeeds, with the cursor after the terminator or, for a scan that
/// leaves it, before it; and a run that ends with the stream fails with
/// [`StreamError::UnexpectedEndOfStream`] and drains the source.
pub open spec fn scan_outcome<T>(
    before: SourceState,
    after: SourceState,
    max: Option<usize>,
    takes_terminator: bool,
    r: Result<T, StreamError>,
) -> bool {
    let length = run_length(before.remaining);
    if max is Some && length > max->Some_0 {
        &&& r is Err
        &&& r->Err_0 == StreamError::ScanLimitExceeded
        &&& advanced(before, after, (max->Some_0 + 1) as nat)
    } else if length < before.remaining.len() {
        &&& r is Ok
        &&& advanced(
            before,
            after,
            if takes_terminator {
                length + 1
            } else {
                length
            },
        )
    } else {
        &&& r is Err
        &&& r->Err_0 == StreamError::UnexpectedEndOfStream
        &&& drained(before, after)
    }
}

/// What a strict read of a zero-terminated string does: the scan, and on
/// success the strict reading of the run as UTF-8.
pub open spec fn cstr_outcome(
    before: SourceState,
    after: SourceState,
    max: Option<usize>,
    takes_terminator: bool,
    r: Result<Result<String, InvalidEncoding>, StreamError>,
) -> bool {
    &&& scan_outcome(before, after, max, takes_terminator, r)
    &&& r matches Ok(text) ==> strict_utf8(run(before.remaining), text)
}

/// What a lossy read of a zero-terminated string does: the scan, and on
/// success the lossy reading of the run as UTF-8.
pub open spec fn cstr_lossy_outcome(
    before: SourceState,
    after: SourceState,
    max: Option<usize>,
    takes_terminator: bool,
    r: Result<String, StreamError>,
) -> bool {
    &&& scan_outcome(before, after, max, takes_terminator, r)
    &&& r matches Ok(text) ==> {
        &&& text@ == utf8_lossy_text(run(before.remaining))
        &&& utf8_text(run(before.remaining)) matches Some(chars) ==> text@ == chars
    }
}

/// A run is never longer than the bytes it is taken from, and holds no zero.
pub proof fn lemma_run_length_bound(bytes: Seq<u8>)
    ensures
        run_length(bytes) <= bytes.len(),
        forall|i: int| 0 <= i < run_length(bytes) ==> bytes[i] != 0,
        run_length(bytes) < bytes.len() ==> bytes[run_length(bytes) as int] == 0,
    decreases bytes.len(),
{
    if bytes.len() > 0 && bytes[0] != 0 {
        let tail = bytes.skip(1);
        lemma_run_length_bound(tail);
        assert forall|i: int| 0 <= i < run_length(bytes) implies bytes[i] != 0 by {
            if i > 0 {
                assert(bytes[i] == tail[i - 1]);
            }
        }
    }
}

/// A prefix without a zero is part of the run; followed by a zero or by
/// the end of the bytes, it is the run.
pub proof fn lemma_run_length_of_prefix(bytes: Seq<u8>, k: nat)
    requires
        k <= bytes.len(),
        forall|i: int| 0 <= i < k ==> bytes[i] != 0,
    ensures
        run_length(bytes) >= k,
        k == bytes.len() ==> run_length(bytes) == k,
        k < bytes.len() && bytes[k as int] == 0 ==> run_length(bytes) == k,
    decreases k,
{
    if k > 0 {
        let tail = bytes.skip(1);
        assert forall|i: int| 0 <= i < k - 1 implies tail[i] != 0 by {}
        lemma_run_length_of_prefix(tail, (k - 1) as nat);
    }
}

/// The two scans agree. From the same state and under the same limit both
/// succeed or both fail with the same error; a failure leaves both sources
/// in the same state; and on success the incremental cursor stands exactly
/// one byte, the terminator, ahead of the other.
pub proof fn lemma_scans_agree<A, B>(
    before: SourceState,
    max: Option<usize>,
    after_incremental: SourceState,
    incremental: Result<A, StreamError>,
    after_fast: SourceState,
    fast: Result<B, StreamError>,
)
    requires
        scan_outcome(before, after_incremental, max, true, incremental),
        scan_outcome(before, after_fast, max, false, fast),
    ensures
        incremental is Ok <==> fast is Ok,
        incremental is Err ==> incremental->Err_0 == fast->Err_0 && after_incremental
            == after_fast,
        incremental is Ok ==> after_incremental.consumed == after_fast.consumed.push(0u8)
            && after_fast.remaining == seq![0u8] + after_incremental.remaining,
{
    lemma_run_length_bound(before.remaining);
}

/// The two strict strategies agree: besides what holds of their scans,
/// both decode the same run, to the same text or to failures that hold the
/// same bytes.
pub proof fn lemma_strategies_agree(
    before: SourceState,
    max: Option<usize>,
    after_incremental: SourceState,
    incremental: Result<Result<String, InvalidEncoding>, StreamError>,
    after_fast: SourceState,
    fast: Result<Result<String, InvalidEncoding>, StreamError>,
)
    requires
        cstr_outcome(before, after_incremental, max, true, incremental),
        cstr_outcome(before, after_fast, max, false, fast),
    ensures
        incremental is Ok <==> fast is Ok,
        incremental is Err ==> incremental->Err_0 == fast->Err_0 && after_incremental
            == after_fast,
        incremental matches Ok(Ok(text)) ==> fast matches Ok(Ok(same)) && same@ == text@,
        incremental matches Ok(Err(failure)) ==> fast matches Ok(Err(same)) && same@ == failure@,
{
    lemma_scans_agree(before, max, after_incremental, incremental, after_fast, fast);
}

/// The two lossy strategies agree: besides what holds of their scans, both
/// make the same text of the same run.
pub proof fn lemma_lossy_strategies_agree(
    before: SourceState,
    max: Option<usize>,
    after_incremental: SourceState,
    incremental: Result<String, StreamError>,
    after_fast: SourceState,
    fast: Result<String, StreamError>,
)
    requires
        cstr_lossy_outcome(before, after_incremental, max, true, incremental),
        cstr_lossy_outcome(before, after_fast, max, false, fast),
    ensures
        incremental is Ok <==> fast is Ok,
        incremental is Err ==> incremental->Err_0 == fast->Err_0 && after_incremental
            == after_fast,
        incremental matches Ok(text) ==> fast matches Ok(same) && same@ == text@,
{
    lemma_scans_agree(before, max, after_incremental, incremental, after_fast, fast);
}

/// Takes bytes one at a time up to and including the first zero byte and
/// returns those before it.
fn take_run<S: ByteSource>(source: &mut S, max: Option<usize>, size_hint: Option<usize>) -> (r:
    Result<Vec<u8>, StreamError>)
    ensures
        scan_outcome(old(source).state(), final(source).state(), max, true, r),
        r matches Ok(bytes) ==> bytes@ == run(old(source).state().remaining),
{
    let ghost start = source.state();
    let ghost ahead = start.remaining;
    let capacity: usize = match size_hint {
        Some(hint) => hint,
        None => 0,
    };
    let mut buf: Vec<u8> = Vec::with_capacity(capacity);
    proof {
        assert(ahead.skip(0) =~= ahead);
    }
    loop
        invariant
            buf@.len() <= ahead.len(),
            advanced(start, source.state(), buf@.len()),
            buf@ == ahead.take(buf@.len() as int),
            forall|i: int| 0 <= i < buf@.len() ==> ahead[i] != 0,
            max matches Some(m) ==> buf@.len() <= m + 1,
            start == old(source).state(),
            ahead == start.remaining,
        decreases ahead.len() - buf@.len(),
    {
        let ghost count = buf@.len();
        let ghost now = source.state();
        proof {
            lemma_run_length_of_prefix(ahead, count);
        }
        if let Some(m) = max {
            if buf.len() > m {
                return Err(StreamError::ScanLimitExceeded);
            }
        }
        match source.read_exact(1) {
            Err(e) => {
                proof {
                    assert(ahead.take(count as int) =~= ahead);
                }
                return Err(e);
            },
            Ok(next) => {
                let byte: u8 = next[0];
                proof {
                    assert(now.consumed + now.remaining.take(1) =~= start.consumed + ahead.take(
                        count as int + 1,
                    ));
                    assert(now.remaining.skip(1) =~= ahead.skip(count as int + 1));
                }
                if byte == 0 {
                    return Ok(buf);
                }
                buf.push(byte);
            },
        }
    }
}

/// Counts the bytes up to the first zero byte, seeks back to where it
/// began, and takes the counted bytes in one read.
fn take_run_fast<S: ByteSeek>(source: &mut S, max: Option<usize>) -> (r: Result<
    Vec<u8>,
    StreamError,
>)
    ensures
        scan_outcome(old(source).state(), final(source).state(), max, false, r),
        r matches Ok(bytes) ==> bytes@ == run(old(source).state().remaining),
{
    let ghost start = source.state();
    let ghost ahead = start.remaining;
    let mut length: usize = 0;
    proof {
        assert(ahead.skip(0) =~= ahead);
    }
    loop
        invariant
            length <= ahead.len(),
            advanced(start, source.state(), length as nat),
            forall|i: int| 0 <= i < length ==> ahead[i] != 0,
            max matches Some(m) ==> length <= m,
            start == old(source).state(),
            ahead == start.remaining,
        decreases ahead.len() - length,
    {
        let ghost now = source.state();
        proof {
            lemma_run_length_of_prefix(ahead, length as nat);
        }
        match source.read_exact(1) {
            Err(e) => {
                proof {
                    assert(ahead.take(length as int) =~= ahead);
                }
                return Err(e);
            },
            Ok(next) => {
                let byte: u8 = next[0];
                proof {
                    assert(now.consumed + now.remaining.take(1) =~= start.consumed + ahead.take(
                        length + 1,
                    ));
                    assert(now.remaining.skip(1) =~= ahead.skip(length + 1));
                }
                if byte == 0 {
                    let ghost found = source.state();
                    return match source.seek(SeekTo::Backward(length + 1)) {
                        Err(e) => Err(e),
                        Ok(_) => {
                            proof {
                                let whole = found.consumed + found.remaining;
                                assert(whole.take(start.consumed.len() as int) =~= start.consumed);
                                assert(whole.skip(start.consumed.len() as int) =~= ahead);
                            }
                            source.read_exact(length)
                        },
                    };
                }
                length += 1;
                proof {
                    lemma_run_length_of_prefix(ahead, length as nat);
                }
                if let Some(m) = max {
                    if length > m {
                        return Err(StreamError::ScanLimitExceeded);
                    }
                }
            },
        }
    }
}

/// Reading text from any source of bytes.
pub trait ReadStrings: ByteSource {
    /// Reads `len` bytes and decodes them as UTF-8, strictly.
    ///
    /// The bytes are taken from the source before they are examined, so a
    /// failed decode leaves the cursor where a successful one would, and
    /// the failure holds the bytes for another attempt.
    fn read_str_utf8(&mut self, len: usize) -> (r: Result<
        Result<String, InvalidEncoding>,
        StreamError,
    >)
        ensures
            read_outcome(old(self).state(), final(self).state(), len as nat, r),
            r matches Ok(text) ==> strict_utf8(
                old(self).state().remaining.take(len as int),
                text,
            ),
    {
        match self.read_exact(len) {
            Ok(bytes) => Ok(decode_utf8(bytes)),
            Err(e) => Err(e),
        }
    }

    /// Reads `len` bytes that the caller knows to be valid UTF-8.
    ///
    /// The knowledge is a proof obligation: where the bytes are there to
    /// be read, they must encode a text. Decoding then cannot fail.
    fn read_str_utf8_unchecked(&mut self, len: usize) -> (r: Result<String, StreamError>)
        requires
            len <= old(self).state().remaining.len() ==> valid_utf8(
                old(self).state().remaining.take(len as int),
            ),
        ensures
            read_outcome(old(self).state(), final(self).state(), len as nat, r),
            r matches Ok(text) ==> text@ == vstd::utf8::decode_utf8(
                old(self).state().remaining.take(len as int),
            ),
    {
        match self.read_exact(len) {
            Ok(bytes) => Ok(decode_utf8_lossy(bytes.as_slice())),
            Err(e) => Err(e),
        }
    }

    /// Reads `len` bytes and decodes them as UTF-8, with U+FFFD in place of
    /// what is malformed.
    fn read_str_utf8_lossy(&mut self, len: usize) -> (r: Result<String, StreamError>)
        ensures
            read_outcome(old(self).state(), final(self).state(), len as nat, r),
            r matches Ok(text) ==> {
                let bytes = old(self).state().remaining.take(len as int);
                &&& text@ == utf8_lossy_text(bytes)
                &&& utf8_text(bytes) matches Some(chars) ==> text@ == chars
            },
    {
        match self.read_exact(len) {
            Ok(bytes) => Ok(decode_utf8_lossy(bytes.as_slice())),
            Err(e) => Err(e),
        }
    }

    /// Reads `len` 16-bit code units in the given byte order and decodes
    /// them as UTF-16, strictly.
    ///
    /// A count whose bytes cannot be counted in a `usize` is refused before
    /// anything is read.
    fn read_str_utf16_in(&mut self, len: usize, order: ByteOrder) -> (r: Result<
        Result<String, InvalidEncoding>,
        StreamError,
    >)
        ensures
            2 * len > usize::MAX ==> r is Err && r->Err_0 == StreamError::LengthOverflow
                && final(self).state() == old(self).state(),
            2 * len <= usize::MAX ==> read_outcome(
                old(self).state(),
                final(self).state(),
                (2 * len) as nat,
                r,
            ),
            r matches Ok(text) ==> strict_utf16(
                order,
                old(self).state().remaining.take(2 * len),
                text,
            ),
    {
        let byte_len: usize = match len.checked_mul(2) {
            Some(n) => n,
            None => {
                return Err(StreamError::LengthOverflow);
            },
        };
        match self.read_exact(byte_len) {
            Ok(bytes) => {
                let units: Vec<u16> = code_units(bytes.as_slice(), order);
                match decode_utf16(units.as_slice()) {
                    Some(text) => Ok(Ok(text)),
                    None => Ok(Err(InvalidEncoding::new(bytes))),
                }
            },
            Err(e) => Err(e),
        }
    }

    /// Reads `len` 16-bit code units in the given byte order and decodes
    /// them as UTF-16, with U+FFFD for each surrogate without its partner.
    fn read_str_utf16_lossy_in(&mut self, len: usize, order: ByteOrder) -> (r: Result<
        String,
        StreamError,
    >)
        ensures
            2 * len > usize::MAX ==> r is Err && r->Err_0 == StreamError::LengthOverflow
                && final(self).state() == old(self).state(),
            2 * len <= usize::MAX ==> read_outcome(
                old(self).state(),
                final(self).state(),
                (2 * len) as nat,
                r,
            ),
            r matches Ok(text) ==> text@ == utf16_lossy_text(
                units_of(order, old(self).state().remaining.take(2 * len)),
            ),
    {
        let byte_len: usize = match len.checked_mul(2) {
            Some(n) => n,
            None => {
                return Err(StreamError::LengthOverflow);
            },
        };
        match self.read_exact(byte_len) {
            Ok(bytes) => {
                let units: Vec<u16> = code_units(bytes.as_slice(), order);
                Ok(decode_utf16_lossy(units.as_slice()))
            },
            Err(e) => Err(e),
        }
    }

    /// Reads `len` 16-bit code units in the byte order of the machine,
    /// whichever of the two that is, and decodes them as UTF-16, strictly.
    ///
    /// There is no little- or big-endian form of this method; a caller
    /// whose units are in a known order uses
    /// [`read_str_utf16_in`](Self::read_str_utf16_in).
    fn read_str_utf16(&mut self, len: usize) -> (r: Result<
        Result<String, InvalidEncoding>,
        StreamError,
    >)
        ensures
            2 * len > usize::MAX ==> r is Err && r->Err_0 == StreamError::LengthOverflow
                && final(self).state() == old(self).state(),
            2 * len <= usize::MAX ==> read_outcome(
                old(self).state(),
                final(self).state(),
                (2 * len) as nat,
                r,
            ),
            r matches Ok(text) ==> {
                let bytes = old(self).state().remaining.take(2 * len);
                strict_utf16(ByteOrder::Little, bytes, text) || strict_utf16(
                    ByteOrder::Big,
                    bytes,
                    text,
                )
            },
    {
        self.read_str_utf16_in(len, ByteOrder::native())
    }

    /// Reads `len` 16-bit code units in the byte order of the machine,
    /// whichever of the two that is, and decodes them as UTF-16, with
    /// U+FFFD for each surrogate without its partner.
    fn read_str_utf16_lossy(&mut self, len: usize) -> (r: Result<String, StreamError>)
        ensures
            2 * len > usize::MAX ==> r is Err && r->Err_0 == StreamError::LengthOverflow
                && final(self).state() == old(self).state(),
            2 * len <= usize::MAX ==> read_outcome(
                old(self).state(),
                final(self).state(),
                (2 * len) as nat,
                r,
            ),
            r matches Ok(text) ==> {
                let bytes = old(self).state().remaining.take(2 * len);
                ||| text@ == utf16_lossy_text(units_of(ByteOrder::Little, bytes))
                ||| text@ == utf16_lossy_text(units_of(ByteOrder::Big, bytes))
            },
    {
        self.read_str_utf16_lossy_in(len, ByteOrder::native())
    }

    /// Reads a zero-terminated string byte by byte and decodes it as UTF-8,
    /// strictly. On success the cursor stands after the terminator.
    ///
    /// With a `max`, a run of more than `max` bytes is given up once
    /// `max + 1` of them have been taken. The `size_hint` sizes the buffer
    /// in advance and changes nothing else.
    fn read_cstr_utf8(&mut self, max: Option<usize>, size_hint: Option<usize>) -> (r: Result<
        Result<String, InvalidEncoding>,
        StreamError,
    >)
        ensures
            cstr_outcome(old(self).state(), final(self).state(), max, true, r),
    {
        match take_run(self, max, size_hint) {
            Ok(bytes) => Ok(decode_utf8(bytes)),
            Err(e) => Err(e),
        }
    }

    /// Reads a zero-terminated string byte by byte and decodes it as UTF-8,
    /// with U+FFFD in place of what is malformed. On success the cursor
    /// stands after the terminator.
    fn read_cstr_utf8_lossy(&mut self, max: Option<usize>, size_hint: Option<usize>) -> (r: Result<
        String,
        StreamError,
    >)
        ensures
            cstr_lossy_outcome(old(self).state(), final(self).state(), max, true, r),
    {
        match take_run(self, max, size_hint) {
            Ok(bytes) => Ok(decode_utf8_lossy(bytes.as_slice())),
            Err(e) => Err(e),
        }
    }

    /// Reads a zero-terminated string in two passes and decodes it as
    /// UTF-8, strictly: it counts up to the terminator, seeks back, and
    /// takes the run in one read. On success the cursor stands before the
    /// terminator, which is left in the source.
    fn read_cstr_utf8_fast(&mut self, max: Option<usize>) -> (r: Result<
        Result<String, InvalidEncoding>,
        StreamError,
    >) where Self: ByteSeek
        ensures
            cstr_outcome(old(self).state(), final(self).state(), max, false, r),
    {
        match take_run_fast(self, max) {
            Ok(bytes) => Ok(decode_utf8(bytes)),
            Err(e) => Err(e),
        }
    }

    /// Reads a zero-terminated string in two passes and decodes it as
    /// UTF-8, with U+FFFD in place of what is malformed. On success the
    /// cursor stands before the terminator, which is left in the source.
    fn read_cstr_utf8_lossy_fast(&mut self, max: Option<usize>) -> (r: Result<
        String,
        StreamError,
    >) where Self: ByteSeek
        ensures
            cstr_lossy_outcome(old(self).state(), final(self).state(), max, false, r),
    {
        match take_run_fast(self, max) {
            Ok(bytes) => Ok(decode_utf8_lossy(bytes.as_slice())),
            Err(e) => Err(e),
        }
    }
}

impl<R: ByteSource> ReadStrings for R {

}

/// Writing text to any sink of bytes.
pub trait WriteStrings: ByteSink {
    /// Writes the UTF-8 bytes of `text`, as they are, and returns what the
    /// sink reports.
    fn write_str_utf8(&mut self, text: &str) -> (r: Result<usize, StreamError>)
        ensures
            wrote(*old(self), *final(self), encode_utf8(text@), r),
    {
        self.write(text.as_bytes())
    }
}

impl<W: ByteSink> WriteStrings for W {

}

} // verus!
