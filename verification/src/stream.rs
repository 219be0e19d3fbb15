//! The byte-stream capabilities that the codecs borrow, and in-memory
//! streams that offer them.
//!
//! A source is modelled by two sequences: the bytes already behind its
//! cursor and the bytes still ahead of it. Reading moves bytes from the
//! second to the first; seeking moves the cut between them and never changes
//! their concatenation. A sink is modelled by the sequence of bytes it has
//! taken so far.
use vstd::prelude::*;
use vstd::slice::{slice_subrange, slice_to_vec};

verus! {

/// Why a stream operation did not deliver.
#[derive(Clone, Copy, Debug, PartialEq, Eq, Structural)]
pub enum StreamError {
    /// Fewer bytes were left than an exact read asked for.
    UnexpectedEndOfStream,
    /// A count of code units does not fit as a count of bytes.
    LengthOverflow,
    /// No terminator showed up within the caller's scan limit.
    ScanLimitExceeded,
    /// A seek aimed before the start or past the end of the stream.
    InvalidSeek,
}

/// Where a seek should put the cursor.
#[derive(Clone, Copy, Debug, PartialEq, Eq, Structural)]
pub enum SeekTo {
    /// This many bytes after the start of the stream.
    Start(usize),
    /// This many bytes after the current position.
    Forward(usize),
    /// This many bytes before the current position.
    Backward(usize),
}

/// What a source looks like to a proof: its bytes, cut at the cursor.
pub struct SourceState {
    /// The bytes behind the cursor, oldest first.
    pub consumed: Seq<u8>,
    /// The bytes ahead of the cursor, next first.
    pub remaining: Seq<u8>,
}

/// A sequential source of bytes.
pub trait ByteSource: Sized {
    /// The bytes of the source and where its cursor stands among them.
    spec fn state(&self) -> SourceState;

    /// Reads exactly `n` bytes, or fails.
    ///
    /// A read that finds fewer than `n` bytes left delivers none of them
    /// and leaves the cursor at the end of the stream.
    fn read_exact(&mut self, n: usize) -> (r: Result<Vec<u8>, StreamError>)
        ensures
            read_outcome(old(self).state(), final(self).state(), n as nat, r),
            r matches Ok(bytes) ==> bytes@ == old(self).state().remaining.take(n as int),
            final(self).state().consumed.len() <= usize::MAX,
    ;
}

/// A source whose cursor can be moved.
pub trait ByteSeek: ByteSource {
    /// Moves the cursor and returns its new offset from the start.
    ///
    /// A seek that aims outside the stream fails and moves nothing.
    fn seek(&mut self, to: SeekTo) -> (r: Result<usize, StreamError>)
        ensures
            seek_outcome(old(self).state(), final(self).state(), to, r),
    ;
}

/// A sequential sink of bytes.
pub trait ByteSink: Sized {
    /// Every byte taken so far, oldest first.
    spec fn written(&self) -> Seq<u8>;

    /// How a write of `n` bytes would end in this state: with the number of
    /// bytes taken, at most `n`, or with a failure.
    spec fn offer(&self, n: nat) -> Result<nat, StreamError>;

    /// Writes a prefix of `buf` and returns its length.
    ///
    /// A short write is reported, not retried.
    fn write(&mut self, buf: &[u8]) -> (r: Result<usize, StreamError>)
        ensures
            write_outcome(
                old(self).offer(buf@.len()),
                old(self).written(),
                final(self).written(),
                buf@,
                r,
            ),
    ;
}

/// `after` is `before` with its next `n` bytes moved behind the cursor.
pub open spec fn advanced(before: SourceState, after: SourceState, n: nat) -> bool {
    &&& n <= before.remaining.len()
    &&& after.consumed == before.consumed + before.remaining.take(n as int)
    &&& after.remaining == before.remaining.skip(n as int)
}

/// `after` is `before` with everything that was left moved behind the cursor.
pub open spec fn drained(before: SourceState, after: SourceState) -> bool {
    &&& after.consumed == before.consumed + before.remaining
    &&& after.remaining == Seq::<u8>::empty()
}

/// What an exact read of `n` bytes does: with `n` bytes left it succeeds and
/// advances by `n`; with fewer it fails and drains the stream.
pub open spec fn read_outcome<T>(
    before: SourceState,
    after: SourceState,
    n: nat,
    r: Result<T, StreamError>,
) -> bool {
    if n <= before.remaining.len() {
        r is Ok && advanced(before, after, n)
    } else {
        r is Err && r->Err_0 == StreamError::UnexpectedEndOfStream && drained(before, after)
    }
}

/// The offset from the start at which a seek aims, if it lies in a stream
/// with `behind` bytes before the cursor and `ahead` bytes after it.
pub open spec fn seek_target(behind: nat, ahead: nat, to: SeekTo) -> Option<nat> {
    match to {
        SeekTo::Start(offset) => if offset <= behind + ahead {
            Some(offset as nat)
        } else {
            None
        },
        SeekTo::Forward(distance) => if distance <= ahead {
            Some(behind + distance as nat)
        } else {
            None
        },
        SeekTo::Backward(distance) => if distance <= behind {
            Some((behind - distance) as nat)
        } else {
            None
        },
    }
}

/// What a seek does: it cuts the same bytes at its target, or fails and
/// leaves the cut where it was.
pub open spec fn seek_outcome(
    before: SourceState,
    after: SourceState,
    to: SeekTo,
    r: Result<usize, StreamError>,
) -> bool {
    let whole = before.consumed + before.remaining;
    match seek_target(before.consumed.len(), before.remaining.len(), to) {
        Some(target) => {
            &&& r is Ok
            &&& r->Ok_0 as nat == target
            &&& after.consumed == whole.take(target as int)
            &&& after.remaining == whole.skip(target as int)
        },
        None => r == Err::<usize, StreamError>(StreamError::InvalidSeek) && after == before,
    }
}

/// What a write of `bytes` does to a sink that held `before` and has made
/// `offer` for it: the sink takes the prefix it offered to take and reports
/// its length, or fails and takes nothing.
pub open spec fn write_outcome(
    offer: Result<nat, StreamError>,
    before: Seq<u8>,
    after: Seq<u8>,
    bytes: Seq<u8>,
    r: Result<usize, StreamError>,
) -> bool {
    match offer {
        Ok(taken) => {
            &&& taken <= bytes.len()
            &&& r is Ok
            &&& r->Ok_0 as nat == taken
            &&& after == before + bytes.take(taken as int)
        },
        Err(e) => r == Err::<usize, StreamError>(e) && after == before,
    }
}

/// A write of `bytes` took `before` to `after` and reported `r`.
pub open spec fn wrote<W: ByteSink>(
    before: W,
    after: W,
    bytes: Seq<u8>,
    r: Result<usize, StreamError>,
) -> bool {
    write_outcome(before.offer(bytes.len()), before.written(), after.written(), bytes, r)
}

/// A seekable source over bytes held in memory.
#[derive(Debug)]
pub struct Cursor {
    data: Vec<u8>,
    pos: usize,
}

impl Cursor {
    #[verifier::type_invariant]
    spec fn in_bounds(&self) -> bool {
        self.pos <= self.data@.len()
    }

    /// A cursor at the start of `data`.
    pub fn new(data: Vec<u8>) -> (cursor: Cursor)
        ensures
            cursor.state().consumed == Seq::<u8>::empty(),
            cursor.state().remaining == data@,
    {
        let cursor = Cursor { data, pos: 0 };
        cursor
    }

    /// The cursor's offset from the start.
    pub fn position(&self) -> (p: usize)
        ensures
            p as nat == self.state().consumed.len(),
    {
        proof {
            use_type_invariant(self);
        }
        self.pos
    }

    /// The number of bytes ahead of the cursor.
    pub fn remaining_len(&self) -> (n: usize)
        ensures
            n as nat == self.state().remaining.len(),
    {
        proof {
            use_type_invariant(self);
        }
        self.data.len() - self.pos
    }

    /// Gives back the bytes, those behind the cursor and those ahead of it.
    pub fn into_inner(self) -> (data: Vec<u8>)
        ensures
            data@ == self.state().consumed + self.state().remaining,
    {
        proof {
            use_type_invariant(&self);
        }
        self.data
    }
}

impl ByteSource for Cursor {
    closed spec fn state(&self) -> SourceState {
        SourceState {
            consumed: self.data@.take(self.pos as int),
            remaining: self.data@.skip(self.pos as int),
        }
    }

    fn read_exact(&mut self, n: usize) -> (r: Result<Vec<u8>, StreamError>) {
        proof {
            use_type_invariant(&*self);
        }
        let len: usize = self.data.len();
        let start: usize = self.pos;
        if n > len - start {
            self.pos = len;
            proof {
                assert(self.data@.take(len as int) =~= old(self).data@.take(start as int) + old(
                    self,
                ).data@.skip(start as int));
                assert(self.data@.skip(len as int) =~= Seq::<u8>::empty());
            }
            return Err(StreamError::UnexpectedEndOfStream);
        }
        let bytes: Vec<u8> = slice_to_vec(slice_subrange(self.data.as_slice(), start, start + n));
        self.pos = start + n;
        proof {
            let ahead = old(self).data@.skip(start as int);
            assert(self.data@.take(start + n) =~= old(self).data@.take(start as int) + ahead.take(
                n as int,
            ));
            assert(self.data@.skip(start + n) =~= ahead.skip(n as int));
        }
        Ok(bytes)
    }
}

impl ByteSeek for Cursor {
    fn seek(&mut self, to: SeekTo) -> (r: Result<usize, StreamError>) {
        proof {
            use_type_invariant(&*self);
        }
        let len: usize = self.data.len();
        let here: usize = self.pos;
        let target: Option<usize> = match to {
            SeekTo::Start(offset) => if offset <= len {
                Some(offset)
            } else {
                None
            },
            SeekTo::Forward(distance) => if distance <= len - here {
                Some(here + distance)
            } else {
                None
            },
            SeekTo::Backward(distance) => if distance <= here {
                Some(here - distance)
            } else {
                None
            },
        };
        proof {
            assert(self.data@ =~= self.data@.take(here as int) + self.data@.skip(here as int));
        }
        match target {
            Some(offset) => {
                self.pos = offset;
                Ok(offset)
            },
            None => Err(StreamError::InvalidSeek),
        }
    }
}

/// A vector is a sink that grows: it takes every byte it is offered.
impl ByteSink for Vec<u8> {
    open spec fn written(&self) -> Seq<u8> {
        self@
    }

    open spec fn offer(&self, n: nat) -> Result<nat, StreamError> {
        Ok(n)
    }

    fn write(&mut self, buf: &[u8]) -> (r: Result<usize, StreamError>) {
        self.extend_from_slice(buf);
        assert(self@ =~= old(self)@ + buf@);
        assert(buf@.take(buf@.len() as int) =~= buf@);
        Ok(buf.len())
    }
}

/// A sink that takes bytes up to a fixed limit and no further.
///
/// A write that does not fit is cut short: the sink takes what still fits
/// and reports how much that was.
#[derive(Debug)]
pub struct BoundedSink {
    taken: Vec<u8>,
    limit: usize,
}

impl BoundedSink {
    /// The most bytes that the sink will ever hold.
    pub closed spec fn limit(&self) -> nat {
        self.limit as nat
    }

    /// The number of bytes that the sink can still take.
    pub open spec fn room(&self) -> nat {
        if self.written().len() <= self.limit() {
            (self.limit() - self.written().len()) as nat
        } else {
            0
        }
    }

    /// An empty sink that takes up to `limit` bytes.
    pub fn new(limit: usize) -> (sink: BoundedSink)
        ensures
            sink.written() == Seq::<u8>::empty(),
            sink.limit() == limit,
    {
        BoundedSink { taken: Vec::new(), limit }
    }

    /// Gives back the bytes that the sink has taken.
    pub fn into_inner(self) -> (bytes: Vec<u8>)
        ensures
            bytes@ == self.written(),
    {
        self.taken
    }
}

impl ByteSink for BoundedSink {
    closed spec fn written(&self) -> Seq<u8> {
        self.taken@
    }

    open spec fn offer(&self, n: nat) -> Result<nat, StreamError> {
        let room = self.room();
        if n <= room {
            Ok(n)
        } else {
            Ok(room)
        }
    }

    fn write(&mut self, buf: &[u8]) -> (r: Result<usize, StreamError>)
        ensures
            final(self).limit() == old(self).limit(),
    {
        let room: usize = if self.taken.len() <= self.limit {
            self.limit - self.taken.len()
        } else {
            0
        };
        let n: usize = if buf.len() <= room {
            buf.len()
        } else {
            room
        };
        self.taken.extend_from_slice(slice_subrange(buf, 0, n));
        assert(self.taken@ =~= old(self).taken@ + buf@.take(n as int));
        Ok(n)
    }
}

} // verus!
