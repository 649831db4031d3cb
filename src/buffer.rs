use vstd::prelude::*;

use crate::codec::{be_bytes, be_value, decode_u32, encode_u32};
use crate::error::ProtocolError;
use std::ops::Range;
use vstd::slice::slice_subrange;

verus! {

/// An immutable run of bytes with bounds-checked reads.
pub struct Bytes {
    buf: Vec<u8>,
}

impl View for Bytes {
    type V = Seq<u8>;

    closed spec fn view(&self) -> Seq<u8> {
        self.buf@
    }
}

/// Bytes `[start, end)` of `b` are a 4-byte range lying inside `b`.
pub open spec fn word_in(b: Seq<u8>, start: int, end: int) -> bool {
    end - start == 4 && 0 <= start && end <= b.len()
}

/// Appends `src` to `dst`, byte by byte.
pub(crate) fn append_bytes(dst: &mut Vec<u8>, src: &[u8])
    ensures
        final(dst)@ == old(dst)@ + src@,
{
    let mut i: usize = 0;
    while i < src.len()
        invariant
            i <= src@.len(),
            dst@ == old(dst)@ + src@.subrange(0, i as int),
        decreases src@.len() - i,
    {
        dst.push(src[i]);
        i = i + 1;
        assert(dst@ =~= old(dst)@ + src@.subrange(0, i as int));
    }
    assert(src@.subrange(0, i as int) =~= src@);
}

impl Bytes {
    /// A buffer holding a copy of `buf`.
    pub fn new(buf: &[u8]) -> (r: Bytes)
        ensures
            r@ == buf@,
    {
        let mut v: Vec<u8> = Vec::new();
        append_bytes(&mut v, buf);
        Bytes { buf: v }
    }

    /// The byte at index `i`, or `Bounds` when `i` is past the end.
    pub fn get(&self, i: usize) -> (r: Result<u8, ProtocolError>)
        ensures
            i < self@.len() ==> r == Ok::<u8, ProtocolError>(self@[i as int]),
            i >= self@.len() ==> r == Err::<u8, ProtocolError>(ProtocolError::Bounds),
    {
        if i < self.buf.len() {
            Ok(self.buf[i])
        } else {
            Err(ProtocolError::Bounds)
        }
    }

    /// The bytes from `start` to the end, or `Bounds` when `start` is past the end.
    pub fn slice(&self, start: usize) -> (s: Result<&[u8], ProtocolError>)
        ensures
            start <= self@.len() ==> s is Ok && s->Ok_0@ == self@.subrange(
                start as int,
                self@.len() as int,
            ),
            start > self@.len() ==> s == Err::<&[u8], ProtocolError>(ProtocolError::Bounds),
    {
        if start <= self.buf.len() {
            Ok(slice_subrange(self.buf.as_slice(), start, self.buf.len()))
        } else {
            Err(ProtocolError::Bounds)
        }
    }

    /// Decodes bytes `[r[0].start, r[0].end)` as a big-endian `u32`.
    ///
    /// A range whose length is not 4 gives `InvalidRangeLength`; a 4-byte range
    /// that reaches past the end gives `Bounds`.
    pub fn read_u32(&self, r: &[Range<usize>; 1]) -> (v: Result<u32, ProtocolError>)
        ensures
            r@[0].end - r@[0].start != 4 ==> v == Err::<u32, ProtocolError>(
                ProtocolError::InvalidRangeLength,
            ),
            r@[0].end - r@[0].start == 4 && r@[0].end > self@.len() ==> v == Err::<
                u32,
                ProtocolError,
            >(ProtocolError::Bounds),
            word_in(self@, r@[0].start as int, r@[0].end as int) ==> v is Ok && v->Ok_0
                == be_value(self@.subrange(r@[0].start as int, r@[0].end as int)),
    {
        let start: usize = r[0].start;
        let end: usize = r[0].end;
        if end < start || end - start != 4 {
            return Err(ProtocolError::InvalidRangeLength);
        }
        if end > self.buf.len() {
            return Err(ProtocolError::Bounds);
        }
        let v = decode_u32(self.buf[start], self.buf[start + 1], self.buf[start + 2], self.buf[start + 3]);
        Ok(v)
    }

    /// The number of bytes held.
    pub fn len(&self) -> (n: usize)
        ensures
            n == self@.len(),
    {
        self.buf.len()
    }
}

/// A growable run of bytes: append-only but for patching bytes already written.
pub struct MutBytes {
    buf: Vec<u8>,
}

impl View for MutBytes {
    type V = Seq<u8>;

    closed spec fn view(&self) -> Seq<u8> {
        self.buf@
    }
}

impl MutBytes {
    /// An empty buffer.
    pub fn new() -> (r: MutBytes)
        ensures
            r@ == Seq::<u8>::empty(),
    {
        MutBytes { buf: Vec::new() }
    }

    /// Appends `other` at the end.
    pub fn extend_from_slice(&mut self, other: &[u8])
        ensures
            final(self)@ == old(self)@ + other@,
    {
        append_bytes(&mut self.buf, other);
    }

    /// Appends raw bytes at the end.
    pub fn put_u8(&mut self, bytes: &[u8])
        ensures
            final(self)@ == old(self)@ + bytes@,
    {
        self.extend_from_slice(bytes);
    }

    /// Appends the big-endian encoding of `v`.
    pub fn put_u32(&mut self, v: u32)
        ensures
            final(self)@ == old(self)@ + be_bytes(v),
    {
        let b = encode_u32(v);
        self.extend_from_slice(b.as_slice());
    }

    /// Overwrites bytes `[slice.start, slice.end)`, already written, with the
    /// big-endian encoding of `v`.
    ///
    /// A range whose length is not 4 gives `InvalidRangeLength`; one that reaches
    /// past the bytes written gives `Bounds`. On failure nothing changes.
    pub fn write_u32(&mut self, slice: Range<usize>, v: u32) -> (r: Result<(), ProtocolError>)
        ensures
            slice.end - slice.start != 4 ==> r == Err::<(), ProtocolError>(
                ProtocolError::InvalidRangeLength,
            ),
            slice.end - slice.start == 4 && slice.end > old(self)@.len() ==> r == Err::<
                (),
                ProtocolError,
            >(ProtocolError::Bounds),
            r is Err ==> final(self)@ == old(self)@,
            word_in(old(self)@, slice.start as int, slice.end as int) ==> r is Ok,
            r is Ok ==> final(self)@ == old(self)@.subrange(0, slice.start as int) + be_bytes(v)
                + old(self)@.subrange(slice.end as int, old(self)@.len() as int),
            r is Ok ==> final(self)@.len() == old(self)@.len(),
            r is Ok ==> forall|i: int|
                0 <= i < old(self)@.len() && !(slice.start <= i < slice.end) ==> final(self)@[i]
                    == old(self)@[i],
            r is Ok ==> final(self)@.subrange(slice.start as int, slice.end as int) == be_bytes(v),
    {
        let start: usize = slice.start;
        let end: usize = slice.end;
        if end < start || end - start != 4 {
            return Err(ProtocolError::InvalidRangeLength);
        }
        if end > self.buf.len() {
            return Err(ProtocolError::Bounds);
        }
        let b = encode_u32(v);
        let ghost before = self.buf@;
        self.buf.set(start, b[0]);
        self.buf.set(start + 1, b[1]);
        self.buf.set(start + 2, b[2]);
        self.buf.set(start + 3, b[3]);
        assert(self.buf@ =~= before.subrange(0, start as int) + be_bytes(v) + before.subrange(
            end as int,
            before.len() as int,
        ));
        assert(self.buf@.subrange(start as int, end as int) =~= be_bytes(v));
        Ok(())
    }

    /// The number of bytes written.
    pub fn len(&self) -> (n: usize)
        ensures
            n == self@.len(),
    {
        self.buf.len()
    }

    /// The bytes written so far.
    pub fn as_slice(&self) -> (s: &[u8])
        ensures
            s@ == self@,
    {
        self.buf.as_slice()
    }
}

} // verus!
