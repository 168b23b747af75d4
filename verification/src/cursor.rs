//! A seekable cursor over a finite, in-memory byte source.
//!
//! The cursor is positioned by absolute offset and hands out exact-length
//! byte runs; interpreting those bytes as big-endian integers is the
//! decoders' business (`codec`).

use vstd::prelude::*;

verus! {

/// A failure of the byte source itself: either too few bytes remained for
/// an exact-length read, or a seek target lay beyond the end.
#[derive(Clone, Copy, Debug, PartialEq, Eq)]
pub enum CursorError {
    /// Fewer than `expected` bytes remained at `offset`.
    Truncated { offset: u64, expected: u64, available: u64 },
    /// A seek asked for `offset`, past the source of length `length`.
    OutOfRange { offset: u64, length: u64 },
}

/// A read-only byte source with an absolute position.
pub struct Cursor<'a> {
    data: &'a [u8],
    pos: usize,
}

impl<'a> Cursor<'a> {
    /// The bytes of the source.
    pub closed spec fn bytes(self) -> Seq<u8> {
        self.data@
    }

    /// The current absolute position.
    pub closed spec fn position(self) -> int {
        self.pos as int
    }

    /// The position never lies beyond the end of the source.
    pub open spec fn wf(self) -> bool {
        0 <= self.position() <= self.bytes().len()
    }

    /// A fresh cursor at the start of `data`.
    pub fn new(data: &'a [u8]) -> (c: Cursor<'a>)
        ensures
            c.wf(),
            c.bytes() == data@,
            c.position() == 0,
    {
        Cursor { data, pos: 0 }
    }

    /// Moves the position to the absolute offset, which may equal the
    /// source length (a later read then fails) but may not exceed it.
    pub fn seek_absolute(&mut self, offset: u32) -> (r: Result<(), CursorError>)
        requires
            old(self).wf(),
        ensures
            final(self).wf(),
            final(self).bytes() == old(self).bytes(),
            offset <= old(self).bytes().len() ==> {
                &&& r is Ok
                &&& final(self).position() == offset
            },
            offset > old(self).bytes().len() ==> {
                &&& r == Err::<(), CursorError>(
                    CursorError::OutOfRange {
                        offset: offset as u64,
                        length: old(self).bytes().len() as u64,
                    },
                )
                &&& final(self).position() == old(self).position()
            },
    {
        if offset as usize <= self.data.len() {
            self.pos = offset as usize;
            Ok(())
        } else {
            Err(CursorError::OutOfRange { offset: offset as u64, length: self.data.len() as u64 })
        }
    }

    /// Reads exactly `n` bytes, advancing the position by `n`; fails, and
    /// moves nothing, if fewer than `n` bytes remain.
    pub fn read_exact(&mut self, n: usize) -> (r: Result<Vec<u8>, CursorError>)
        requires
            old(self).wf(),
        ensures
            final(self).wf(),
            final(self).bytes() == old(self).bytes(),
            old(self).position() + n <= old(self).bytes().len() ==> {
                &&& r matches Ok(v) && v@ == old(self).bytes().subrange(
                    old(self).position(),
                    old(self).position() + n,
                )
                &&& final(self).position() == old(self).position() + n
            },
            old(self).position() + n > old(self).bytes().len() ==> {
                &&& r == Err::<Vec<u8>, CursorError>(
                    CursorError::Truncated {
                        offset: old(self).position() as u64,
                        expected: n as u64,
                        available: (old(self).bytes().len() - old(self).position()) as u64,
                    },
                )
                &&& final(self).position() == old(self).position()
            },
    {
        if n <= self.data.len() - self.pos {
            let mut v: Vec<u8> = Vec::new();
            let mut j: usize = 0;
            while j < n
                invariant
                    j <= n,
                    self.pos + n <= self.data.len(),
                    v@ =~= self.data@.subrange(self.pos as int, self.pos + j),
                decreases n - j,
            {
                v.push(self.data[self.pos + j]);
                assert(v@ =~= self.data@.subrange(self.pos as int, self.pos + j + 1));
                j += 1;
            }
            self.pos = self.pos + n;
            Ok(v)
        } else {
            Err(CursorError::Truncated {
                offset: self.pos as u64,
                expected: n as u64,
                available: (self.data.len() - self.pos) as u64,
            })
        }
    }
}

} // verus!
