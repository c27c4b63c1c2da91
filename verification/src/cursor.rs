//! An in-memory seekable byte source with a single read position.

use vstd::prelude::*;
use vstd::slice::{slice_subrange, slice_to_vec};
use crate::error::PackageError;

verus! {

/// The number of bytes of `bytes` that lie at or after `position`.
pub open spec fn available(bytes: Seq<u8>, position: u64) -> nat {
    if position <= bytes.len() {
        (bytes.len() - position) as nat
    } else {
        0
    }
}

/// What reading exactly `len` bytes of `bytes` at `position` yields: the
/// bytes, or the error that names the read that ran past the end. A read of
/// no bytes succeeds wherever the position stands.
pub open spec fn read_at(bytes: Seq<u8>, position: u64, len: usize) -> Result<
    Seq<u8>,
    PackageError,
> {
    if len <= available(bytes, position) {
        if len == 0 {
            Ok(Seq::empty())
        } else {
            Ok(bytes.subrange(position as int, position + len))
        }
    } else {
        Err(PackageError::UnexpectedEof { offset: position, requested: len })
    }
}

/// A byte image together with the position of the next read.
///
/// The position may be moved anywhere, also past the end of the image; only
/// a read that needs bytes that are not there fails.
pub struct ByteCursor {
    data: Vec<u8>,
    pos: u64,
}

impl ByteCursor {
    /// The whole byte image, independent of the read position.
    pub closed spec fn bytes(&self) -> Seq<u8> {
        self.data@
    }

    /// The offset at which the next read starts.
    pub closed spec fn position(&self) -> u64 {
        self.pos
    }

    /// Wraps a byte image, positioned at its start.
    pub fn new(data: Vec<u8>) -> (cursor: Self)
        ensures
            cursor.bytes() == data@,
            cursor.position() == 0,
    {
        ByteCursor { data, pos: 0 }
    }

    /// The number of bytes in the image.
    pub fn len(&self) -> (n: usize)
        ensures
            n == self.bytes().len(),
    {
        self.data.len()
    }

    /// Moves the read position to the absolute offset `pos`.
    pub fn seek(&mut self, pos: u64)
        ensures
            final(self).bytes() == old(self).bytes(),
            final(self).position() == pos,
    {
        self.pos = pos;
    }

    /// Reads exactly `len` bytes at the read position and advances past
    /// them. When fewer than `len` bytes are left the read fails and the
    /// position stays where it was.
    pub fn read_exact(&mut self, len: usize) -> (result: Result<Vec<u8>, PackageError>)
        ensures
            final(self).bytes() == old(self).bytes(),
            match read_at(old(self).bytes(), old(self).position(), len) {
                Ok(bytes) => result matches Ok(v) && v@ == bytes && final(self).position() == old(
                    self,
                ).position() + len,
                Err(e) => result == Err::<Vec<u8>, PackageError>(e) && final(self).position()
                    == old(self).position(),
            },
    {
        let size = self.data.len();
        let start: usize = if self.pos <= size as u64 {
            self.pos as usize
        } else {
            size
        };
        if len > size - start {
            return Err(PackageError::UnexpectedEof { offset: self.pos, requested: len });
        }
        let bytes = slice_to_vec(slice_subrange(self.data.as_slice(), start, start + len));
        self.pos = self.pos + len as u64;
        Ok(bytes)
    }
}

} // verus!
