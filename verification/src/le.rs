//! Little-endian integers in byte strings, and a cursor that reads them.

use byteorder::{ByteOrder, LittleEndian};
use vstd::prelude::*;
use vstd::slice::slice_subrange;

verus! {

/// The unsigned number held by the two bytes of `s` that start at `at`, low byte first.
pub open spec fn le_u16(s: Seq<u8>, at: int) -> int {
    s[at] as int + 0x100 * (s[at + 1] as int)
}

/// The unsigned number held by the four bytes of `s` that start at `at`, low byte first.
pub open spec fn le_u32(s: Seq<u8>, at: int) -> int {
    le_u16(s, at) + 0x1_0000 * le_u16(s, at + 2)
}

/// The unsigned number held by the eight bytes of `s` that start at `at`, low byte first.
pub open spec fn le_u64(s: Seq<u8>, at: int) -> int {
    le_u32(s, at) + 0x1_0000_0000 * le_u32(s, at + 4)
}

/// The two's-complement number held by the four bytes of `s` that start at `at`, low byte first.
pub open spec fn le_i32(s: Seq<u8>, at: int) -> int {
    if le_u32(s, at) < 0x8000_0000 {
        le_u32(s, at)
    } else {
        le_u32(s, at) - 0x1_0000_0000
    }
}

/// Trusted: `byteorder::LittleEndian::read_u16`, which panics on fewer than two
/// bytes and otherwise gives the little-endian value of the first two.
#[verifier::external_body]
fn read_u16_le(buf: &[u8]) -> (v: u16)
    requires
        buf@.len() >= 2,
    ensures
        v as int == le_u16(buf@, 0),
{
    LittleEndian::read_u16(buf)
}

/// Trusted: `byteorder::LittleEndian::read_u32`, which panics on fewer than four
/// bytes and otherwise gives the little-endian value of the first four.
#[verifier::external_body]
fn read_u32_le(buf: &[u8]) -> (v: u32)
    requires
        buf@.len() >= 4,
    ensures
        v as int == le_u32(buf@, 0),
{
    LittleEndian::read_u32(buf)
}

/// Trusted: `byteorder::LittleEndian::read_u64`, which panics on fewer than eight
/// bytes and otherwise gives the little-endian value of the first eight.
#[verifier::external_body]
fn read_u64_le(buf: &[u8]) -> (v: u64)
    requires
        buf@.len() >= 8,
    ensures
        v as int == le_u64(buf@, 0),
{
    LittleEndian::read_u64(buf)
}

/// Trusted: `byteorder::LittleEndian::read_i32`, which panics on fewer than four
/// bytes and otherwise gives the first four, read as a little-endian unsigned
/// number and reinterpreted in two's complement.
#[verifier::external_body]
fn read_i32_le(buf: &[u8]) -> (v: i32)
    requires
        buf@.len() >= 4,
    ensures
        v as int == le_i32(buf@, 0),
{
    LittleEndian::read_i32(buf)
}

/// A read cursor over a byte string held in memory.
pub struct ByteReader<'a> {
    data: &'a [u8],
    pos: usize,
}

impl<'a> ByteReader<'a> {
    /// The whole byte string under the cursor.
    pub closed spec fn bytes(&self) -> Seq<u8> {
        self.data@
    }

    /// The index of the next byte to be read.
    pub closed spec fn offset(&self) -> int {
        self.pos as int
    }

    /// The cursor stands inside the byte string or at its end.
    pub open spec fn wf(&self) -> bool {
        0 <= self.offset() <= self.bytes().len()
    }

    /// The number of bytes from the cursor to the end.
    pub open spec fn left(&self) -> int {
        self.bytes().len() - self.offset()
    }

    /// The same byte string with the cursor moved forward by `n`.
    pub open spec fn advanced(&self, after: &Self, n: int) -> bool {
        &&& after.wf()
        &&& after.bytes() == self.bytes()
        &&& after.offset() == self.offset() + n
    }

    /// A cursor at the start of `data`.
    pub fn new(data: &'a [u8]) -> (r: Self)
        ensures
            r.wf(),
            r.bytes() == data@,
            r.offset() == 0,
    {
        ByteReader { data, pos: 0 }
    }

    /// The index of the next byte to be read.
    pub fn position(&self) -> (p: usize)
        requires
            self.wf(),
        ensures
            p == self.offset(),
            p <= self.bytes().len(),
    {
        self.pos
    }

    /// The number of bytes from the cursor to the end.
    pub fn remaining(&self) -> (n: usize)
        requires
            self.wf(),
        ensures
            n == self.left(),
    {
        self.data.len() - self.pos
    }

    /// Moves the cursor to the absolute index `to`. A target past the end is
    /// refused and leaves the cursor where it was.
    pub fn seek(&mut self, to: u64) -> (moved: bool)
        requires
            old(self).wf(),
        ensures
            final(self).wf(),
            final(self).bytes() == old(self).bytes(),
            moved == (to <= old(self).bytes().len()),
            moved ==> final(self).offset() == to,
            !moved ==> final(self).offset() == old(self).offset(),
    {
        if to <= self.data.len() as u64 {
            self.pos = to as usize;
            true
        } else {
            false
        }
    }

    /// Takes the next `n` bytes. With fewer left, nothing is taken.
    pub fn read_exact(&mut self, n: usize) -> (r: Option<&'a [u8]>)
        requires
            old(self).wf(),
        ensures
            r is Some == (n <= old(self).left()),
            r is None ==> *final(self) == *old(self),
            r matches Some(taken) ==> old(self).advanced(final(self), n as int) && taken@
                == old(self).bytes().subrange(old(self).offset(), old(self).offset() + n),
    {
        if n <= self.data.len() - self.pos {
            let taken = slice_subrange(self.data, self.pos, self.pos + n);
            self.pos = self.pos + n;
            Some(taken)
        } else {
            None
        }
    }

    /// Takes the next byte.
    pub fn read_u8(&mut self) -> (r: Option<u8>)
        requires
            old(self).wf(),
        ensures
            r is Some == (1 <= old(self).left()),
            r is None ==> *final(self) == *old(self),
            r matches Some(v) ==> old(self).advanced(final(self), 1) && v == old(self).bytes()[old(
                self,
            ).offset()],
    {
        match self.read_exact(1) {
            Some(taken) => Some(taken[0]),
            None => None,
        }
    }

    /// Takes the next two bytes as a little-endian unsigned number.
    pub fn read_u16(&mut self) -> (r: Option<u16>)
        requires
            old(self).wf(),
        ensures
            r is Some == (2 <= old(self).left()),
            r is None ==> *final(self) == *old(self),
            r matches Some(v) ==> old(self).advanced(final(self), 2) && v == le_u16(
                old(self).bytes(),
                old(self).offset(),
            ),
    {
        match self.read_exact(2) {
            Some(taken) => Some(read_u16_le(taken)),
            None => None,
        }
    }

    /// Takes the next four bytes as a little-endian unsigned number.
    pub fn read_u32(&mut self) -> (r: Option<u32>)
        requires
            old(self).wf(),
        ensures
            r is Some == (4 <= old(self).left()),
            r is None ==> *final(self) == *old(self),
            r matches Some(v) ==> old(self).advanced(final(self), 4) && v == le_u32(
                old(self).bytes(),
                old(self).offset(),
            ),
    {
        match self.read_exact(4) {
            Some(taken) => Some(read_u32_le(taken)),
            None => None,
        }
    }

    /// Takes the next four bytes as a little-endian two's-complement number.
    pub fn read_i32(&mut self) -> (r: Option<i32>)
        requires
            old(self).wf(),
        ensures
            r is Some == (4 <= old(self).left()),
            r is None ==> *final(self) == *old(self),
            r matches Some(v) ==> old(self).advanced(final(self), 4) && v == le_i32(
                old(self).bytes(),
                old(self).offset(),
            ),
    {
        match self.read_exact(4) {
            Some(taken) => Some(read_i32_le(taken)),
            None => None,
        }
    }

    /// Takes the next eight bytes as a little-endian unsigned number.
    pub fn read_u64(&mut self) -> (r: Option<u64>)
        requires
            old(self).wf(),
        ensures
            r is Some == (8 <= old(self).left()),
            r is None ==> *final(self) == *old(self),
            r matches Some(v) ==> old(self).advanced(final(self), 8) && v == le_u64(
                old(self).bytes(),
                old(self).offset(),
            ),
    {
        match self.read_exact(8) {
            Some(taken) => Some(read_u64_le(taken)),
            None => None,
        }
    }
}

} // verus!
