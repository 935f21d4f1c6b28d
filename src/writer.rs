//! A sequential little-endian byte cursor over a caller-supplied buffer.

use byteorder::{ByteOrder, LittleEndian};
use vstd::prelude::*;

verus! {

/// The two bytes of `v`, least significant first.
pub open spec fn le_u16(v: u16) -> Seq<u8> {
    seq![v as u8, (v >> 8) as u8]
}

/// The four bytes of `v`, least significant first.
pub open spec fn le_u32(v: u32) -> Seq<u8> {
    seq![v as u8, (v >> 8) as u8, (v >> 16) as u8, (v >> 24) as u8]
}

/// `s` with the bytes from `at` on replaced by `b`; the rest is kept.
pub open spec fn splice(s: Seq<u8>, at: int, b: Seq<u8>) -> Seq<u8> {
    s.subrange(0, at) + b + s.subrange(at + b.len(), s.len() as int)
}

/// Writing `a` at `at` and then `b` right after it is writing `a + b` at `at`.
pub proof fn lemma_splice_concat(s: Seq<u8>, at: int, a: Seq<u8>, b: Seq<u8>)
    requires
        0 <= at,
        at + a.len() + b.len() <= s.len(),
    ensures
        splice(splice(s, at, a), at + a.len(), b) == splice(s, at, a + b),
{
    assert(splice(splice(s, at, a), at + a.len(), b) =~= splice(s, at, a + b));
}

/// Relies on byteorder's `LittleEndian::write_u16`: it stores `n.to_le_bytes()`
/// into the first two bytes of the slice it is given.
#[verifier::external_body]
fn store_le_u16(buf: &mut [u8], at: usize, n: u16)
    requires
        at + 2 <= old(buf)@.len(),
    ensures
        final(buf)@ == splice(old(buf)@, at as int, le_u16(n)),
{
    LittleEndian::write_u16(&mut buf[at..at + 2], n);
}

/// Relies on byteorder's `LittleEndian::write_u32`: it stores `n.to_le_bytes()`
/// into the first four bytes of the slice it is given.
#[verifier::external_body]
fn store_le_u32(buf: &mut [u8], at: usize, n: u32)
    requires
        at + 4 <= old(buf)@.len(),
    ensures
        final(buf)@ == splice(old(buf)@, at as int, le_u32(n)),
{
    LittleEndian::write_u32(&mut buf[at..at + 4], n);
}

/// Cursor that writes bytes in order into a borrowed buffer.
pub struct Writer<'a> {
    pub buf: &'a mut [u8],
    pub offset: usize,
}

impl<'a> Writer<'a> {
    /// A cursor at the start of `buf`.
    pub fn new(buf: &'a mut [u8]) -> (w: Self)
        ensures
            w.offset == 0,
            w.buf@ == old(buf)@,
            final(w.buf)@ == final(buf)@,
    {
        Self { buf, offset: 0 }
    }

    /// Writes one byte at the cursor and advances it by one.
    pub fn write_u8(&mut self, v: u8)
        requires
            old(self).offset + 1 <= old(self).buf@.len(),
        ensures
            final(final(self).buf)@ == final(old(self).buf)@,
            final(self).offset == old(self).offset + 1,
            final(self).buf@ == splice(old(self).buf@, old(self).offset as int, seq![v]),
    {
        self.buf[self.offset] = v;
        self.offset += 1;
        assert(self.buf@ =~= splice(old(self).buf@, old(self).offset as int, seq![v]));
    }

    /// Writes `v` little-endian at the cursor and advances it by two.
    pub fn write_u16(&mut self, v: u16)
        requires
            old(self).offset + 2 <= old(self).buf@.len(),
        ensures
            final(final(self).buf)@ == final(old(self).buf)@,
            final(self).offset == old(self).offset + 2,
            final(self).buf@ == splice(old(self).buf@, old(self).offset as int, le_u16(v)),
    {
        store_le_u16(self.buf, self.offset, v);
        assert(self.buf@.len() == self.buf.len());
        self.offset += 2;
    }

    /// Writes `v` little-endian at the cursor and advances it by four.
    pub fn write_u32(&mut self, v: u32)
        requires
            old(self).offset + 4 <= old(self).buf@.len(),
        ensures
            final(final(self).buf)@ == final(old(self).buf)@,
            final(self).offset == old(self).offset + 4,
            final(self).buf@ == splice(old(self).buf@, old(self).offset as int, le_u32(v)),
    {
        store_le_u32(self.buf, self.offset, v);
        assert(self.buf@.len() == self.buf.len());
        self.offset += 4;
    }
}

} // verus!
