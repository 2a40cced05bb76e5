//! A forward-only reader over a byte buffer, shared by the binary decoders.

use vstd::bytes::{spec_u32_from_le_bytes, u32_from_le_bytes};
use vstd::prelude::*;

verus! {

/// The 32-byte array whose bytes are `s` (for `s` of length 32).
pub open spec fn arr32(s: Seq<u8>) -> [u8; 32] {
    choose|a: [u8; 32]| a@ == s
}

/// The little-endian `u32` at position `p`.
pub open spec fn le_u32_at(b: Seq<u8>, p: int) -> u32 {
    spec_u32_from_le_bytes(b.subrange(p, p + 4))
}

/// The 32-byte array at position `p`.
pub open spec fn arr32_at(b: Seq<u8>, p: int) -> [u8; 32] {
    arr32(b.subrange(p, p + 32))
}

/// An array is the array of its own bytes.
pub proof fn lemma_arr32_of_view(a: [u8; 32])
    ensures
        arr32(a@) == a,
{
    let c = arr32(a@);
    assert(a@ == a@);
    assert(c@ == a@);
    broadcast use vstd::array::group_array_axioms;
    assert forall|j: int| 0 <= j < 32 implies c[j] == a[j] by {
        assert(c@[j] == a@[j]);
    }
    assert(c =~= a);
}

/// The array of 32 bytes has exactly those bytes.
pub proof fn lemma_view_of_arr32(s: Seq<u8>)
    requires
        s.len() == 32,
    ensures
        arr32(s)@ == s,
{
    let a: [u8; 32] = [s[0], s[1], s[2], s[3], s[4], s[5], s[6], s[7], s[8], s[9], s[10], s[11], s[12], s[13], s[14], s[15], s[16], s[17], s[18], s[19], s[20], s[21], s[22], s[23], s[24], s[25], s[26], s[27], s[28], s[29], s[30], s[31]];
    assert(a@ =~= s);
}

/// Copies 32 bytes of a slice into an array.
pub fn to_array32(s: &[u8]) -> (a: [u8; 32])
    requires
        s@.len() == 32,
    ensures
        a@ == s@,
        a == arr32(s@),
{
    let mut a = [0u8; 32];
    let mut i: usize = 0;
    while i < 32
        invariant
            0 <= i <= 32,
            s@.len() == 32,
            forall|j: int| 0 <= j < i ==> a@[j] == s@[j],
        decreases 32 - i,
    {
        a[i] = s[i];
        i = i + 1;
    }
    proof {
        assert(a@ =~= s@);
        lemma_arr32_of_view(a);
    }
    a
}

/// A cursor over a byte buffer.
pub struct Cursor<'a> {
    pub buf: &'a [u8],
    pub pos: usize,
}

impl<'a> Cursor<'a> {
    /// A cursor at the start of `buf`.
    pub fn new(buf: &'a [u8]) -> (c: Self)
        ensures
            c.buf@ == buf@,
            c.pos == 0,
    {
        Cursor { buf, pos: 0 }
    }

    /// Whether every byte has been read.
    pub fn is_empty(&self) -> (e: bool)
        ensures
            e == (self.pos >= self.buf@.len()),
    {
        self.pos >= self.buf.len()
    }

    /// The next `n` bytes, or `None` (cursor unmoved) when fewer remain.
    pub fn read_exact(&mut self, n: usize) -> (r: Option<&'a [u8]>)
        requires
            old(self).pos <= old(self).buf@.len(),
        ensures
            final(self).buf@ == old(self).buf@,
            final(self).pos <= final(self).buf@.len(),
            old(self).pos + n <= old(self).buf@.len() ==> {
                &&& r is Some
                &&& r->Some_0@ == old(self).buf@.subrange(
                    old(self).pos as int,
                    old(self).pos + n,
                )
                &&& final(self).pos == old(self).pos + n
            },
            old(self).pos + n > old(self).buf@.len() ==> r is None && final(self).pos == old(
                self,
            ).pos,
    {
        if n > self.buf.len() - self.pos {
            return None;
        }
        let s = &self.buf[self.pos..self.pos + n];
        self.pos = self.pos + n;
        Some(s)
    }

    /// The next byte.
    pub fn read_u8(&mut self) -> (r: Option<u8>)
        requires
            old(self).pos <= old(self).buf@.len(),
        ensures
            final(self).buf@ == old(self).buf@,
            final(self).pos <= final(self).buf@.len(),
            old(self).pos + 1 <= old(self).buf@.len() ==> r == Some(old(self).buf@[old(self).pos as int])
                && final(self).pos == old(self).pos + 1,
            old(self).pos + 1 > old(self).buf@.len() ==> r is None && final(self).pos == old(
                self,
            ).pos,
    {
        match self.read_exact(1) {
            None => None,
            Some(s) => Some(s[0]),
        }
    }

    /// The next little-endian `u32`.
    pub fn read_u32(&mut self) -> (r: Option<u32>)
        requires
            old(self).pos <= old(self).buf@.len(),
        ensures
            final(self).buf@ == old(self).buf@,
            final(self).pos <= final(self).buf@.len(),
            old(self).pos + 4 <= old(self).buf@.len() ==> r == Some(
                le_u32_at(old(self).buf@, old(self).pos as int),
            ) && final(self).pos == old(self).pos + 4,
            old(self).pos + 4 > old(self).buf@.len() ==> r is None && final(self).pos == old(
                self,
            ).pos,
    {
        match self.read_exact(4) {
            None => None,
            Some(s) => Some(u32_from_le_bytes(s)),
        }
    }

    /// The next 32 bytes as an array.
    pub fn read_array32(&mut self) -> (r: Option<[u8; 32]>)
        requires
            old(self).pos <= old(self).buf@.len(),
        ensures
            final(self).buf@ == old(self).buf@,
            final(self).pos <= final(self).buf@.len(),
            old(self).pos + 32 <= old(self).buf@.len() ==> r == Some(
                arr32_at(old(self).buf@, old(self).pos as int),
            ) && final(self).pos == old(self).pos + 32,
            old(self).pos + 32 > old(self).buf@.len() ==> r is None && final(self).pos == old(
                self,
            ).pos,
    {
        match self.read_exact(32) {
            None => None,
            Some(s) => Some(to_array32(s)),
        }
    }
}

} // verus!
