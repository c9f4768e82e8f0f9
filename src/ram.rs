//! A flat little-endian memory of fixed size. Reads outside it give zero and
//! writes outside it are dropped.
use vstd::prelude::*;

verus! {

/// The address `k` bytes after `a`, wrapping at 2^32.
pub open spec fn offset(a: u32, k: int) -> u32 {
    ((a + k) % 0x1_0000_0000) as u32
}

/// The byte at `a`, or zero past the end.
pub open spec fn peek8(m: Seq<u8>, a: u32) -> u8 {
    if a < m.len() {
        m[a as int]
    } else {
        0
    }
}

/// The little-endian halfword at `a`.
pub open spec fn peek16(m: Seq<u8>, a: u32) -> u16 {
    ((peek8(m, a) as u16) | ((peek8(m, offset(a, 1)) as u16) << 8u16)) as u16
}

/// The little-endian word at `a`.
pub open spec fn peek32(m: Seq<u8>, a: u32) -> u32 {
    (peek8(m, a) as u32) | ((peek8(m, offset(a, 1)) as u32) << 8u32) | ((peek8(m, offset(a, 2))
        as u32) << 16u32) | ((peek8(m, offset(a, 3)) as u32) << 24u32)
}

/// The memory after writing byte `v` at `a`.
pub open spec fn poke8(m: Seq<u8>, a: u32, v: u8) -> Seq<u8> {
    if a < m.len() {
        m.update(a as int, v)
    } else {
        m
    }
}

/// The memory after writing halfword `v` at `a`, low byte first.
pub open spec fn poke16(m: Seq<u8>, a: u32, v: u16) -> Seq<u8> {
    poke8(poke8(m, a, v as u8), offset(a, 1), (v >> 8u16) as u8)
}

/// The memory after writing word `v` at `a`, low byte first.
pub open spec fn poke32(m: Seq<u8>, a: u32, v: u32) -> Seq<u8> {
    poke8(
        poke8(poke8(poke8(m, a, v as u8), offset(a, 1), (v >> 8u32) as u8), offset(a, 2), (v
            >> 16u32) as u8),
        offset(a, 3),
        (v >> 24u32) as u8,
    )
}

/// Byte-addressed memory.
pub struct Ram {
    data: Vec<u8>,
}

impl View for Ram {
    type V = Seq<u8>;

    closed spec fn view(&self) -> Seq<u8> {
        self.data@
    }
}

fn next_addr(a: u32, k: u32) -> (r: u32)
    requires
        k <= 3,
    ensures
        r == offset(a, k as int),
{
    if a <= u32::MAX - k {
        a + k
    } else {
        (a as u64 + k as u64 - 0x1_0000_0000) as u32
    }
}

impl Ram {
    /// A memory of `size` zero bytes.
    pub fn new(size: usize) -> (r: Ram)
        ensures
            r@ == Seq::new(size as nat, |i: int| 0u8),
    {
        Ram::new_with_data(size, &[])
    }

    /// A memory of `size` bytes that begins with `data` (cut at `size`) and
    /// is zero after it.
    pub fn new_with_data(size: usize, data: &[u8]) -> (r: Ram)
        ensures
            r@ == Seq::new(size as nat, |i: int| if i < data@.len() { data@[i] } else { 0u8 }),
    {
        let mut v: Vec<u8> = Vec::new();
        let mut i: usize = 0;
        while i < size
            invariant
                i <= size,
                v@ == Seq::new(i as nat, |j: int| if j < data@.len() { data@[j] } else { 0u8 }),
            decreases size - i,
        {
            if i < data.len() {
                v.push(data[i]);
            } else {
                v.push(0);
            }
            i = i + 1;
        }
        assert(v@ =~= Seq::new(size as nat, |j: int| if j < data@.len() { data@[j] } else { 0u8 }));
        Ram { data: v }
    }

    /// The number of bytes.
    pub fn len(&self) -> (r: usize)
        ensures
            r == self@.len(),
    {
        self.data.len()
    }

    /// Reads the byte at `addr`.
    pub fn load8(&self, addr: u32) -> (r: u8)
        ensures
            r == peek8(self@, addr),
    {
        if (addr as usize) < self.data.len() {
            self.data[addr as usize]
        } else {
            0
        }
    }

    /// Reads the little-endian halfword at `addr`.
    pub fn load16(&self, addr: u32) -> (r: u16)
        ensures
            r == peek16(self@, addr),
    {
        let lo = self.load8(addr) as u16;
        let hi = self.load8(next_addr(addr, 1)) as u16;
        lo | (hi << 8u16)
    }

    /// Reads the little-endian word at `addr`.
    pub fn load32(&self, addr: u32) -> (r: u32)
        ensures
            r == peek32(self@, addr),
    {
        let b0 = self.load8(addr) as u32;
        let b1 = self.load8(next_addr(addr, 1)) as u32;
        let b2 = self.load8(next_addr(addr, 2)) as u32;
        let b3 = self.load8(next_addr(addr, 3)) as u32;
        b0 | (b1 << 8u32) | (b2 << 16u32) | (b3 << 24u32)
    }

    /// Writes the byte `v` at `addr`.
    pub fn set8(&mut self, addr: u32, v: u8)
        ensures
            final(self)@ == poke8(old(self)@, addr, v),
    {
        if (addr as usize) < self.data.len() {
            self.data.set(addr as usize, v);
        }
    }

    /// Writes the halfword `v` at `addr`, low byte first.
    pub fn set16(&mut self, addr: u32, v: u16)
        ensures
            final(self)@ == poke16(old(self)@, addr, v),
    {
        self.set8(addr, v as u8);
        self.set8(next_addr(addr, 1), (v >> 8u16) as u8);
    }

    /// Writes the word `v` at `addr`, low byte first.
    pub fn set32(&mut self, addr: u32, v: u32)
        ensures
            final(self)@ == poke32(old(self)@, addr, v),
    {
        self.set8(addr, v as u8);
        self.set8(next_addr(addr, 1), (v >> 8u32) as u8);
        self.set8(next_addr(addr, 2), (v >> 16u32) as u8);
        self.set8(next_addr(addr, 3), (v >> 24u32) as u8);
    }
}

/// A word stored at an aligned address inside the memory reads back
/// unchanged.
pub proof fn lemma_word_round_trip(m: Seq<u8>, a: u32, w: u32)
    requires
        a % 4 == 0,
        a + 4 <= m.len(),
    ensures
        peek32(poke32(m, a, w), a) == w,
{
    let m2 = poke32(m, a, w);
    assert(offset(a, 1) == a + 1);
    assert(offset(a, 2) == a + 2);
    assert(offset(a, 3) == a + 3);
    assert(m2.len() == m.len());
    let b0 = w as u8;
    let b1 = (w >> 8u32) as u8;
    let b2 = (w >> 16u32) as u8;
    let b3 = (w >> 24u32) as u8;
    assert(peek8(m2, a) == b0);
    assert(peek8(m2, offset(a, 1)) == b1);
    assert(peek8(m2, offset(a, 2)) == b2);
    assert(peek8(m2, offset(a, 3)) == b3);
    assert((b0 as u32) | ((b1 as u32) << 8u32) | ((b2 as u32) << 16u32) | ((b3 as u32) << 24u32)
        == w) by (bit_vector)
        requires
            b0 == w as u8,
            b1 == (w >> 8u32) as u8,
            b2 == (w >> 16u32) as u8,
            b3 == (w >> 24u32) as u8,
    ;
}

} // verus!
