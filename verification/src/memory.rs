//! A byte-addressed window of RAM.
//!
//! Addresses are absolute; the window covers `[base, base + len)`. Words are
//! stored little-endian.

use vstd::bytes::*;
use vstd::prelude::*;
use vstd::slice::slice_subrange;

verus! {

/// The eight bytes of `bytes` starting at index `at`, read as a little-endian word.
pub open spec fn word_at(bytes: Seq<u8>, at: int) -> u64 {
    spec_u64_from_le_bytes(bytes.subrange(at, at + 8))
}

/// `bytes` with the little-endian encoding of `value` stored at index `at`.
pub open spec fn with_word(bytes: Seq<u8>, at: int, value: u64) -> Seq<u8> {
    Seq::new(
        bytes.len(),
        |i: int|
            if at <= i < at + 8 {
                spec_u64_to_le_bytes(value)[i - at]
            } else {
                bytes[i]
            },
    )
}

/// `bytes` with every index in `[from, to)` set to zero.
pub open spec fn with_zeros(bytes: Seq<u8>, from: int, to: int) -> Seq<u8> {
    Seq::new(
        bytes.len(),
        |i: int|
            if from <= i < to {
                0u8
            } else {
                bytes[i]
            },
    )
}

/// Reading a word back from where it was just stored gives the stored value.
pub proof fn lemma_word_at_same(bytes: Seq<u8>, at: int, value: u64)
    requires
        0 <= at,
        at + 8 <= bytes.len(),
    ensures
        word_at(with_word(bytes, at, value), at) == value,
{
    lemma_auto_spec_u64_to_from_le_bytes();
    assert(with_word(bytes, at, value).subrange(at, at + 8) =~= spec_u64_to_le_bytes(value));
}

/// A store does not change a word that it does not overlap.
pub proof fn lemma_word_at_other(bytes: Seq<u8>, at: int, value: u64, other: int)
    requires
        0 <= other,
        other + 8 <= bytes.len(),
        other + 8 <= at || at + 8 <= other,
    ensures
        word_at(with_word(bytes, at, value), other) == word_at(bytes, other),
{
    assert(with_word(bytes, at, value).subrange(other, other + 8) =~= bytes.subrange(
        other,
        other + 8,
    ));
}

/// A zero word is eight zero bytes.
pub proof fn lemma_zero_word(bytes: Seq<u8>, at: int)
    requires
        0 <= at,
        at + 8 <= bytes.len(),
    ensures
        with_word(bytes, at, 0) == with_zeros(bytes, at, at + 8),
{
    spec_u64_to_le_bytes_to_open(0);
    let enc = spec_u64_to_le_bytes_open(0);
    assert(0u64 & 0xff == 0 && (0u64 >> 8) & 0xff == 0 && (0u64 >> 16) & 0xff == 0 && (0u64 >> 24)
        & 0xff == 0 && (0u64 >> 32) & 0xff == 0 && (0u64 >> 40) & 0xff == 0 && (0u64 >> 48) & 0xff
        == 0 && (0u64 >> 56) & 0xff == 0) by (bit_vector);
    assert forall|k: int| 0 <= k < 8 implies enc[k] == 0u8 by {}
    assert(with_word(bytes, at, 0) =~= with_zeros(bytes, at, at + 8));
}

/// A window of RAM: `bytes[i]` is the byte at address `base + i`.
pub struct Memory {
    base: u64,
    bytes: Vec<u8>,
}

impl View for Memory {
    type V = Seq<u8>;

    closed spec fn view(&self) -> Seq<u8> {
        self.bytes@
    }
}

impl Memory {
    /// The address of the first byte of the window.
    pub closed spec fn base(&self) -> u64 {
        self.base
    }

    /// The window ends at or below the top of the address space.
    #[verifier::type_invariant]
    closed spec fn fits_address_space(&self) -> bool {
        self.base + self.bytes@.len() <= u64::MAX + 1
    }

    /// `[addr, addr + len)` lies inside the window.
    pub open spec fn contains(&self, addr: int, len: int) -> bool {
        0 <= len && self.base() <= addr && addr + len <= self.base() + self@.len()
    }

    /// The index in the window of the byte at `addr`.
    pub open spec fn index_of(&self, addr: int) -> int {
        addr - self.base()
    }

    /// The word stored at `addr`.
    pub open spec fn word(&self, addr: int) -> u64 {
        word_at(self@, self.index_of(addr))
    }

    /// Places `bytes` at `base`. `None` if and only if the window would run
    /// past the top of the address space.
    pub fn new(base: u64, bytes: Vec<u8>) -> (mem: Option<Memory>)
        ensures
            mem is Some <==> base + bytes@.len() <= u64::MAX + 1,
            mem matches Some(m) ==> m.base() == base && m@ == bytes@,
    {
        let len = bytes.len();
        let room: u64 = u64::MAX - base;
        if len as u64 as usize == len && (len == 0 || len as u64 - 1 <= room) {
            Some(Memory { base, bytes })
        } else {
            None
        }
    }

    /// A second window with the same base and the same bytes.
    pub fn duplicate(&self) -> (copy: Memory)
        ensures
            copy.base() == self.base(),
            copy@ == self@,
    {
        proof {
            use_type_invariant(self);
        }
        let bytes = self.read_bytes(self.base, self.bytes.len());
        assert(bytes@ =~= self.bytes@);
        Memory { base: self.base, bytes }
    }

    /// The address of the first byte.
    pub fn start(&self) -> (addr: u64)
        ensures
            addr == self.base(),
    {
        self.base
    }

    /// The number of bytes in the window, which ends at or below the top of
    /// the address space.
    pub fn len(&self) -> (n: usize)
        ensures
            n == self@.len(),
            self.base() + n <= u64::MAX + 1,
    {
        proof {
            use_type_invariant(self);
        }
        self.bytes.len()
    }

    /// Whether `[addr, addr + len)` lies inside the window.
    pub fn covers(&self, addr: u64, len: u64) -> (inside: bool)
        ensures
            inside == self.contains(addr as int, len as int),
    {
        proof {
            use_type_invariant(self);
        }
        if addr < self.base {
            return false;
        }
        let off: u64 = addr - self.base;
        let size = self.bytes.len();
        off as usize as u64 == off && off as usize <= size && (size - off as usize) as u64 >= len
    }

    /// The index of the byte at `addr`, which lies in the window.
    fn offset(&self, addr: u64, len: usize) -> (off: usize)
        requires
            self.contains(addr as int, len as int),
        ensures
            off == self.index_of(addr as int),
            off + len <= self.bytes@.len() <= usize::MAX,
            self.base + self.bytes@.len() <= u64::MAX + 1,
    {
        proof {
            use_type_invariant(self);
        }
        let size = self.bytes.len();
        let off: u64 = addr - self.base;
        assert(off <= size);
        off as usize
    }

    /// The byte at `addr`.
    pub fn read_u8(&self, addr: u64) -> (byte: u8)
        requires
            self.contains(addr as int, 1),
        ensures
            byte == self@[self.index_of(addr as int)],
    {
        let off = self.offset(addr, 1);
        self.bytes[off]
    }

    /// Stores `byte` at `addr`.
    pub fn write_u8(&mut self, addr: u64, byte: u8)
        requires
            old(self).contains(addr as int, 1),
        ensures
            final(self).base() == old(self).base(),
            final(self)@ == old(self)@.update(old(self).index_of(addr as int), byte),
    {
        let off = self.offset(addr, 1);
        self.bytes[off] = byte;
    }

    /// The little-endian word at `addr`.
    pub fn read_u64(&self, addr: u64) -> (value: u64)
        requires
            self.contains(addr as int, 8),
        ensures
            value == self.word(addr as int),
    {
        let off = self.offset(addr, 8);
        u64_from_le_bytes(slice_subrange(self.bytes.as_slice(), off, off + 8))
    }

    /// Stores `value` at `addr`, little-endian.
    pub fn write_u64(&mut self, addr: u64, value: u64)
        requires
            old(self).contains(addr as int, 8),
        ensures
            final(self).base() == old(self).base(),
            final(self)@ == with_word(old(self)@, old(self).index_of(addr as int), value),
    {
        let off = self.offset(addr, 8);
        let enc = u64_to_le_bytes(value);
        let ghost before = self.bytes@;
        let mut k: usize = 0;
        while k < 8
            invariant
                k <= 8,
                enc@ == spec_u64_to_le_bytes(value),
                enc@.len() == 8,
                off + 8 <= before.len() <= usize::MAX,
                self.base == old(self).base,
                self.base + before.len() <= u64::MAX + 1,
                self.bytes@.len() == before.len(),
                forall|i: int|
                    0 <= i < before.len() ==> self.bytes@[i] == if off <= i < off + k {
                        enc@[i - off]
                    } else {
                        before[i]
                    },
            decreases 8 - k,
        {
            self.bytes[off + k] = enc[k];
            k += 1;
        }
        assert(self.bytes@ =~= with_word(before, off as int, value));
    }

    /// A copy of `len` bytes starting at `addr`.
    pub fn read_bytes(&self, addr: u64, len: usize) -> (out: Vec<u8>)
        requires
            self.contains(addr as int, len as int),
        ensures
            out@ == self@.subrange(self.index_of(addr as int), self.index_of(addr as int) + len),
    {
        let off = self.offset(addr, len);
        let mut out: Vec<u8> = Vec::new();
        let mut k: usize = 0;
        while k < len
            invariant
                k <= len,
                off + len <= self.bytes@.len() <= usize::MAX,
                out@ == self.bytes@.subrange(off as int, off + k),
            decreases len - k,
        {
            out.push(self.bytes[off + k]);
            k += 1;
            assert(out@ =~= self.bytes@.subrange(off as int, off + k));
        }
        out
    }
}

} // verus!
