//! The header that an image carries in front when a boot loader expects the
//! AArch64 kernel image format: 64 bytes, of which the first four are the
//! branch that the core executes first.

use vstd::bytes::*;
use vstd::prelude::*;
use vstd::slice::slice_subrange;

verus! {

/// The size in bytes of the header.
pub const HEADER_BYTES: usize = 64;

/// The magic number of the header: `"ARM\x64"`.
pub const HEADER_MAGIC: u32 = 0x644d5241;

/// The instruction that does nothing.
pub const NOP: u32 = 0xd503201f;

/// The instruction `b` with a zero offset.
pub const BRANCH: u32 = 0x14000000;

/// How far ahead a branch can reach, in bytes.
pub const BRANCH_REACH: u64 = 0x800_0000;

/// The value of the page size field of the flags: 4 KiB.
pub const HEADER_FLAG_PAGE_SIZE: u64 = 1;

/// The placement bit of the flags: the image may be anywhere in memory.
pub const HEADER_FLAG_PHYSICAL_PLACEMENT: u64 = 1;

/// The flags of an image with 4 KiB pages that may be placed anywhere: the
/// endianness in bit 0, the page size in bits 2:1, the placement in bit 3.
pub open spec fn spec_header_flags(big_endian: bool) -> u64 {
    if big_endian {
        0xb
    } else {
        0xa
    }
}

/// The flags of an image with 4 KiB pages that may be placed anywhere.
#[verifier::when_used_as_spec(spec_header_flags)]
pub fn header_flags(big_endian: bool) -> (flags: u64)
    ensures
        flags == spec_header_flags(big_endian),
{
    let endianness: u64 = if big_endian {
        1
    } else {
        0
    };
    let flags = endianness | (HEADER_FLAG_PAGE_SIZE << 1) | (HEADER_FLAG_PHYSICAL_PLACEMENT << 3);
    assert((1u64 | (1u64 << 1) | (1u64 << 3)) == 0xb && (0u64 | (1u64 << 1) | (1u64 << 3)) == 0xa)
        by (bit_vector);
    flags
}

/// The instruction that branches `offset` bytes ahead: `None` if and only if
/// the offset is not a multiple of four or is out of reach.
pub fn branch_ahead(offset: u64) -> (instruction: Option<u32>)
    ensures
        instruction is Some <==> offset % 4 == 0 && offset < BRANCH_REACH,
        instruction matches Some(word) ==> word == BRANCH + offset / 4,
{
    if offset % 4 == 0 && offset < BRANCH_REACH {
        Some(BRANCH + (offset / 4) as u32)
    } else {
        None
    }
}

/// The header of a bootable image.
#[derive(Clone, Copy, Debug, PartialEq, Eq, Structural)]
pub struct BootHeader {
    /// The first instruction: a branch over the rest of the header.
    pub code0: u32,
    /// The second instruction.
    pub code1: u32,
    /// The offset at which the image is to be loaded.
    pub text_offset: u64,
    /// The size of the image, bss included.
    pub image_size: u64,
    pub flags: u64,
    pub res2: u64,
    pub res3: u64,
    pub res4: u64,
    pub magic: u32,
    pub res5: u32,
}

impl BootHeader {
    /// The bytes of the header: every field little-endian, in order.
    pub open spec fn encoding(self) -> Seq<u8> {
        spec_u32_to_le_bytes(self.code0) + spec_u32_to_le_bytes(self.code1) + spec_u64_to_le_bytes(
            self.text_offset,
        ) + spec_u64_to_le_bytes(self.image_size) + spec_u64_to_le_bytes(self.flags)
            + spec_u64_to_le_bytes(self.res2) + spec_u64_to_le_bytes(self.res3)
            + spec_u64_to_le_bytes(self.res4) + spec_u32_to_le_bytes(self.magic)
            + spec_u32_to_le_bytes(self.res5)
    }

    /// The header that `bytes` begins with, field by field.
    pub open spec fn decoding(bytes: Seq<u8>) -> BootHeader {
        BootHeader {
            code0: spec_u32_from_le_bytes(bytes.subrange(0, 4)),
            code1: spec_u32_from_le_bytes(bytes.subrange(4, 8)),
            text_offset: spec_u64_from_le_bytes(bytes.subrange(8, 16)),
            image_size: spec_u64_from_le_bytes(bytes.subrange(16, 24)),
            flags: spec_u64_from_le_bytes(bytes.subrange(24, 32)),
            res2: spec_u64_from_le_bytes(bytes.subrange(32, 40)),
            res3: spec_u64_from_le_bytes(bytes.subrange(40, 48)),
            res4: spec_u64_from_le_bytes(bytes.subrange(48, 56)),
            magic: spec_u32_from_le_bytes(bytes.subrange(56, 60)),
            res5: spec_u32_from_le_bytes(bytes.subrange(60, 64)),
        }
    }

    /// The header as the image emits it: the given branch, a no-op, a zero
    /// text offset, the image size computed at link time, the flags for the
    /// endianness, the magic number, and zero in every reserved field.
    pub open spec fn emitted(code0: u32, image_size: u64, big_endian: bool) -> BootHeader {
        BootHeader {
            code0,
            code1: NOP,
            text_offset: 0,
            image_size,
            flags: header_flags(big_endian),
            res2: 0,
            res3: 0,
            res4: 0,
            magic: HEADER_MAGIC,
            res5: 0,
        }
    }

    /// The header as the image emits it.
    pub fn new(code0: u32, image_size: u64, big_endian: bool) -> (header: BootHeader)
        ensures
            header == BootHeader::emitted(code0, image_size, big_endian),
    {
        BootHeader {
            code0,
            code1: NOP,
            text_offset: 0,
            image_size,
            flags: header_flags(big_endian),
            res2: 0,
            res3: 0,
            res4: 0,
            magic: HEADER_MAGIC,
            res5: 0,
        }
    }

    /// The 64 bytes of the header.
    pub fn to_bytes(&self) -> (bytes: Vec<u8>)
        ensures
            bytes@ == self.encoding(),
            bytes@.len() == 64,
    {
        proof {
            lemma_auto_spec_u32_to_from_le_bytes();
            lemma_auto_spec_u64_to_from_le_bytes();
        }
        let mut bytes = u32_to_le_bytes(self.code0);
        let mut part = u32_to_le_bytes(self.code1);
        bytes.append(&mut part);
        let mut part = u64_to_le_bytes(self.text_offset);
        bytes.append(&mut part);
        let mut part = u64_to_le_bytes(self.image_size);
        bytes.append(&mut part);
        let mut part = u64_to_le_bytes(self.flags);
        bytes.append(&mut part);
        let mut part = u64_to_le_bytes(self.res2);
        bytes.append(&mut part);
        let mut part = u64_to_le_bytes(self.res3);
        bytes.append(&mut part);
        let mut part = u64_to_le_bytes(self.res4);
        bytes.append(&mut part);
        let mut part = u32_to_le_bytes(self.magic);
        bytes.append(&mut part);
        let mut part = u32_to_le_bytes(self.res5);
        bytes.append(&mut part);
        bytes
    }

    /// Reads the header that `bytes` begins with: `None` if and only if there
    /// are fewer than 64 bytes or the magic number is not in its place.
    pub fn parse(bytes: &Vec<u8>) -> (header: Option<BootHeader>)
        ensures
            header is Some <==> bytes@.len() >= 64 && BootHeader::decoding(bytes@).magic
                == HEADER_MAGIC,
            header matches Some(found) ==> found == BootHeader::decoding(bytes@)
                && found.encoding() == bytes@.subrange(0, 64),
    {
        if bytes.len() < HEADER_BYTES {
            return None;
        }
        let all = bytes.as_slice();
        let found = BootHeader {
            code0: u32_from_le_bytes(slice_subrange(all, 0, 4)),
            code1: u32_from_le_bytes(slice_subrange(all, 4, 8)),
            text_offset: u64_from_le_bytes(slice_subrange(all, 8, 16)),
            image_size: u64_from_le_bytes(slice_subrange(all, 16, 24)),
            flags: u64_from_le_bytes(slice_subrange(all, 24, 32)),
            res2: u64_from_le_bytes(slice_subrange(all, 32, 40)),
            res3: u64_from_le_bytes(slice_subrange(all, 40, 48)),
            res4: u64_from_le_bytes(slice_subrange(all, 48, 56)),
            magic: u32_from_le_bytes(slice_subrange(all, 56, 60)),
            res5: u32_from_le_bytes(slice_subrange(all, 60, 64)),
        };
        if found.magic != HEADER_MAGIC {
            return None;
        }
        proof {
            lemma_encoding_of_decoding(bytes@);
        }
        Some(found)
    }
}

/// Decoding 64 bytes and encoding the result gives the same 64 bytes.
pub proof fn lemma_encoding_of_decoding(bytes: Seq<u8>)
    requires
        bytes.len() >= 64,
    ensures
        BootHeader::decoding(bytes).encoding() == bytes.subrange(0, 64),
{
    lemma_auto_spec_u32_to_from_le_bytes();
    lemma_auto_spec_u64_to_from_le_bytes();
    let header = BootHeader::decoding(bytes);
    assert(spec_u32_to_le_bytes(header.code0) == bytes.subrange(0, 4));
    assert(spec_u32_to_le_bytes(header.code1) == bytes.subrange(4, 8));
    assert(spec_u64_to_le_bytes(header.text_offset) == bytes.subrange(8, 16));
    assert(spec_u64_to_le_bytes(header.image_size) == bytes.subrange(16, 24));
    assert(spec_u64_to_le_bytes(header.flags) == bytes.subrange(24, 32));
    assert(spec_u64_to_le_bytes(header.res2) == bytes.subrange(32, 40));
    assert(spec_u64_to_le_bytes(header.res3) == bytes.subrange(40, 48));
    assert(spec_u64_to_le_bytes(header.res4) == bytes.subrange(48, 56));
    assert(spec_u32_to_le_bytes(header.magic) == bytes.subrange(56, 60));
    assert(spec_u32_to_le_bytes(header.res5) == bytes.subrange(60, 64));
    assert(header.encoding() =~= bytes.subrange(0, 64));
}

/// Encoding a header and decoding the bytes gives the same header.
pub proof fn lemma_decoding_of_encoding(header: BootHeader)
    ensures
        header.encoding().len() == 64,
        BootHeader::decoding(header.encoding()) == header,
{
    lemma_auto_spec_u32_to_from_le_bytes();
    lemma_auto_spec_u64_to_from_le_bytes();
    let bytes = header.encoding();
    assert(bytes.len() == 64);
    assert(bytes.subrange(0, 4) =~= spec_u32_to_le_bytes(header.code0));
    assert(bytes.subrange(4, 8) =~= spec_u32_to_le_bytes(header.code1));
    assert(bytes.subrange(8, 16) =~= spec_u64_to_le_bytes(header.text_offset));
    assert(bytes.subrange(16, 24) =~= spec_u64_to_le_bytes(header.image_size));
    assert(bytes.subrange(24, 32) =~= spec_u64_to_le_bytes(header.flags));
    assert(bytes.subrange(32, 40) =~= spec_u64_to_le_bytes(header.res2));
    assert(bytes.subrange(40, 48) =~= spec_u64_to_le_bytes(header.res3));
    assert(bytes.subrange(48, 56) =~= spec_u64_to_le_bytes(header.res4));
    assert(bytes.subrange(56, 60) =~= spec_u32_to_le_bytes(header.magic));
    assert(bytes.subrange(60, 64) =~= spec_u32_to_le_bytes(header.res5));
}

/// The header of the image whose first instruction is at `entry`, whose early
/// preparations begin at `prepare` and which ends at `bin_end`: the branch
/// from the one to the other, the size from the first instruction to the end,
/// and the rest as every image emits it. There is none where no branch reaches.
pub open spec fn header_for(entry: u64, prepare: u64, bin_end: u64, big_endian: bool) -> Option<
    BootHeader,
> {
    if entry <= prepare && (prepare - entry) % 4 == 0 && prepare - entry < BRANCH_REACH {
        Some(
            BootHeader::emitted(
                (BRANCH + (prepare - entry) / 4) as u32,
                bin_end.wrapping_sub(entry),
                big_endian,
            ),
        )
    } else {
        None
    }
}

/// The header of the image whose first instruction is at `entry`, whose early
/// preparations begin at `prepare` and which ends at `bin_end`: `None` if and
/// only if no branch reaches from the one to the other.
pub fn image_header(entry: u64, prepare: u64, bin_end: u64, big_endian: bool) -> (header: Option<
    BootHeader,
>)
    ensures
        header == header_for(entry, prepare, bin_end, big_endian),
{
    if prepare < entry {
        return None;
    }
    match branch_ahead(prepare - entry) {
        None => None,
        Some(code0) => Some(BootHeader::new(code0, bin_end.wrapping_sub(entry), big_endian)),
    }
}

/// The fields of the header that every image emits, whatever its size and
/// wherever its early preparations begin: a branch and a no-op, a zero text
/// offset, the flags for 4 KiB pages and free placement, the magic number,
/// and zero in every reserved field.
pub proof fn lemma_header_fields(entry: u64, prepare: u64, bin_end: u64, big_endian: bool)
    requires
        header_for(entry, prepare, bin_end, big_endian) is Some,
    ensures
        ({
            let header = header_for(entry, prepare, bin_end, big_endian)->0;
            &&& header.code0 == BRANCH + (prepare - entry) / 4
            &&& header.code1 == NOP
            &&& header.text_offset == 0
            &&& header.image_size == bin_end.wrapping_sub(entry)
            &&& entry <= bin_end ==> header.image_size == bin_end - entry
            &&& header.flags == if big_endian {
                0xbu64
            } else {
                0xau64
            }
            &&& header.res2 == 0 && header.res3 == 0 && header.res4 == 0
            &&& header.magic == 0x644d5241
            &&& header.res5 == 0
            &&& header.encoding().len() == 64
        }),
{
    lemma_decoding_of_encoding(header_for(entry, prepare, bin_end, big_endian)->0);
}

} // verus!
