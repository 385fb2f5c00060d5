//! The boot path: from the first instruction of the image to the call into the
//! hosted entry point, and the shorter path that a secondary core takes.

use crate::cpu::{Cpu, CpuView, ExceptionLevel, Hazards};
use crate::exceptions::{set_exception_vector, vector_installed, VectorTables};
use crate::header::{
    header_for, image_header, lemma_decoding_of_encoding, BootHeader, BRANCH, HEADER_BYTES, NOP,
};
use crate::memory::{lemma_zero_word, with_zeros, word_at, Memory};
use crate::pagetable::{enable_mmu, mmu_started, MmuSetup};
use crate::relocate::{
    can_relocate, entry_count, lemma_spared_bytes_stay, relocatable, relocate_image, relocated,
    relocation_spares, spares,
};
use vstd::bytes::spec_u32_from_le_bytes;
use vstd::prelude::*;

verus! {

/// The bits of `CPACR_EL1` that stop floating point and SIMD accesses from
/// trapping.
pub const CPACR_FPEN: u64 = 0x3 << 20;

/// The number of bytes that one store of the zeroing loop clears.
pub const ZERO_STRIDE: u64 = 16;

/// The addresses that the linker gives to the parts of the image.
#[derive(Clone, Copy, Debug, PartialEq, Eq, Structural)]
pub struct ImageLayout {
    /// The address of the first instruction of the image.
    pub entry: u64,
    /// The address at which the early preparations begin.
    pub early_prepare: u64,
    /// The address just past the end of the image.
    pub bin_end: u64,
    /// Where the image was loaded.
    pub text_begin: u64,
    pub bss_begin: u64,
    pub bss_end: u64,
    /// The top of the stack reserved for the boot core.
    pub boot_stack_end: u64,
    pub rela_begin: u64,
    pub rela_end: u64,
    /// The address of the code that installs the vector table and calls the
    /// hosted entry point.
    pub rust_entry: u64,
}

/// What the image was built to do on its way to the hosted entry point.
#[derive(Clone, Copy, Debug, PartialEq, Eq, Structural)]
pub struct BootConfig {
    /// The exception level that the image was built for, if it was built for one.
    pub level: Option<ExceptionLevel>,
    /// Whether the vector table is to be installed.
    pub exceptions: bool,
    /// The initial page table and the words to switch it on with, if there is one.
    pub mmu: Option<MmuSetup>,
    /// Whether the image may run at an address that was not known at link time.
    pub relocate: bool,
    /// Whether the image begins with the header of the kernel image format.
    pub header: bool,
    /// Whether the image was built for a big-endian target.
    pub big_endian: bool,
    pub vectors: VectorTables,
}

impl BootConfig {
    /// The level whose vector table is to be installed, if any: one is
    /// installed only for an image that handles exceptions and was built for a
    /// level.
    pub open spec fn spec_vector_level(self) -> Option<ExceptionLevel> {
        if self.exceptions {
            self.level
        } else {
            None
        }
    }

    /// The level whose vector table is to be installed, if any.
    #[verifier::when_used_as_spec(spec_vector_level)]
    pub fn vector_level(self) -> (level: Option<ExceptionLevel>)
        ensures
            level == self.spec_vector_level(),
    {
        if self.exceptions {
            self.level
        } else {
            None
        }
    }
}

/// The named states of the boot path.
#[derive(Clone, Copy, Debug, PartialEq, Eq, Structural)]
pub enum BootStage {
    /// The first instruction of the image.
    Reset,
    /// The header at the front of the image was branched over.
    HeaderSkipped,
    /// MMU on, floating point untrapped, bss cleared, stack in place.
    EarlyPrepare,
    /// Address words patched for the load address.
    SelfRelocate,
    /// Vector table installed; control is with the hosted entry point for good.
    HostedEntry,
}

impl BootStage {
    /// The state that follows this one, or `None` after the last. An image
    /// without a header goes from reset to the early preparations at once, and
    /// an image that runs where it was linked passes relocation over.
    pub open spec fn spec_next(self, header: bool, relocate: bool) -> Option<BootStage> {
        match self {
            BootStage::Reset => if header {
                Some(BootStage::HeaderSkipped)
            } else {
                Some(BootStage::EarlyPrepare)
            },
            BootStage::HeaderSkipped => Some(BootStage::EarlyPrepare),
            BootStage::EarlyPrepare => if relocate {
                Some(BootStage::SelfRelocate)
            } else {
                Some(BootStage::HostedEntry)
            },
            BootStage::SelfRelocate => Some(BootStage::HostedEntry),
            BootStage::HostedEntry => None,
        }
    }

    /// The state that follows this one, or `None` after the last.
    #[verifier::when_used_as_spec(spec_next)]
    pub fn next(self, header: bool, relocate: bool) -> (following: Option<BootStage>)
        ensures
            following == self.spec_next(header, relocate),
    {
        match self {
            BootStage::Reset => if header {
                Some(BootStage::HeaderSkipped)
            } else {
                Some(BootStage::EarlyPrepare)
            },
            BootStage::HeaderSkipped => Some(BootStage::EarlyPrepare),
            BootStage::EarlyPrepare => if relocate {
                Some(BootStage::SelfRelocate)
            } else {
                Some(BootStage::HostedEntry)
            },
            BootStage::SelfRelocate => Some(BootStage::HostedEntry),
            BootStage::HostedEntry => None,
        }
    }
}

/// Every boot reaches the hosted entry point, by way of the early
/// preparations, and nothing follows it. The header, where there is one, is
/// passed first; relocation, where it is asked for, comes last before the
/// hosted entry point.
pub proof fn lemma_boot_reaches_hosted_entry(header: bool, relocate: bool)
    ensures
        BootStage::HostedEntry.next(header, relocate) is None,
        header ==> BootStage::Reset.next(header, relocate) == Some(BootStage::HeaderSkipped)
            && BootStage::HeaderSkipped.next(header, relocate) == Some(BootStage::EarlyPrepare),
        !header ==> BootStage::Reset.next(header, relocate) == Some(BootStage::EarlyPrepare),
        relocate ==> BootStage::EarlyPrepare.next(header, relocate) == Some(
            BootStage::SelfRelocate,
        ) && BootStage::SelfRelocate.next(header, relocate) == Some(BootStage::HostedEntry),
        !relocate ==> BootStage::EarlyPrepare.next(header, relocate) == Some(
            BootStage::HostedEntry,
        ),
{
}

/// The image begins with its header: the 64 bytes at the entry symbol lie in
/// the window and are the encoding of the header that the symbols give.
pub open spec fn header_in_place(
    bytes: Seq<u8>,
    window_base: int,
    layout: ImageLayout,
    big_endian: bool,
) -> bool {
    &&& window_base <= layout.entry
    &&& layout.entry + 64 <= window_base + bytes.len()
    &&& header_for(layout.entry, layout.early_prepare, layout.bin_end, big_endian) matches Some(
        header,
    )
    &&& bytes.subrange(layout.entry - window_base, layout.entry - window_base + 64)
        == header.encoding()
}

/// What the 64 bytes at the entry symbol of an image with a header hold, field
/// by field, little-endian: the branch to the early preparations and a no-op,
/// a zero text offset, the image size, the flags, three reserved words of
/// zero, the magic number and a reserved zero.
pub proof fn lemma_header_words(
    bytes: Seq<u8>,
    window_base: int,
    layout: ImageLayout,
    big_endian: bool,
)
    requires
        header_in_place(bytes, window_base, layout, big_endian),
    ensures
        ({
            let at = layout.entry - window_base;
            &&& layout.entry <= layout.early_prepare
            &&& spec_u32_from_le_bytes(bytes.subrange(at, at + 4)) == BRANCH + (
            layout.early_prepare - layout.entry) / 4
            &&& spec_u32_from_le_bytes(bytes.subrange(at + 4, at + 8)) == NOP
            &&& word_at(bytes, at + 8) == 0
            &&& word_at(bytes, at + 16) == layout.bin_end.wrapping_sub(layout.entry)
            &&& layout.entry <= layout.bin_end ==> word_at(bytes, at + 16) == layout.bin_end
                - layout.entry
            &&& word_at(bytes, at + 24) == if big_endian {
                0xbu64
            } else {
                0xau64
            }
            &&& word_at(bytes, at + 32) == 0
            &&& word_at(bytes, at + 40) == 0
            &&& word_at(bytes, at + 48) == 0
            &&& spec_u32_from_le_bytes(bytes.subrange(at + 56, at + 60)) == 0x644d5241
            &&& spec_u32_from_le_bytes(bytes.subrange(at + 60, at + 64)) == 0
        }),
{
    let at = layout.entry - window_base;
    let header = header_for(layout.entry, layout.early_prepare, layout.bin_end, big_endian)->0;
    let front = bytes.subrange(at, at + 64);
    lemma_decoding_of_encoding(header);
    assert(front.subrange(0, 4) =~= bytes.subrange(at, at + 4));
    assert(front.subrange(4, 8) =~= bytes.subrange(at + 4, at + 8));
    assert(front.subrange(8, 16) =~= bytes.subrange(at + 8, at + 16));
    assert(front.subrange(16, 24) =~= bytes.subrange(at + 16, at + 24));
    assert(front.subrange(24, 32) =~= bytes.subrange(at + 24, at + 32));
    assert(front.subrange(32, 40) =~= bytes.subrange(at + 32, at + 40));
    assert(front.subrange(40, 48) =~= bytes.subrange(at + 40, at + 48));
    assert(front.subrange(48, 56) =~= bytes.subrange(at + 48, at + 56));
    assert(front.subrange(56, 60) =~= bytes.subrange(at + 56, at + 60));
    assert(front.subrange(60, 64) =~= bytes.subrange(at + 60, at + 64));
}

/// Nothing on the boot path writes to the header: it lies outside the bss,
/// and no relocation that is applied once the bss is zero patches a word of it.
pub open spec fn header_spared(
    bytes: Seq<u8>,
    window_base: int,
    layout: ImageLayout,
    config: BootConfig,
) -> bool {
    &&& layout.bss_begin < layout.bss_end ==> layout.bss_end <= layout.entry || layout.entry + 64
        <= layout.bss_begin
    &&& config.relocate ==> spares(
        with_zeros(bytes, layout.bss_begin - window_base, layout.bss_end - window_base),
        window_base,
        layout.text_begin,
        layout.rela_begin - window_base,
        entry_count(layout.rela_begin, layout.rela_end),
        layout.entry - window_base,
        layout.entry - window_base + 64,
    )
}

/// Whether the image begins with its header.
pub fn header_found(mem: &Memory, layout: ImageLayout, big_endian: bool) -> (found: bool)
    ensures
        found == header_in_place(mem@, mem.base() as int, layout, big_endian),
{
    if !mem.covers(layout.entry, 64) {
        return false;
    }
    let expected = match image_header(
        layout.entry,
        layout.early_prepare,
        layout.bin_end,
        big_endian,
    ) {
        None => {
            return false;
        },
        Some(expected) => expected,
    };
    let front = mem.read_bytes(layout.entry, HEADER_BYTES);
    proof {
        lemma_decoding_of_encoding(expected);
        assert(front@.subrange(0, 64) =~= front@);
    }
    match BootHeader::parse(&front) {
        None => false,
        Some(present) => present == expected,
    }
}

/// Where control goes from the first instruction of the image: to the early
/// preparations, by the branch that the header begins with where the image
/// has a header.
pub fn reset(mem: &Memory, layout: ImageLayout, config: BootConfig) -> (target: u64)
    requires
        config.header ==> header_in_place(mem@, mem.base() as int, layout, config.big_endian),
    ensures
        target == layout.early_prepare,
{
    if !config.header {
        return layout.early_prepare;
    }
    let _ = mem.len();
    let front = mem.read_bytes(layout.entry, HEADER_BYTES);
    proof {
        let header = header_for(
            layout.entry,
            layout.early_prepare,
            layout.bin_end,
            config.big_endian,
        )->0;
        lemma_decoding_of_encoding(header);
        assert(front@.subrange(0, 64) =~= front@);
    }
    match BootHeader::parse(&front) {
        None => layout.early_prepare,
        Some(header) => {
            let words: u64 = (header.code0 - BRANCH) as u64;
            layout.entry + 4 * words
        },
    }
}

/// Where the zeroing loop stops: at the end of a region that is not empty, at
/// its start otherwise.
pub open spec fn zeroing_end(bss_begin: u64, bss_end: u64) -> u64 {
    if bss_begin < bss_end {
        bss_end
    } else {
        bss_begin
    }
}

/// Zeroes every byte from `bss_begin` up to `bss_end` and no other, sixteen
/// bytes at a time while sixteen are left and byte by byte after that. With
/// nothing between the two addresses it stores nothing. Returns where it
/// stopped.
pub fn zero_bss(mem: &mut Memory, bss_begin: u64, bss_end: u64) -> (cursor: u64)
    requires
        bss_begin < bss_end ==> old(mem).contains(bss_begin as int, bss_end - bss_begin),
    ensures
        cursor == zeroing_end(bss_begin, bss_end),
        final(mem).base() == old(mem).base(),
        final(mem)@ == with_zeros(
            old(mem)@,
            old(mem).index_of(bss_begin as int),
            old(mem).index_of(bss_end as int),
        ),
{
    let _ = mem.len();
    let ghost bytes = mem@;
    let ghost from = mem.index_of(bss_begin as int);
    let mut cursor = bss_begin;
    assert(mem@ =~= with_zeros(bytes, from, mem.index_of(cursor as int)));
    while cursor < bss_end
        invariant
            bss_begin <= cursor,
            bss_begin < bss_end ==> cursor <= bss_end,
            bss_begin >= bss_end ==> cursor == bss_begin,
            mem.base() == old(mem).base(),
            from == bss_begin - mem.base(),
            bss_begin < bss_end ==> 0 <= from && bss_end - mem.base() <= bytes.len(),
            mem.base() + mem@.len() <= u64::MAX + 1,
            bytes.len() == mem@.len(),
            mem@ == with_zeros(bytes, from, cursor - mem.base()),
        decreases bss_end - cursor,
    {
        let ghost at = mem.index_of(cursor as int);
        let ghost before = mem@;
        if bss_end - cursor >= ZERO_STRIDE {
            proof {
                lemma_zero_word(before, at);
                lemma_zero_word(with_zeros(before, at, at + 8), at + 8);
            }
            mem.write_u64(cursor, 0);
            mem.write_u64(cursor + 8, 0);
            cursor = cursor + ZERO_STRIDE;
        } else {
            mem.write_u8(cursor, 0);
            cursor = cursor + 1;
        }
        assert(mem@ =~= with_zeros(bytes, from, cursor - mem.base()));
    }
    assert(mem@ =~= with_zeros(bytes, from, mem.index_of(bss_end as int)));
    cursor
}

/// The core after the early preparations: the MMU is on as `enable_mmu`
/// leaves it, floating point accesses no longer trap, `x29` and `x30` hold what
/// the zeroing loop and the stack set-up left in them, and the stack pointer is
/// at the top of the boot stack.
pub open spec fn early_prepared(pre: CpuView, layout: ImageLayout, config: BootConfig) -> CpuView {
    let started = mmu_started(pre, config.mmu, config.level);
    CpuView {
        cpacr: started.cpacr | CPACR_FPEN,
        x: started.x.update(29, zeroing_end(layout.bss_begin, layout.bss_end)).update(
            30,
            layout.boot_stack_end,
        ),
        sp: layout.boot_stack_end,
        hazards: Hazards { unsynced: false, ..started.hazards },
        ..started
    }
}

/// Early entry point preparations.
///
/// Carries out what is needed before the loaded image can run: switches on the
/// MMU, stops floating point accesses from trapping, zeroes the bss section
/// and prepares the stack. It uses `x8` to `x12`, `x29` and `x30` and leaves
/// `x0` to `x3` alone, as these may hold boot parameters.
pub fn entry_early_prepare(
    cpu: &mut Cpu,
    mem: &mut Memory,
    layout: ImageLayout,
    config: BootConfig,
)
    requires
        layout.bss_begin < layout.bss_end ==> old(mem).contains(
            layout.bss_begin as int,
            layout.bss_end - layout.bss_begin,
        ),
    ensures
        final(cpu)@ == early_prepared(old(cpu)@, layout, config),
        final(mem).base() == old(mem).base(),
        final(mem)@ == with_zeros(
            old(mem)@,
            old(mem).index_of(layout.bss_begin as int),
            old(mem).index_of(layout.bss_end as int),
        ),
{
    enable_mmu(cpu, config.mmu, config.level);
    // Disable trapping floating point access in EL1.
    let cpacr = cpu.cpacr;
    cpu.set_reg(30, cpacr);
    cpu.set_reg(30, cpu.reg(30) | CPACR_FPEN);
    let cpacr = cpu.reg(30);
    cpu.msr_cpacr(cpacr);
    cpu.isb();
    // Zero out the bss section.
    cpu.set_reg(29, layout.bss_begin);
    cpu.set_reg(30, layout.bss_end);
    let cursor = zero_bss(mem, cpu.reg(29), cpu.reg(30));
    cpu.set_reg(29, cursor);
    // Prepare the stack.
    cpu.set_reg(30, layout.boot_stack_end);
    cpu.sp = cpu.reg(30);
    assert(cpu@.x =~= early_prepared(old(cpu)@, layout, config).x);
}

/// The core after the image was prepared: with relocation, `x24` holds the
/// first boot parameter, which is back in `x0`, and `x7` the address that
/// control goes to next; without, nothing changed.
pub open spec fn image_prepared(pre: CpuView, layout: ImageLayout, config: BootConfig) -> CpuView {
    if config.relocate {
        pre.with_reg(24, pre.x[0]).with_reg(0, pre.x[0]).with_reg(7, layout.rust_entry)
    } else {
        pre
    }
}

/// Whether the image can be prepared: whether its relocation table, if it is
/// to be applied, can be applied.
pub open spec fn can_prepare_image(mem: &Memory, layout: ImageLayout, config: BootConfig) -> bool {
    config.relocate ==> relocatable(
        mem@,
        mem.base() as int,
        layout.text_begin,
        mem.index_of(layout.rela_begin as int),
        entry_count(layout.rela_begin, layout.rela_end),
    )
}

/// The memory after the image was prepared.
pub open spec fn image_bytes_prepared(
    bytes: Seq<u8>,
    window_base: int,
    layout: ImageLayout,
    config: BootConfig,
) -> Seq<u8> {
    if config.relocate {
        relocated(
            bytes,
            window_base,
            layout.text_begin,
            layout.rela_begin - window_base,
            entry_count(layout.rela_begin, layout.rela_end),
        )
    } else {
        bytes
    }
}

/// The last preparations before the entry point written in Rust: an image that
/// may run anywhere relocates itself for the address it was loaded at, with
/// the first boot parameter kept aside in `x24` meanwhile.
pub fn entry_prepare_image(
    cpu: &mut Cpu,
    mem: &mut Memory,
    layout: ImageLayout,
    config: BootConfig,
)
    requires
        can_prepare_image(old(mem), layout, config),
    ensures
        final(cpu)@ == image_prepared(old(cpu)@, layout, config),
        final(mem).base() == old(mem).base(),
        final(mem)@ == image_bytes_prepared(old(mem)@, old(mem).base() as int, layout, config),
{
    if config.relocate {
        // Preserve x0.
        let arg0 = cpu.reg(0);
        cpu.set_reg(24, arg0);
        // Where the image was loaded.
        cpu.set_reg(0, layout.text_begin);
        relocate_image(mem, cpu.reg(0), layout.rela_begin, layout.rela_end);
        let kept = cpu.reg(24);
        cpu.set_reg(0, kept);
        // Call into Rust code.
        cpu.set_reg(7, layout.rust_entry);
        assert(cpu@.x =~= image_prepared(old(cpu)@, layout, config).x);
    }
}

/// The call into the hosted entry point: its four arguments. It does not return.
#[derive(Clone, Copy, Debug, PartialEq, Eq, Structural)]
pub struct HostedCall {
    pub arg0: u64,
    pub arg1: u64,
    pub arg2: u64,
    pub arg3: u64,
}

/// Installs the vector table and hands the boot parameters in `x0` to `x3` to
/// the hosted entry point.
pub fn rust_entry(cpu: &mut Cpu, config: BootConfig) -> (call: HostedCall)
    ensures
        final(cpu)@ == vector_installed(old(cpu)@, config.vectors, config.vector_level()),
        call == (HostedCall {
            arg0: old(cpu)@.x[0],
            arg1: old(cpu)@.x[1],
            arg2: old(cpu)@.x[2],
            arg3: old(cpu)@.x[3],
        }),
{
    let call = HostedCall { arg0: cpu.reg(0), arg1: cpu.reg(1), arg2: cpu.reg(2), arg3: cpu.reg(3) };
    set_exception_vector(cpu, config.vectors, config.vector_level());
    call
}

/// The core at the moment the hosted entry point is called.
pub open spec fn booted(pre: CpuView, layout: ImageLayout, config: BootConfig) -> CpuView {
    vector_installed(
        image_prepared(early_prepared(pre, layout, config), layout, config),
        config.vectors,
        config.vector_level(),
    )
}

/// The memory at the moment the hosted entry point is called: the bss is
/// zero, and after that the image is relocated if it was built to be.
pub open spec fn booted_bytes(
    bytes: Seq<u8>,
    window_base: int,
    layout: ImageLayout,
    config: BootConfig,
) -> Seq<u8> {
    image_bytes_prepared(
        with_zeros(bytes, layout.bss_begin - window_base, layout.bss_end - window_base),
        window_base,
        layout,
        config,
    )
}

/// Whether the image can boot from `bytes`: whether its bss lies in the
/// window, its relocation table can be applied once the bss is zero, and, for
/// an image with a header, the header is in place and nothing will write to it.
pub open spec fn bootable(
    bytes: Seq<u8>,
    window_base: int,
    layout: ImageLayout,
    config: BootConfig,
) -> bool {
    &&& layout.bss_begin < layout.bss_end ==> window_base <= layout.bss_begin && layout.bss_end
        <= window_base + bytes.len()
    &&& config.relocate ==> relocatable(
        with_zeros(bytes, layout.bss_begin - window_base, layout.bss_end - window_base),
        window_base,
        layout.text_begin,
        layout.rela_begin - window_base,
        entry_count(layout.rela_begin, layout.rela_end),
    )
    &&& config.header ==> header_in_place(bytes, window_base, layout, config.big_endian)
        && header_spared(bytes, window_base, layout, config)
}

/// The boot path leaves the header of the image in place.
pub proof fn lemma_boot_keeps_header(
    bytes: Seq<u8>,
    window_base: int,
    layout: ImageLayout,
    config: BootConfig,
)
    requires
        bootable(bytes, window_base, layout, config),
        config.header,
    ensures
        header_in_place(
            booted_bytes(bytes, window_base, layout, config),
            window_base,
            layout,
            config.big_endian,
        ),
{
    let from = layout.entry - window_base;
    let zeroed = with_zeros(bytes, layout.bss_begin - window_base, layout.bss_end - window_base);
    assert(zeroed.subrange(from, from + 64) =~= bytes.subrange(from, from + 64));
    let after = booted_bytes(bytes, window_base, layout, config);
    if config.relocate {
        lemma_spared_bytes_stay(
            zeroed,
            window_base,
            layout.text_begin,
            layout.rela_begin - window_base,
            entry_count(layout.rela_begin, layout.rela_end),
            from,
            from + 64,
        );
    }
    assert(after.len() == bytes.len());
    assert(after.subrange(from, from + 64) == bytes.subrange(from, from + 64));
}

/// The entry point of the image: runs the boot path from the first instruction
/// to the call into the hosted entry point, which it returns.
///
/// An image with a header begins with the 64 bytes of [`header_for`] its
/// symbols, of which the first four are the branch that is taken here; the
/// boot path leaves them as they are. The four boot parameters that the loader
/// left in `x0` to `x3` reach the hosted entry point as they were, whatever
/// ran in between.
pub fn entry(cpu: &mut Cpu, mem: &mut Memory, layout: ImageLayout, config: BootConfig) -> (call:
    HostedCall)
    requires
        bootable(old(mem)@, old(mem).base() as int, layout, config),
    ensures
        call == (HostedCall {
            arg0: old(cpu)@.x[0],
            arg1: old(cpu)@.x[1],
            arg2: old(cpu)@.x[2],
            arg3: old(cpu)@.x[3],
        }),
        final(cpu)@ == booted(old(cpu)@, layout, config),
        final(mem).base() == old(mem).base(),
        final(mem)@ == booted_bytes(old(mem)@, old(mem).base() as int, layout, config),
        config.header ==> header_in_place(
            old(mem)@,
            old(mem).base() as int,
            layout,
            config.big_endian,
        ) && header_in_place(final(mem)@, old(mem).base() as int, layout, config.big_endian),
{
    let ghost pre = cpu@;
    let ghost bytes = mem@;
    let _ = reset(mem, layout, config);
    entry_early_prepare(cpu, mem, layout, config);
    entry_prepare_image(cpu, mem, layout, config);
    proof {
        lemma_boot_keeps_arguments(pre, layout, config);
        if config.header {
            lemma_boot_keeps_header(bytes, mem.base() as int, layout, config);
        }
    }
    rust_entry(cpu, config)
}

/// Whether the image can boot from `mem`.
pub fn can_boot(mem: &Memory, layout: ImageLayout, config: BootConfig) -> (ok: bool)
    ensures
        ok == bootable(mem@, mem.base() as int, layout, config),
{
    if layout.bss_begin < layout.bss_end && !mem.covers(
        layout.bss_begin,
        layout.bss_end - layout.bss_begin,
    ) {
        return false;
    }
    if config.header {
        if !header_found(mem, layout, config.big_endian) {
            return false;
        }
        if layout.bss_begin < layout.bss_end {
            let below = layout.bss_end <= layout.entry;
            let above = layout.bss_begin >= layout.entry && layout.bss_begin - layout.entry >= 64;
            if !(below || above) {
                return false;
            }
        }
    }
    if !config.relocate {
        return true;
    }
    let mut trial = mem.duplicate();
    zero_bss(&mut trial, layout.bss_begin, layout.bss_end);
    if !can_relocate(&trial, layout.text_begin, layout.rela_begin, layout.rela_end) {
        return false;
    }
    if config.header {
        relocation_spares(
            &trial,
            layout.text_begin,
            layout.rela_begin,
            layout.rela_end,
            layout.entry,
            64,
        )
    } else {
        true
    }
}

/// Runs the boot path if the image can boot from `mem`, and returns the call
/// into the hosted entry point. If the image cannot boot, returns `None` and
/// leaves the core and `mem` as they were.
pub fn try_entry(cpu: &mut Cpu, mem: &mut Memory, layout: ImageLayout, config: BootConfig) -> (call:
    Option<HostedCall>)
    ensures
        call is Some <==> bootable(old(mem)@, old(mem).base() as int, layout, config),
        final(mem).base() == old(mem).base(),
        match call {
            Some(call) => {
                &&& call == (HostedCall {
                    arg0: old(cpu)@.x[0],
                    arg1: old(cpu)@.x[1],
                    arg2: old(cpu)@.x[2],
                    arg3: old(cpu)@.x[3],
                })
                &&& final(cpu)@ == booted(old(cpu)@, layout, config)
                &&& final(mem)@ == booted_bytes(
                    old(mem)@,
                    old(mem).base() as int,
                    layout,
                    config,
                )
                &&& config.header ==> header_in_place(
                    final(mem)@,
                    old(mem).base() as int,
                    layout,
                    config.big_endian,
                )
            },
            None => final(cpu)@ == old(cpu)@ && final(mem)@ == old(mem)@,
        },
{
    if can_boot(mem, layout, config) {
        Some(entry(cpu, mem, layout, config))
    } else {
        None
    }
}

/// Neither MMU bring-up nor the zeroing of the bss nor relocation touches the
/// boot parameters: `x0` to `x3` are the same at the hosted entry point as at
/// the first instruction.
pub proof fn lemma_boot_keeps_arguments(pre: CpuView, layout: ImageLayout, config: BootConfig)
    requires
        pre.x.len() == 31,
    ensures
        forall|i: int|
            0 <= i < 4 ==> image_prepared(early_prepared(pre, layout, config), layout, config).x[i]
                == pre.x[i],
        forall|i: int| 0 <= i < 4 ==> booted(pre, layout, config).x[i] == pre.x[i],
        booted(pre, layout, config).x.len() == 31,
{
}

} // verus!
