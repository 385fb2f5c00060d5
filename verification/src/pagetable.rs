//! The words that configure translation, and the routine that applies them and
//! switches the MMU and caches on.

use crate::cpu::{Cpu, CpuView, ExceptionLevel, Hazards, SysRegs};
use vstd::prelude::*;

verus! {

/// Attribute byte for device memory: non-gathering, non-reordering, early write
/// acknowledgement.
pub const MAIR_DEV_NGNRE: u64 = 0x04;

/// Attribute byte for normal memory: write-back, non-transient, read- and
/// write-allocating.
pub const MAIR_MEM_WBWA: u64 = 0xff;

/// The default value used for `MAIR_ELx`: device memory at index 0, normal
/// memory at index 1.
pub const DEFAULT_MAIR: u64 = MAIR_DEV_NGNRE | MAIR_MEM_WBWA << 8;

/// 4 KiB granule size for `TTBR1_ELx`.
pub const TCR_TG1_4KB: u64 = 0x2 << 30;

/// Disable translation table walk for `TTBR1_ELx`, generating a translation fault instead.
pub const TCR_EPD1: u64 = 0x1 << 23;

/// 40 bits, 1 TiB.
pub const TCR_EL1_IPS_1TB: u64 = 0x2 << 32;

/// 40 bits, 1 TiB.
pub const TCR_EL2_PS_1TB: u64 = 0x2 << 16;

/// 4 KiB granule size for `TTBR0_ELx`.
pub const TCR_TG0_4KB: u64 = 0x0 << 14;

/// Translation table walks for `TTBR0_ELx` are inner sharable.
pub const TCR_SH_INNER: u64 = 0x3 << 12;

/// Translation table walks for `TTBR0_ELx` are outer write-back read-allocate
/// write-allocate cacheable.
pub const TCR_RGN_OWB: u64 = 0x1 << 10;

/// Translation table walks for `TTBR0_ELx` are inner write-back read-allocate
/// write-allocate cacheable.
pub const TCR_RGN_IWB: u64 = 0x1 << 8;

/// Size offset for `TTBR0_ELx` is 2**39 bytes (512 GiB).
pub const TCR_T0SZ_512: u64 = 64 - 39;

/// The default value used for `TCR_EL1`.
pub const DEFAULT_TCR_EL1: u64 = TCR_EL1_IPS_1TB | TCR_TG1_4KB | TCR_EPD1 | TCR_TG0_4KB
    | TCR_SH_INNER | TCR_RGN_OWB | TCR_RGN_IWB | TCR_T0SZ_512;

/// The default value used for `TCR_EL2`.
pub const DEFAULT_TCR_EL2: u64 = TCR_EL2_PS_1TB | TCR_TG0_4KB | TCR_SH_INNER | TCR_RGN_OWB
    | TCR_RGN_IWB | TCR_T0SZ_512;

/// The default value used for `TCR_EL3`.
pub const DEFAULT_TCR_EL3: u64 = TCR_TG0_4KB | TCR_RGN_OWB | TCR_RGN_IWB | TCR_SH_INNER
    | TCR_T0SZ_512;

/// Stage 1 instruction access cacheability is unaffected.
pub const SCTLR_ELX_I: u64 = 0x1 << 12;

/// SP alignment fault if SP is not aligned to a 16 byte boundary.
pub const SCTLR_ELX_SA: u64 = 0x1 << 3;

/// Stage 1 data access cacheability is unaffected.
pub const SCTLR_ELX_C: u64 = 0x1 << 2;

/// EL0 and EL1 stage 1 MMU enabled.
pub const SCTLR_ELX_M: u64 = 0x1 << 0;

/// Privileged Access Never is unchanged on taking an exception to ELx.
pub const SCTLR_ELX_SPAN: u64 = 0x1 << 23;

/// SETEND instruction disabled at EL0 in aarch32 mode.
pub const SCTLR_ELX_SED: u64 = 0x1 << 8;

/// Various IT instructions are disabled at EL0 in aarch32 mode.
pub const SCTLR_ELX_ITD: u64 = 0x1 << 7;

pub const SCTLR_ELX_RES1: u64 = (0x1 << 11) | (0x1 << 20) | (0x1 << 22) | (0x1 << 28) | (0x1 << 29);

/// The default value used for `SCTLR_ELx`.
pub const DEFAULT_SCTLR: u64 = SCTLR_ELX_M | SCTLR_ELX_C | SCTLR_ELX_SA | SCTLR_ELX_ITD
    | SCTLR_ELX_SED | SCTLR_ELX_I | SCTLR_ELX_SPAN | SCTLR_ELX_RES1;

/// The number of descriptors in the initial page table.
pub const PAGETABLE_ENTRIES: usize = 512;

/// A hardcoded pagetable.
pub struct InitialPagetable(pub [usize; 512]);

/// The position of the physical address size field in a translation control word.
pub const TCR_PA_SIZE_SHIFT: u64 = 32;

/// The mask of a physical address size field, before shifting.
pub const PA_SIZE_MASK: u64 = 0x7;

/// `tcr` with its physical address size field replaced by the one that
/// `id_aa64mmfr0` reports in its low bits.
pub open spec fn merged_tcr(tcr: u64, id_aa64mmfr0: u64) -> u64 {
    (tcr & !(0x7u64 << 32)) | ((id_aa64mmfr0 & 0x7) << 32)
}

/// Copies the supported physical address range that the hardware reports into
/// the translation control word: bits 34:32 become the reported field, every
/// other bit stays as the caller supplied it. The field goes to the same place
/// at every exception level.
pub fn merge_pa_range(tcr: u64, id_aa64mmfr0: u64) -> (merged: u64)
    ensures
        merged == merged_tcr(tcr, id_aa64mmfr0),
        (merged >> 32) & 0x7 == id_aa64mmfr0 & 0x7,
        merged & !(0x7u64 << 32) == tcr & !(0x7u64 << 32),
{
    let merged = (tcr & !(PA_SIZE_MASK << TCR_PA_SIZE_SHIFT)) | ((id_aa64mmfr0 & PA_SIZE_MASK)
        << TCR_PA_SIZE_SHIFT);
    assert(merged == (tcr & !(0x7u64 << 32)) | ((id_aa64mmfr0 & 0x7) << 32));
    assert((((tcr & !(0x7u64 << 32)) | ((id_aa64mmfr0 & 0x7) << 32)) >> 32) & 0x7 == id_aa64mmfr0
        & 0x7) by (bit_vector);
    assert(((tcr & !(0x7u64 << 32)) | ((id_aa64mmfr0 & 0x7) << 32)) & !(0x7u64 << 32) == tcr & !(
    0x7u64 << 32)) by (bit_vector);
    merged
}

/// For every reported physical address size `p` from 0 to 7, the merged word
/// has exactly `p` in bits 34:32 and agrees with `tcr` in every other bit.
pub proof fn lemma_merged_tcr_field(tcr: u64, p: u64)
    requires
        p <= 7,
    ensures
        (merged_tcr(tcr, p) >> 32) & 0x7 == p,
        merged_tcr(tcr, p) & !(0x7u64 << 32) == tcr & !(0x7u64 << 32),
{
    assert(p <= 7 ==> (((tcr & !(0x7u64 << 32)) | ((p & 0x7) << 32)) >> 32) & 0x7 == p)
        by (bit_vector);
    assert(((tcr & !(0x7u64 << 32)) | ((p & 0x7) << 32)) & !(0x7u64 << 32) == tcr & !(0x7u64
        << 32)) by (bit_vector);
}

/// Merging is idempotent, and a second merge with another report replaces the first.
pub proof fn lemma_merged_tcr_again(tcr: u64, first: u64, second: u64)
    ensures
        merged_tcr(merged_tcr(tcr, first), second) == merged_tcr(tcr, second),
{
    assert(((((tcr & !(0x7u64 << 32)) | ((first & 0x7) << 32)) & !(0x7u64 << 32)) | ((second
        & 0x7) << 32)) == ((tcr & !(0x7u64 << 32)) | ((second & 0x7) << 32))) by (bit_vector);
}

/// The register file and system registers after the MMU has been switched on
/// at `level` from the scratch registers: `x8` holds `MAIR`, `x9` holds
/// `SCTLR`, `x10` holds `TCR` and `x11` the address of the root page table.
///
/// `x8` is left holding the identification register and `x10` the merged
/// translation control word. Nothing is left outstanding, and no unsafe window
/// is added to what was there before.
pub open spec fn mmu_enabled(pre: CpuView, level: ExceptionLevel) -> CpuView {
    let tcr = merged_tcr(pre.x[10], pre.id_aa64mmfr0);
    let regs = SysRegs { mair: pre.x[8], ttbr0: pre.x[11], tcr, sctlr: pre.x[9], ..pre.sys(level) };
    CpuView {
        x: pre.x.update(8, pre.id_aa64mmfr0).update(10, tcr),
        hazards: Hazards {
            unsynced: false,
            tlb_stale: false,
            icache_stale: false,
            maintenance_pending: false,
            stale_window: pre.hazards.stale_window,
        },
        ..pre.with_sys(level, regs)
    }
}

/// Switching the MMU on leaves nothing outstanding and opens no window in
/// which stale TLB entries or cache lines could be used, whatever the caches
/// held before; and the translation control word that is in effect carries the
/// physical address size that the hardware reports.
pub proof fn lemma_mmu_enabled_safely(pre: CpuView, level: ExceptionLevel)
    ensures
        mmu_enabled(pre, level).hazards.stale_window == pre.hazards.stale_window,
        !pre.hazards.stale_window ==> mmu_enabled(pre, level).hazards.settled(),
        (mmu_enabled(pre, level).sys(level).tcr >> 32) & 0x7 == pre.id_aa64mmfr0 & 0x7,
        mmu_enabled(pre, level).sys(level).tcr & !(0x7u64 << 32) == pre.x[10] & !(0x7u64 << 32),
{
    let tcr = pre.x[10];
    let id = pre.id_aa64mmfr0;
    assert((((tcr & !(0x7u64 << 32)) | ((id & 0x7) << 32)) >> 32) & 0x7 == id & 0x7)
        by (bit_vector);
    assert(((tcr & !(0x7u64 << 32)) | ((id & 0x7) << 32)) & !(0x7u64 << 32) == tcr & !(0x7u64
        << 32)) by (bit_vector);
}

/// Applies the memory management configuration held in `x8` to `x11` to the
/// registers of `level`, invalidates what the TLB and instruction cache hold,
/// and only then switches the MMU and caches on.
fn enable_mmu_at(cpu: &mut Cpu, level: ExceptionLevel)
    ensures
        final(cpu)@ == mmu_enabled(old(cpu)@, level),
{
    // Load and apply the memory management configuration, ready to enable MMU
    // and caches.
    let mair = cpu.reg(8);
    cpu.msr_mair(level, mair);
    let table = cpu.reg(11);
    cpu.msr_ttbr0(level, table);
    // Copy the supported PA range into the translation control word.
    let id = cpu.id_aa64mmfr0;
    cpu.set_reg(8, id);
    let tcr = merge_pa_range(cpu.reg(10), cpu.reg(8));
    cpu.set_reg(10, tcr);
    cpu.msr_tcr(level, tcr);
    // Ensure everything before this point has completed, then invalidate any
    // potentially stale local TLB entries before they start being used.
    cpu.isb();
    cpu.tlbi();
    cpu.ic_iallu();
    cpu.dsb();
    cpu.isb();
    // Enable MMU and caches and do not proceed until this has completed.
    let sctlr = cpu.reg(9);
    cpu.msr_sctlr(level, sctlr);
    cpu.isb();
}

/// Enables the MMU and caches, assuming that the core runs at EL1.
///
/// Expects the MAIR value in `x8`, the SCTLR value in `x9`, the TCR value in
/// `x10` and the root pagetable address in `x11`.
pub fn enable_mmu_el1(cpu: &mut Cpu)
    ensures
        final(cpu)@ == mmu_enabled(old(cpu)@, ExceptionLevel::El1),
{
    enable_mmu_at(cpu, ExceptionLevel::El1)
}

/// Enables the MMU and caches, assuming that the core runs at EL2.
///
/// Expects the MAIR value in `x8`, the SCTLR value in `x9`, the TCR value in
/// `x10` and the root pagetable address in `x11`.
pub fn enable_mmu_el2(cpu: &mut Cpu)
    ensures
        final(cpu)@ == mmu_enabled(old(cpu)@, ExceptionLevel::El2),
{
    enable_mmu_at(cpu, ExceptionLevel::El2)
}

/// Enables the MMU and caches, assuming that the core runs at EL3.
///
/// Expects the MAIR value in `x8`, the SCTLR value in `x9`, the TCR value in
/// `x10` and the root pagetable address in `x11`.
pub fn enable_mmu_el3(cpu: &mut Cpu)
    ensures
        final(cpu)@ == mmu_enabled(old(cpu)@, ExceptionLevel::El3),
{
    enable_mmu_at(cpu, ExceptionLevel::El3)
}

/// The words that the embedder chose for translation, and where the root page
/// table lives.
#[derive(Clone, Copy, Debug, PartialEq, Eq, Structural)]
pub struct MmuSetup {
    /// The address of the [`InitialPagetable`].
    pub pagetable: u64,
    pub mair: u64,
    pub sctlr: u64,
    pub tcr_el1: u64,
    pub tcr_el2: u64,
    pub tcr_el3: u64,
}

impl MmuSetup {
    /// The translation control word meant for `level`.
    pub open spec fn spec_tcr(self, level: ExceptionLevel) -> u64 {
        match level {
            ExceptionLevel::El1 => self.tcr_el1,
            ExceptionLevel::El2 => self.tcr_el2,
            ExceptionLevel::El3 => self.tcr_el3,
        }
    }

    /// The translation control word meant for `level`.
    #[verifier::when_used_as_spec(spec_tcr)]
    pub fn tcr(self, level: ExceptionLevel) -> (tcr: u64)
        ensures
            tcr == self.spec_tcr(level),
    {
        match level {
            ExceptionLevel::El1 => self.tcr_el1,
            ExceptionLevel::El2 => self.tcr_el2,
            ExceptionLevel::El3 => self.tcr_el3,
        }
    }

    /// The default attribute policy for a table at `pagetable`, and MMU, caches
    /// and alignment checking on.
    pub fn with_defaults(pagetable: u64) -> (setup: MmuSetup)
        ensures
            setup == (MmuSetup {
                pagetable,
                mair: DEFAULT_MAIR,
                sctlr: DEFAULT_SCTLR,
                tcr_el1: DEFAULT_TCR_EL1,
                tcr_el2: DEFAULT_TCR_EL2,
                tcr_el3: DEFAULT_TCR_EL3,
            }),
    {
        MmuSetup {
            pagetable,
            mair: DEFAULT_MAIR,
            sctlr: DEFAULT_SCTLR,
            tcr_el1: DEFAULT_TCR_EL1,
            tcr_el2: DEFAULT_TCR_EL2,
            tcr_el3: DEFAULT_TCR_EL3,
        }
    }
}

/// The level that start-up works at: the configured one, or else the one that
/// the core reports.
pub open spec fn effective_level(pre: CpuView, configured: Option<ExceptionLevel>) -> ExceptionLevel {
    match configured {
        Some(level) => level,
        None => pre.level(),
    }
}

/// The scratch registers as `enable_mmu` loads them before it branches to the
/// routine of the level: `x8`, `x9`, `x10` and `x11` hold the configuration,
/// and where the level is read from the core, `x12` holds it.
pub open spec fn mmu_loaded(pre: CpuView, setup: MmuSetup, configured: Option<ExceptionLevel>) -> CpuView {
    let level = effective_level(pre, configured);
    let x = pre.x.update(8, setup.mair).update(9, setup.sctlr).update(
        11,
        setup.pagetable & !0xfffu64,
    );
    let x = if configured is None {
        x.update(12, (pre.current_el >> 2) & 0x3)
    } else {
        x
    };
    CpuView { x: x.update(10, setup.tcr(level)), ..pre }
}

/// The core after `enable_mmu`: untouched without a setup, else the scratch
/// registers loaded and the MMU switched on at the effective level.
pub open spec fn mmu_started(
    pre: CpuView,
    setup: Option<MmuSetup>,
    configured: Option<ExceptionLevel>,
) -> CpuView {
    match setup {
        None => pre,
        Some(setup) => mmu_enabled(
            mmu_loaded(pre, setup, configured),
            effective_level(pre, configured),
        ),
    }
}

/// Switches the MMU and caches on with the embedder's configuration, at the
/// configured level or, where none is configured, at the level that the core
/// reports. Without a setup it returns at once.
pub fn enable_mmu(cpu: &mut Cpu, setup: Option<MmuSetup>, configured: Option<ExceptionLevel>)
    ensures
        final(cpu)@ == mmu_started(old(cpu)@, setup, configured),
{
    let setup = match setup {
        None => {
            return ;
        },
        Some(setup) => setup,
    };
    cpu.set_reg(8, setup.mair);
    cpu.set_reg(9, setup.sctlr);
    cpu.set_reg(11, setup.pagetable & !0xfffu64);
    let level = match configured {
        Some(level) => level,
        None => {
            let field = (cpu.current_el >> 2) & 0x3;
            cpu.set_reg(12, field);
            cpu.level()
        },
    };
    match level {
        ExceptionLevel::El3 => {
            cpu.set_reg(10, setup.tcr_el3);
            enable_mmu_el3(cpu);
        },
        ExceptionLevel::El2 => {
            cpu.set_reg(10, setup.tcr_el2);
            enable_mmu_el2(cpu);
        },
        ExceptionLevel::El1 => {
            cpu.set_reg(10, setup.tcr_el1);
            enable_mmu_el1(cpu);
        },
    }
}

} // verus!
