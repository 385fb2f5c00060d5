//! The state of one core: general-purpose registers, the system registers that
//! start-up touches, and the bookkeeping that says whether translation state is
//! safe to switch on.

use crate::memory::{with_word, Memory};
use vstd::prelude::*;

verus! {

/// The architectural privilege tiers that the runtime can start in.
#[derive(Clone, Copy, Debug, PartialEq, Eq, Structural)]
pub enum ExceptionLevel {
    El1,
    El2,
    El3,
}

/// The system registers of one exception level.
#[derive(Clone, Copy, Debug, PartialEq, Eq, Structural)]
pub struct SysRegs {
    pub mair: u64,
    pub ttbr0: u64,
    pub tcr: u64,
    pub sctlr: u64,
    pub vbar: u64,
    pub elr: u64,
    pub spsr: u64,
}

/// What is still outstanding between a change of translation state and the
/// point where it is safe to rely on it.
#[derive(Clone, Copy, Debug, PartialEq, Eq, Structural)]
pub struct Hazards {
    /// A system register was written and no `isb` has followed.
    pub unsynced: bool,
    /// The TLB may hold entries older than the current translation registers.
    pub tlb_stale: bool,
    /// The instruction cache may hold lines from an earlier boot stage.
    pub icache_stale: bool,
    /// A TLB or cache invalidation was issued and no `dsb` has followed.
    pub maintenance_pending: bool,
    /// Translation was switched on at a moment when stale entries could be used.
    /// Once set it stays set.
    pub stale_window: bool,
}

/// One core.
pub struct Cpu {
    /// `x0` to `x30`.
    pub x: [u64; 31],
    pub sp: u64,
    /// The `CurrentEL` register; the level is in bits 3:2.
    pub current_el: u64,
    /// `ID_AA64MMFR0_EL1`; the supported physical address range is in its low bits.
    pub id_aa64mmfr0: u64,
    /// `CPACR_EL1`.
    pub cpacr: u64,
    pub el1: SysRegs,
    pub el2: SysRegs,
    pub el3: SysRegs,
    pub hazards: Hazards,
}

/// A core as a mathematical value: the register file is a sequence of 31 words.
#[verifier::ext_equal]
pub struct CpuView {
    pub x: Seq<u64>,
    pub sp: u64,
    pub current_el: u64,
    pub id_aa64mmfr0: u64,
    pub cpacr: u64,
    pub el1: SysRegs,
    pub el2: SysRegs,
    pub el3: SysRegs,
    pub hazards: Hazards,
}

impl View for Cpu {
    type V = CpuView;

    open spec fn view(&self) -> CpuView {
        CpuView {
            x: self.x@,
            sp: self.sp,
            current_el: self.current_el,
            id_aa64mmfr0: self.id_aa64mmfr0,
            cpacr: self.cpacr,
            el1: self.el1,
            el2: self.el2,
            el3: self.el3,
            hazards: self.hazards,
        }
    }
}

impl Hazards {
    /// Nothing is outstanding and no unsafe window has been seen.
    pub open spec fn settled(self) -> bool {
        !self.unsynced && !self.tlb_stale && !self.icache_stale && !self.maintenance_pending
            && !self.stale_window
    }

    /// Whether switching on what `sctlr` enables would use stale state now.
    pub open spec fn unsafe_to_enable(self, sctlr: u64) -> bool {
        ||| sctlr & 0x1 != 0 && (self.unsynced || self.tlb_stale || self.maintenance_pending)
        ||| sctlr & 0x1000 != 0 && (self.icache_stale || self.maintenance_pending)
    }
}

impl CpuView {
    /// The system registers of `level`.
    pub open spec fn sys(self, level: ExceptionLevel) -> SysRegs {
        match level {
            ExceptionLevel::El1 => self.el1,
            ExceptionLevel::El2 => self.el2,
            ExceptionLevel::El3 => self.el3,
        }
    }

    /// This core with the system registers of `level` replaced.
    pub open spec fn with_sys(self, level: ExceptionLevel, regs: SysRegs) -> CpuView {
        match level {
            ExceptionLevel::El1 => CpuView { el1: regs, ..self },
            ExceptionLevel::El2 => CpuView { el2: regs, ..self },
            ExceptionLevel::El3 => CpuView { el3: regs, ..self },
        }
    }

    /// This core with `x[index]` replaced.
    pub open spec fn with_reg(self, index: int, value: u64) -> CpuView {
        CpuView { x: self.x.update(index, value), ..self }
    }

    /// The level that `CurrentEL` reports; anything below 2 is taken as level 1.
    pub open spec fn level(self) -> ExceptionLevel {
        level_of(self.current_el)
    }
}

/// The level encoded in a `CurrentEL` value.
pub open spec fn level_of(current_el: u64) -> ExceptionLevel {
    let field = (current_el >> 2) & 0x3;
    if field == 3 {
        ExceptionLevel::El3
    } else if field == 2 {
        ExceptionLevel::El2
    } else {
        ExceptionLevel::El1
    }
}

impl Cpu {
    /// A core with every register zero, running at `level`, that reports
    /// `id_aa64mmfr0`, and whose TLB and instruction cache may hold anything.
    pub fn new(level: ExceptionLevel, id_aa64mmfr0: u64) -> (cpu: Cpu)
        ensures
            cpu@.x == Seq::new(31, |i: int| 0u64),
            cpu@.level() == level,
            cpu@.id_aa64mmfr0 == id_aa64mmfr0,
            cpu@.sp == 0 && cpu@.cpacr == 0,
            cpu@.el1 == SysRegs::zero() && cpu@.el2 == SysRegs::zero() && cpu@.el3
                == SysRegs::zero(),
            cpu@.hazards == (Hazards {
                unsynced: false,
                tlb_stale: true,
                icache_stale: true,
                maintenance_pending: false,
                stale_window: false,
            }),
    {
        let current_el: u64 = match level {
            ExceptionLevel::El1 => 0x4,
            ExceptionLevel::El2 => 0x8,
            ExceptionLevel::El3 => 0xc,
        };
        assert((0x4u64 >> 2) & 0x3 == 1 && (0x8u64 >> 2) & 0x3 == 2 && (0xcu64 >> 2) & 0x3 == 3)
            by (bit_vector);
        let zero = SysRegs { mair: 0, ttbr0: 0, tcr: 0, sctlr: 0, vbar: 0, elr: 0, spsr: 0 };
        let cpu = Cpu {
            x: [0u64; 31],
            sp: 0,
            current_el,
            id_aa64mmfr0,
            cpacr: 0,
            el1: zero,
            el2: zero,
            el3: zero,
            hazards: Hazards {
                unsynced: false,
                tlb_stale: true,
                icache_stale: true,
                maintenance_pending: false,
                stale_window: false,
            },
        };
        assert(cpu@.x =~= Seq::new(31, |i: int| 0u64));
        cpu
    }

    /// The level this core runs at, read from `CurrentEL` as the start-up code
    /// reads it.
    pub fn level(&self) -> (level: ExceptionLevel)
        ensures
            level == self@.level(),
    {
        let field = (self.current_el >> 2) & 0x3;
        if field == 3 {
            ExceptionLevel::El3
        } else if field == 2 {
            ExceptionLevel::El2
        } else {
            ExceptionLevel::El1
        }
    }

    /// The system registers of `level`.
    pub fn sys(&self, level: ExceptionLevel) -> (regs: SysRegs)
        ensures
            regs == self@.sys(level),
    {
        match level {
            ExceptionLevel::El1 => self.el1,
            ExceptionLevel::El2 => self.el2,
            ExceptionLevel::El3 => self.el3,
        }
    }

    /// Replaces the system registers of `level`.
    pub fn set_sys(&mut self, level: ExceptionLevel, regs: SysRegs)
        ensures
            final(self)@ == old(self)@.with_sys(level, regs),
    {
        match level {
            ExceptionLevel::El1 => {
                self.el1 = regs;
            },
            ExceptionLevel::El2 => {
                self.el2 = regs;
            },
            ExceptionLevel::El3 => {
                self.el3 = regs;
            },
        }
    }

    /// `x[index]`.
    pub fn reg(&self, index: usize) -> (value: u64)
        requires
            index < 31,
        ensures
            value == self@.x[index as int],
    {
        self.x[index]
    }

    /// Sets `x[index]`.
    pub fn set_reg(&mut self, index: usize, value: u64)
        requires
            index < 31,
        ensures
            final(self)@ == old(self)@.with_reg(index as int, value),
    {
        self.x[index] = value;
    }
}

impl CpuView {
    /// This core with `hazards` replaced.
    pub open spec fn with_hazards(self, hazards: Hazards) -> CpuView {
        CpuView { hazards, ..self }
    }

    /// After a write of `value` to `MAIR` of `level`: the register holds the
    /// value, the write awaits an `isb`, and cached translations are out of date.
    pub open spec fn after_msr_mair(self, level: ExceptionLevel, value: u64) -> CpuView {
        self.with_sys(level, SysRegs { mair: value, ..self.sys(level) }).with_hazards(
            Hazards { unsynced: true, tlb_stale: true, ..self.hazards },
        )
    }

    /// After a write of `value` to `TTBR0` of `level`.
    pub open spec fn after_msr_ttbr0(self, level: ExceptionLevel, value: u64) -> CpuView {
        self.with_sys(level, SysRegs { ttbr0: value, ..self.sys(level) }).with_hazards(
            Hazards { unsynced: true, tlb_stale: true, ..self.hazards },
        )
    }

    /// After a write of `value` to `TCR` of `level`.
    pub open spec fn after_msr_tcr(self, level: ExceptionLevel, value: u64) -> CpuView {
        self.with_sys(level, SysRegs { tcr: value, ..self.sys(level) }).with_hazards(
            Hazards { unsynced: true, tlb_stale: true, ..self.hazards },
        )
    }

    /// After a write of `value` to `SCTLR` of `level`: the register holds the
    /// value and the write awaits an `isb`. If the value switches translation or
    /// the instruction cache on while stale state could be used, that is recorded.
    pub open spec fn after_msr_sctlr(self, level: ExceptionLevel, value: u64) -> CpuView {
        self.with_sys(level, SysRegs { sctlr: value, ..self.sys(level) }).with_hazards(
            Hazards {
                unsynced: true,
                stale_window: self.hazards.stale_window || self.hazards.unsafe_to_enable(value),
                ..self.hazards
            },
        )
    }

    /// After a write of `value` to `CPACR_EL1`: the register holds the value
    /// and the write awaits an `isb`.
    pub open spec fn after_msr_cpacr(self, value: u64) -> CpuView {
        CpuView { cpacr: value, ..self }.with_hazards(
            Hazards { unsynced: true, ..self.hazards },
        )
    }

    /// After a write of `value` to `VBAR` of `level`.
    pub open spec fn after_msr_vbar(self, level: ExceptionLevel, value: u64) -> CpuView {
        self.with_sys(level, SysRegs { vbar: value, ..self.sys(level) })
    }

    /// After `isb`: earlier system register writes are in effect.
    pub open spec fn after_isb(self) -> CpuView {
        self.with_hazards(Hazards { unsynced: false, ..self.hazards })
    }

    /// After `tlbi vmalle1`: the invalidation awaits a `dsb`; it covers the
    /// current translation registers only if their writes were synchronised.
    pub open spec fn after_tlbi(self) -> CpuView {
        self.with_hazards(
            Hazards {
                tlb_stale: self.hazards.tlb_stale && self.hazards.unsynced,
                maintenance_pending: true,
                ..self.hazards
            },
        )
    }

    /// After `ic iallu`: the invalidation awaits a `dsb`.
    pub open spec fn after_ic_iallu(self) -> CpuView {
        self.with_hazards(
            Hazards { icache_stale: false, maintenance_pending: true, ..self.hazards },
        )
    }

    /// After `dsb nsh`: issued invalidations are complete.
    pub open spec fn after_dsb(self) -> CpuView {
        self.with_hazards(Hazards { maintenance_pending: false, ..self.hazards })
    }
}

impl Cpu {
    /// `msr mair_elN, value`.
    pub fn msr_mair(&mut self, level: ExceptionLevel, value: u64)
        ensures
            final(self)@ == old(self)@.after_msr_mair(level, value),
    {
        let regs = self.sys(level);
        self.set_sys(level, SysRegs { mair: value, ..regs });
        self.hazards.unsynced = true;
        self.hazards.tlb_stale = true;
    }

    /// `msr ttbr0_elN, value`.
    pub fn msr_ttbr0(&mut self, level: ExceptionLevel, value: u64)
        ensures
            final(self)@ == old(self)@.after_msr_ttbr0(level, value),
    {
        let regs = self.sys(level);
        self.set_sys(level, SysRegs { ttbr0: value, ..regs });
        self.hazards.unsynced = true;
        self.hazards.tlb_stale = true;
    }

    /// `msr tcr_elN, value`.
    pub fn msr_tcr(&mut self, level: ExceptionLevel, value: u64)
        ensures
            final(self)@ == old(self)@.after_msr_tcr(level, value),
    {
        let regs = self.sys(level);
        self.set_sys(level, SysRegs { tcr: value, ..regs });
        self.hazards.unsynced = true;
        self.hazards.tlb_stale = true;
    }

    /// `msr sctlr_elN, value`.
    pub fn msr_sctlr(&mut self, level: ExceptionLevel, value: u64)
        ensures
            final(self)@ == old(self)@.after_msr_sctlr(level, value),
    {
        let h = self.hazards;
        let mmu_on = value & 0x1 != 0;
        let icache_on = value & 0x1000 != 0;
        let risky = (mmu_on && (h.unsynced || h.tlb_stale || h.maintenance_pending)) || (icache_on
            && (h.icache_stale || h.maintenance_pending));
        let regs = self.sys(level);
        self.set_sys(level, SysRegs { sctlr: value, ..regs });
        self.hazards.unsynced = true;
        self.hazards.stale_window = h.stale_window || risky;
    }

    /// `msr cpacr_el1, value`.
    pub fn msr_cpacr(&mut self, value: u64)
        ensures
            final(self)@ == old(self)@.after_msr_cpacr(value),
    {
        self.cpacr = value;
        self.hazards.unsynced = true;
    }

    /// `msr vbar_elN, value`.
    pub fn msr_vbar(&mut self, level: ExceptionLevel, value: u64)
        ensures
            final(self)@ == old(self)@.after_msr_vbar(level, value),
    {
        let regs = self.sys(level);
        self.set_sys(level, SysRegs { vbar: value, ..regs });
    }

    /// `isb`.
    pub fn isb(&mut self)
        ensures
            final(self)@ == old(self)@.after_isb(),
    {
        self.hazards.unsynced = false;
    }

    /// `tlbi vmalle1`.
    pub fn tlbi(&mut self)
        ensures
            final(self)@ == old(self)@.after_tlbi(),
    {
        self.hazards.tlb_stale = self.hazards.tlb_stale && self.hazards.unsynced;
        self.hazards.maintenance_pending = true;
    }

    /// `ic iallu`.
    pub fn ic_iallu(&mut self)
        ensures
            final(self)@ == old(self)@.after_ic_iallu(),
    {
        self.hazards.icache_stale = false;
        self.hazards.maintenance_pending = true;
    }

    /// `dsb nsh`.
    pub fn dsb(&mut self)
        ensures
            final(self)@ == old(self)@.after_dsb(),
    {
        self.hazards.maintenance_pending = false;
    }
}

impl Cpu {
    /// `str x<reg>, [addr]`.
    pub fn store_reg(&self, mem: &mut Memory, reg: usize, addr: u64)
        requires
            reg < 31,
            old(mem).contains(addr as int, 8),
        ensures
            final(mem).base() == old(mem).base(),
            final(mem)@ == with_word(
                old(mem)@,
                old(mem).index_of(addr as int),
                self@.x[reg as int],
            ),
    {
        mem.write_u64(addr, self.x[reg]);
    }

    /// `stp x<first>, x<second>, [addr]`.
    pub fn store_pair(&self, mem: &mut Memory, first: usize, second: usize, addr: u64)
        requires
            first < 31,
            second < 31,
            old(mem).contains(addr as int, 16),
        ensures
            final(mem).base() == old(mem).base(),
            final(mem)@ == with_word(
                with_word(old(mem)@, old(mem).index_of(addr as int), self@.x[first as int]),
                old(mem).index_of(addr as int) + 8,
                self@.x[second as int],
            ),
    {
        let _ = mem.len();
        mem.write_u64(addr, self.x[first]);
        mem.write_u64(addr + 8, self.x[second]);
    }

    /// `ldr x<reg>, [addr]`.
    pub fn load_reg(&mut self, mem: &Memory, reg: usize, addr: u64)
        requires
            reg < 31,
            mem.contains(addr as int, 8),
        ensures
            final(self)@ == old(self)@.with_reg(reg as int, mem.word(addr as int)),
    {
        self.x[reg] = mem.read_u64(addr);
    }

    /// `ldp x<first>, x<second>, [addr]`.
    pub fn load_pair(&mut self, mem: &Memory, first: usize, second: usize, addr: u64)
        requires
            first < 31,
            second < 31,
            mem.contains(addr as int, 16),
        ensures
            final(self)@ == old(self)@.with_reg(first as int, mem.word(addr as int)).with_reg(
                second as int,
                mem.word(addr + 8),
            ),
    {
        let _ = mem.len();
        self.x[first] = mem.read_u64(addr);
        self.x[second] = mem.read_u64(addr + 8);
    }
}

impl SysRegs {
    /// All registers zero.
    pub open spec fn zero() -> SysRegs {
        SysRegs { mair: 0, ttbr0: 0, tcr: 0, sctlr: 0, vbar: 0, elr: 0, spsr: 0 }
    }
}

} // verus!
