//! Bringing up a secondary core: the stack it runs on, the boot record that
//! tells it where to go, the request that powers it on, and the path that the
//! core takes once it runs.

use crate::cpu::{Cpu, CpuView, Hazards};
use crate::entry::{BootConfig, CPACR_FPEN};
use crate::exceptions::{set_exception_vector, vector_installed};
use crate::memory::{lemma_word_at_other, lemma_word_at_same, with_word, word_at, Memory};
use crate::pagetable::{enable_mmu, mmu_started};
use vstd::prelude::*;

verus! {

/// The size in bytes of one page of stack.
pub const PAGE_SIZE: usize = 4096;

/// One page of stack.
#[derive(Clone, Copy)]
pub struct StackPage([u8; 4096]);

impl View for StackPage {
    type V = Seq<u8>;

    closed spec fn view(&self) -> Seq<u8> {
        self.0@
    }
}

impl StackPage {
    /// Creates a new zero-initialised page.
    pub fn new() -> (page: StackPage)
        ensures
            page@ == Seq::new(4096, |i: int| 0u8),
    {
        let page = StackPage([0u8; 4096]);
        assert(page@ =~= Seq::new(4096, |i: int| 0u8));
        page
    }
}

/// A stack for some CPU core.
pub struct Stack<const NUM_PAGES: usize>([StackPage; NUM_PAGES]);

impl<const NUM_PAGES: usize> View for Stack<NUM_PAGES> {
    type V = Seq<u8>;

    /// The bytes of the stack, lowest address first.
    closed spec fn view(&self) -> Seq<u8> {
        Seq::new((NUM_PAGES * 4096) as nat, |i: int| self.0@[i / 4096]@[i % 4096])
    }
}

impl<const NUM_PAGES: usize> Stack<NUM_PAGES> {
    /// Creates a new zero-initialised stack.
    pub fn new() -> (stack: Self)
        ensures
            stack@ == Seq::new((NUM_PAGES * 4096) as nat, |i: int| 0u8),
    {
        let stack = Stack([StackPage::new();NUM_PAGES]);
        assert forall|i: int| 0 <= i < NUM_PAGES * 4096 implies stack@[i] == 0u8 by {
            assert(0 <= i / 4096 < NUM_PAGES);
            assert(stack.0@[i / 4096]@ == Seq::new(4096, |k: int| 0u8));
        }
        assert(stack@ =~= Seq::new((NUM_PAGES * 4096) as nat, |i: int| 0u8));
        stack
    }

    /// A copy of the bytes of the stack, lowest address first.
    pub fn to_bytes(&self) -> (bytes: Vec<u8>)
        ensures
            bytes@ == self@,
    {
        let mut bytes: Vec<u8> = Vec::new();
        let mut page: usize = 0;
        while page < NUM_PAGES
            invariant
                page <= NUM_PAGES,
                bytes@.len() == page * 4096,
                forall|i: int| 0 <= i < page * 4096 ==> bytes@[i] == self.0@[i / 4096]@[i % 4096],
            decreases NUM_PAGES - page,
        {
            let mut at: usize = 0;
            while at < 4096
                invariant
                    page < NUM_PAGES,
                    at <= 4096,
                    bytes@.len() == page * 4096 + at,
                    forall|i: int|
                        0 <= i < page * 4096 + at ==> bytes@[i] == self.0@[i / 4096]@[i % 4096],
                decreases 4096 - at,
            {
                let ghost index = page * 4096 + at;
                assert(index / 4096 == page && index % 4096 == at);
                bytes.push(self.0[page].0[at]);
                at += 1;
            }
            page += 1;
        }
        assert(bytes@ =~= self@);
        bytes
    }
}

impl<const NUM_PAGES: usize> Default for Stack<NUM_PAGES> {
    fn default() -> (stack: Self)
        ensures
            stack@ == Seq::new((NUM_PAGES * 4096) as nat, |i: int| 0u8),
    {
        Self::new()
    }
}

/// `smccc::psci::Error`, the error that the firmware's power state calls
/// return, with the variants that the crate declares: nine named ones without
/// fields and `Unknown`, which carries the status code. Nothing is claimed of
/// any function of the crate.
#[verifier::external_type_specification]
pub struct ExPsciError(smccc::psci::Error);

/// Why a core could not be started.
#[derive(Clone, Copy, Debug, PartialEq, Eq, Structural)]
pub enum StartCoreError {
    /// The power-on call is not supported.
    NotSupported,
    /// The call was given invalid parameters: no core has the given identifier.
    InvalidParameters,
    /// The call was denied.
    Denied,
    /// The core is already on.
    AlreadyOn,
    /// The core is already being turned on.
    OnPending,
    /// The firmware failed internally.
    InternalFailure,
    /// The trusted OS is not present on the target core.
    NotPresent,
    /// The core is disabled.
    Disabled,
    /// The entry point address is not valid.
    InvalidAddress,
    /// The firmware answered with a value that stands for none of these.
    Unknown(i64),
}

impl StartCoreError {
    /// The error of this library that stands for the firmware's `error`.
    pub open spec fn spec_from_psci(error: smccc::psci::Error) -> StartCoreError {
        match error {
            smccc::psci::Error::NotSupported => StartCoreError::NotSupported,
            smccc::psci::Error::InvalidParameters => StartCoreError::InvalidParameters,
            smccc::psci::Error::Denied => StartCoreError::Denied,
            smccc::psci::Error::AlreadyOn => StartCoreError::AlreadyOn,
            smccc::psci::Error::OnPending => StartCoreError::OnPending,
            smccc::psci::Error::InternalFailure => StartCoreError::InternalFailure,
            smccc::psci::Error::NotPresent => StartCoreError::NotPresent,
            smccc::psci::Error::Disabled => StartCoreError::Disabled,
            smccc::psci::Error::InvalidAddress => StartCoreError::InvalidAddress,
            smccc::psci::Error::Unknown(value) => StartCoreError::Unknown(value),
        }
    }

    /// The error of this library that stands for the firmware's `error`.
    #[verifier::when_used_as_spec(spec_from_psci)]
    pub fn from_psci(error: smccc::psci::Error) -> (converted: StartCoreError)
        ensures
            converted == StartCoreError::spec_from_psci(error),
    {
        match error {
            smccc::psci::Error::NotSupported => StartCoreError::NotSupported,
            smccc::psci::Error::InvalidParameters => StartCoreError::InvalidParameters,
            smccc::psci::Error::Denied => StartCoreError::Denied,
            smccc::psci::Error::AlreadyOn => StartCoreError::AlreadyOn,
            smccc::psci::Error::OnPending => StartCoreError::OnPending,
            smccc::psci::Error::InternalFailure => StartCoreError::InternalFailure,
            smccc::psci::Error::NotPresent => StartCoreError::NotPresent,
            smccc::psci::Error::Disabled => StartCoreError::Disabled,
            smccc::psci::Error::InvalidAddress => StartCoreError::InvalidAddress,
            smccc::psci::Error::Unknown(value) => StartCoreError::Unknown(value),
        }
    }
}

/// What the caller of `start_core` gets for what the power-on request gave.
pub open spec fn start_result(outcome: Result<(), smccc::psci::Error>) -> Result<
    (),
    StartCoreError,
> {
    match outcome {
        Ok(_) => Ok(()),
        Err(error) => Err(StartCoreError::from_psci(error)),
    }
}

/// Turns the outcome of the power-on request into the result of `start_core`:
/// success stays success, and each firmware error becomes the error of the
/// same name.
pub fn finish_start(outcome: Result<(), smccc::psci::Error>) -> (result: Result<
    (),
    StartCoreError,
>)
    ensures
        result == start_result(outcome),
{
    match outcome {
        Ok(_) => Ok(()),
        Err(error) => Err(StartCoreError::from_psci(error)),
    }
}

/// The address just above a stack of `pages` pages at `stack`, as the machine
/// computes it in 64 bits.
pub open spec fn stack_top(stack: u64, pages: usize) -> u64 {
    stack.wrapping_add((pages as u64).wrapping_mul(4096))
}

/// `bytes` with the boot record stored just below index `top`: the entry
/// point in the word next to the top, the argument in the word below it.
pub open spec fn with_boot_record(bytes: Seq<u8>, top: int, rust_entry: u64, arg: u64) -> Seq<u8> {
    with_word(with_word(bytes, top - 8, rust_entry), top - 16, arg)
}

/// The boot record that lies just below index `top`: entry point, then argument.
pub open spec fn boot_record_at(bytes: Seq<u8>, top: int) -> (u64, u64) {
    (word_at(bytes, top - 8), word_at(bytes, top - 16))
}

/// A boot record reads back as it was written.
pub proof fn lemma_boot_record_round_trip(bytes: Seq<u8>, top: int, rust_entry: u64, arg: u64)
    requires
        16 <= top <= bytes.len(),
    ensures
        boot_record_at(with_boot_record(bytes, top, rust_entry, arg), top) == (rust_entry, arg),
        with_boot_record(bytes, top, rust_entry, arg).len() == bytes.len(),
        forall|i: int|
            0 <= i < top - 16 || top <= i < bytes.len() ==> with_boot_record(
                bytes,
                top,
                rust_entry,
                arg,
            )[i] == bytes[i],
{
    let first = with_word(bytes, top - 8, rust_entry);
    lemma_word_at_same(bytes, top - 8, rust_entry);
    lemma_word_at_other(first, top - 16, arg, top - 8);
    lemma_word_at_same(first, top - 16, arg);
}

/// A core that is entered with the top of its stack in `x0` finds, in the two
/// words below it, the record that was written for a stack of `pages` pages at
/// `stack`: the argument 16 bytes below the top and the entry point above it.
pub proof fn lemma_started_core_finds_record(
    bytes: Seq<u8>,
    window_base: u64,
    stack: u64,
    pages: usize,
    rust_entry: u64,
    arg: u64,
)
    requires
        pages >= 1,
        window_base <= stack,
        stack + pages * 4096 <= window_base + bytes.len(),
        window_base + bytes.len() <= u64::MAX + 1,
    ensures
        ({
            let written = with_boot_record(
                bytes,
                stack + pages * 4096 - window_base,
                rust_entry,
                arg,
            );
            let record = stack_top(stack, pages).wrapping_sub(16) - window_base;
            &&& record == stack + pages * 4096 - 16 - window_base
            &&& word_at(written, record) == arg
            &&& word_at(written, record + 8) == rust_entry
        }),
{
    let top = stack + pages * 4096 - window_base;
    let size = pages * 4096;
    assert(16 <= size <= 0x1_0000_0000_0000_0000);
    if size < 0x1_0000_0000_0000_0000 {
        assert(size % 0x1_0000_0000_0000_0000 == size);
    } else {
        assert(size % 0x1_0000_0000_0000_0000 == 0);
    }
    lemma_boot_record_round_trip(bytes, top, rust_entry, arg);
}

/// Writes the boot record for a secondary core at the top of its stack of `N`
/// pages at `stack`, and returns the address of the top.
pub fn write_boot_record<const N: usize>(
    mem: &mut Memory,
    stack: u64,
    rust_entry: u64,
    arg: u64,
) -> (stack_end: u64)
    requires
        N >= 1,
        old(mem).contains(stack as int, N * 4096),
    ensures
        stack_end == stack_top(stack, N),
        final(mem).base() == old(mem).base(),
        final(mem)@ == with_boot_record(
            old(mem)@,
            old(mem).index_of(stack + N * 4096),
            rust_entry,
            arg,
        ),
{
    let _ = mem.len();
    let size: u64 = (N as u64) * 4096;
    // The stack grows downwards, so the record goes at its end.
    let stack_end = stack.wrapping_add(size);
    // Write the entry point to the stack, so that the landing code can jump to it.
    mem.write_u64(stack + (size - 8), rust_entry);
    mem.write_u64(stack + (size - 16), arg);
    stack_end
}

/// Whether `seen` is the memory as `start_core` hands it to the power-on
/// request: the window that `before` was, with the boot record for a stack of
/// `pages` pages at `stack` in place.
pub open spec fn holds_boot_record(
    seen: &Memory,
    before: &Memory,
    stack: u64,
    pages: usize,
    rust_entry: u64,
    arg: u64,
) -> bool {
    &&& seen.base() == before.base()
    &&& seen@ == with_boot_record(
        before@,
        before.index_of(stack + pages * 4096),
        rust_entry,
        arg,
    )
}

/// Starts the CPU core with the given MPIDR.
///
/// First writes `rust_entry` and `arg` just below the top of the core's
/// stack, a stack of `N` pages at the page-aligned address `stack`. Then, and
/// only then, asks `power_on` to start the core at `secondary_entry` with the
/// top of the stack as its parameter. `power_on` is handed the memory that
/// holds the record, the target core, the entry point address and the context
/// identifier, in that order; it has to make the stores visible to the target
/// core before it issues the request.
///
/// The record is in place whatever `power_on` answers. The result is success
/// if `power_on` answered success, and else the error that stands for its
/// answer.
pub fn start_core<
    const N: usize,
    F: FnOnce(&Memory, u64, u64, u64) -> Result<(), smccc::psci::Error>,
>(
    mem: &mut Memory,
    mpidr: u64,
    stack: u64,
    secondary_entry: u64,
    rust_entry: u64,
    arg: u64,
    power_on: F,
) -> (result: Result<(), StartCoreError>)
    requires
        N >= 1,
        stack % 4096 == 0,
        old(mem).contains(stack as int, N * 4096),
        forall|seen: &Memory|
            holds_boot_record(seen, old(mem), stack, N, rust_entry, arg) ==> #[trigger] call_requires(
                power_on,
                (seen, mpidr, secondary_entry, stack_top(stack, N)),
            ),
    ensures
        holds_boot_record(final(mem), old(mem), stack, N, rust_entry, arg),
        exists|outcome: Result<(), smccc::psci::Error>|
            call_ensures(
                power_on,
                (final(mem), mpidr, secondary_entry, stack_top(stack, N)),
                outcome,
            ) && result == #[trigger] start_result(outcome),
{
    let stack_end = write_boot_record::<N>(mem, stack, rust_entry, arg);
    let outcome = power_on(mem, mpidr, secondary_entry, stack_end);
    finish_start(outcome)
}

/// The call that a secondary core ends its start-up with: the entry point that
/// it branches to and the argument that it passes. It does not return.
#[derive(Clone, Copy, Debug, PartialEq, Eq, Structural)]
pub struct SecondaryCall {
    pub entry: u64,
    pub arg: u64,
}

/// The core at the moment a secondary core branches to its entry point: the
/// MMU is on, floating point accesses no longer trap, the stack pointer is
/// what was passed in `x0`, `x19` and `x20` hold the argument and the entry
/// point from the boot record, the vector table is installed and `x0` holds
/// the argument.
pub open spec fn secondary_prepared(pre: CpuView, config: BootConfig, arg: u64, entry: u64) -> CpuView {
    let started = mmu_started(pre, config.mmu, config.level);
    let staged = CpuView {
        cpacr: started.cpacr | CPACR_FPEN,
        x: started.x.update(30, started.cpacr | CPACR_FPEN).update(19, arg).update(20, entry),
        sp: pre.x[0],
        hazards: Hazards { unsynced: false, ..started.hazards },
        ..started
    };
    vector_installed(staged, config.vectors, config.vector_level()).with_reg(0, arg)
}

/// An assembly entry point for secondary cores.
///
/// It will enable the MMU, disable trapping of floating point instructions,
/// initialise the stack pointer to the value passed in `x0`, set the exception
/// vector and then branch to the entry point found just below the top of the
/// stack, with the word below it as a parameter.
pub fn secondary_entry(cpu: &mut Cpu, mem: &Memory, config: BootConfig) -> (call: SecondaryCall)
    requires
        mem.contains(old(cpu)@.x[0].wrapping_sub(16) as int, 16),
    ensures
        call == (SecondaryCall {
            entry: mem.word(old(cpu)@.x[0].wrapping_sub(16) + 8),
            arg: mem.word(old(cpu)@.x[0].wrapping_sub(16) as int),
        }),
        final(cpu)@ == secondary_prepared(old(cpu)@, config, call.arg, call.entry),
{
    enable_mmu(cpu, config.mmu, config.level);
    // Disable trapping floating point access in EL1.
    let cpacr = cpu.cpacr;
    cpu.set_reg(30, cpacr);
    cpu.set_reg(30, cpu.reg(30) | CPACR_FPEN);
    let cpacr = cpu.reg(30);
    cpu.msr_cpacr(cpacr);
    cpu.isb();
    // Set the stack pointer which was passed.
    cpu.sp = cpu.reg(0);
    // Load the entry point address and argument from the bottom of the stack
    // into callee-saved registers.
    cpu.load_pair(mem, 19, 20, cpu.sp.wrapping_sub(16));
    // Set the exception vector.
    set_exception_vector(cpu, config.vectors, config.vector_level());
    // Pass the argument to the entry point.
    let arg = cpu.reg(19);
    cpu.set_reg(0, arg);
    let call = SecondaryCall { entry: cpu.reg(20), arg: cpu.reg(0) };
    assert(cpu@.x =~= secondary_prepared(old(cpu)@, config, call.arg, call.entry).x);
    call
}

} // verus!
