//! Startup runtime for AArch64 Cortex-A cores, written against an abstract
//! machine: a core's register file and system registers ([`cpu::Cpu`]) and a
//! byte-addressed window of RAM ([`memory::Memory`]).
//!
//! The boot path, MMU bring-up, exception entry and secondary-core start-up are
//! ordinary functions over that machine, each with a contract that says what it
//! leaves in registers and memory.
pub mod cpu;
pub mod entry;
pub mod exceptions;
pub mod header;
pub mod memory;
pub mod pagetable;
pub mod relocate;
pub mod secondary;

pub use entry::{entry, BootConfig, BootStage, HostedCall, ImageLayout};
pub use exceptions::{
    set_exception_vector, DefaultHandlers, ExceptionClass, ExceptionHandlers, RegisterState,
    RegisterStateRef, UnexpectedException,
};
pub use pagetable::{
    InitialPagetable, MmuSetup, DEFAULT_MAIR, DEFAULT_SCTLR, DEFAULT_TCR_EL1, DEFAULT_TCR_EL2,
    DEFAULT_TCR_EL3,
};
pub use secondary::{secondary_entry, start_core, Stack, StackPage, StartCoreError};
