use aarch64_rt::cpu::{Cpu, ExceptionLevel};
use aarch64_rt::entry::{
    can_boot, entry, entry_early_prepare, entry_prepare_image, header_found, reset, rust_entry,
    try_entry, zero_bss, BootConfig, BootStage, HostedCall, ImageLayout, CPACR_FPEN,
};
use aarch64_rt::header::{image_header, BootHeader};
use aarch64_rt::exceptions::VectorTables;
use aarch64_rt::memory::Memory;
use aarch64_rt::pagetable::{merge_pa_range, MmuSetup, DEFAULT_SCTLR, DEFAULT_TCR_EL1};

const BASE: u64 = 0x4000_0000;

fn vectors() -> VectorTables {
    VectorTables { el1: 0x4001_0800, el2: 0x4001_1000, el3: 0x4001_1800 }
}

fn layout() -> ImageLayout {
    ImageLayout {
        entry: BASE,
        early_prepare: BASE + 0x40,
        bin_end: BASE + 0x400,
        text_begin: BASE,
        bss_begin: BASE + 0x100,
        bss_end: BASE + 0x180,
        boot_stack_end: BASE + 0x2000,
        rela_begin: BASE + 0x200,
        rela_end: BASE + 0x200 + 48,
        rust_entry: BASE + 0x40,
    }
}

fn config(relocate: bool) -> BootConfig {
    BootConfig {
        level: Some(ExceptionLevel::El1),
        exceptions: true,
        mmu: Some(MmuSetup::with_defaults(BASE + 0x1000)),
        relocate,
        header: false,
        big_endian: false,
        vectors: vectors(),
    }
}

fn image() -> Memory {
    let mut mem = Memory::new(BASE, vec![0xffu8; 0x400]).unwrap();
    // Two records: a relative one that patches the word at offset 0x300, and
    // one of another type.
    mem.write_u64(BASE + 0x200, 0x300);
    mem.write_u64(BASE + 0x208, 1027);
    mem.write_u64(BASE + 0x210, 0x1234);
    mem.write_u64(BASE + 0x218, 0x308);
    mem.write_u64(BASE + 0x220, 1026);
    mem.write_u64(BASE + 0x228, 0x9999);
    mem
}

#[test]
fn one_page_of_ff_is_zeroed_in_full() {
    let mut mem = Memory::new(0x8000, vec![0xffu8; 4096]).unwrap();
    let cursor = zero_bss(&mut mem, 0x8000, 0x9000);
    assert_eq!(cursor, 0x9000);
    assert_eq!(mem.read_bytes(0x8000, 4096), vec![0u8; 4096]);
}

#[test]
fn empty_bss_stores_nothing() {
    let before = vec![0xffu8; 64];
    let mut mem = Memory::new(0x8000, before.clone()).unwrap();
    assert_eq!(zero_bss(&mut mem, 0x8010, 0x8010), 0x8010);
    assert_eq!(mem.read_bytes(0x8000, 64), before);
    // Nor does a region whose end lies below its start, wherever it is.
    assert_eq!(zero_bss(&mut mem, 0x8020, 0x8010), 0x8020);
    assert_eq!(zero_bss(&mut mem, 0x10_0000, 0x20), 0x10_0000);
    assert_eq!(mem.read_bytes(0x8000, 64), before);
}

#[test]
fn bss_of_any_length_is_zeroed_and_nothing_else() {
    for start in 0u64..20 {
        for len in 0u64..70 {
            let mut mem = Memory::new(0x100, vec![0xffu8; 128]).unwrap();
            let begin = 0x100 + start;
            let end = begin + len;
            assert_eq!(zero_bss(&mut mem, begin, end), end);
            let bytes = mem.read_bytes(0x100, 128);
            for (i, byte) in bytes.iter().enumerate() {
                let addr = 0x100 + i as u64;
                let expected = if begin <= addr && addr < end { 0 } else { 0xff };
                assert_eq!(*byte, expected, "start {start} len {len} index {i}");
            }
        }
    }
}

#[test]
fn bss_may_end_at_the_top_of_the_address_space() {
    let mut mem = Memory::new(u64::MAX - 31, vec![0xffu8; 32]).unwrap();
    assert_eq!(zero_bss(&mut mem, u64::MAX - 20, u64::MAX), u64::MAX);
    let bytes = mem.read_bytes(u64::MAX - 31, 32);
    assert_eq!(&bytes[..11], &[0xffu8; 11][..]);
    assert_eq!(&bytes[11..31], &[0u8; 20][..]);
    assert_eq!(bytes[31], 0xff);
}

#[test]
fn early_prepare_sets_up_the_core() {
    let mut cpu = Cpu::new(ExceptionLevel::El1, 5);
    cpu.cpacr = 0x1;
    cpu.x[0] = 0xd7b;
    let mut mem = image();
    entry_early_prepare(&mut cpu, &mut mem, layout(), config(false));
    assert_eq!(cpu.sp, BASE + 0x2000);
    assert_eq!(cpu.cpacr, 0x30_0001);
    assert_eq!(CPACR_FPEN, 0x30_0000);
    assert_eq!(cpu.el1.sctlr, DEFAULT_SCTLR);
    assert_eq!(cpu.el1.tcr, merge_pa_range(DEFAULT_TCR_EL1, 5));
    assert_eq!(cpu.el1.ttbr0, BASE + 0x1000);
    assert!(!cpu.hazards.unsynced && !cpu.hazards.stale_window && !cpu.hazards.tlb_stale);
    assert_eq!(cpu.x[29], BASE + 0x180);
    assert_eq!(cpu.x[30], BASE + 0x2000);
    assert_eq!(cpu.x[0], 0xd7b);
    assert_eq!(mem.read_bytes(BASE + 0x100, 0x80), vec![0u8; 0x80]);
    assert_eq!(mem.read_bytes(BASE, 0x100), vec![0xffu8; 0x100]);
    assert_eq!(mem.read_bytes(BASE + 0x180, 0x80), vec![0xffu8; 0x80]);
    // The vector table is not installed yet.
    assert_eq!(cpu.el1.vbar, 0);
}

#[test]
fn prepare_image_relocates_and_keeps_the_first_argument() {
    let mut cpu = Cpu::new(ExceptionLevel::El1, 5);
    cpu.x[0] = 0xaaaa;
    cpu.x[1] = 0xbbbb;
    cpu.x[24] = 0x77;
    let mut mem = image();
    entry_prepare_image(&mut cpu, &mut mem, layout(), config(true));
    assert_eq!(cpu.x[0], 0xaaaa);
    assert_eq!(cpu.x[1], 0xbbbb);
    assert_eq!(cpu.x[24], 0xaaaa);
    assert_eq!(cpu.x[7], BASE + 0x40);
    assert_eq!(mem.read_u64(BASE + 0x300), BASE + 0x1234);
    // The record of another type was passed over.
    assert_eq!(mem.read_u64(BASE + 0x308), u64::MAX);
}

#[test]
fn prepare_image_without_relocation_changes_nothing() {
    let mut cpu = Cpu::new(ExceptionLevel::El1, 5);
    cpu.x[0] = 0xaaaa;
    cpu.x[24] = 0x77;
    let mut mem = image();
    let before = mem.read_bytes(BASE, 0x400);
    entry_prepare_image(&mut cpu, &mut mem, layout(), config(false));
    assert_eq!(cpu.x[0], 0xaaaa);
    assert_eq!(cpu.x[24], 0x77);
    assert_eq!(cpu.x[7], 0);
    assert_eq!(mem.read_bytes(BASE, 0x400), before);
}

#[test]
fn rust_entry_installs_the_vector_and_passes_the_arguments() {
    let mut cpu = Cpu::new(ExceptionLevel::El1, 5);
    cpu.x[0] = 1;
    cpu.x[1] = 2;
    cpu.x[2] = 3;
    cpu.x[3] = 4;
    let call = rust_entry(&mut cpu, config(false));
    assert_eq!(call, HostedCall { arg0: 1, arg1: 2, arg2: 3, arg3: 4 });
    assert_eq!(cpu.el1.vbar, 0x4001_0800);
    assert_eq!(cpu.x[9], 0x4001_0800);
}

#[test]
fn boot_arguments_reach_the_hosted_entry_point() {
    let samples = [
        [0u64, 0, 0, 0],
        [u64::MAX, u64::MAX, u64::MAX, u64::MAX],
        [0x4400_0000, 0, 0xdead_beef, 0x8000_0000_0000_0001],
        [1, 2, 3, 4],
    ];
    for args in samples {
        for relocate in [false, true] {
            for mmu in [false, true] {
                let mut cpu = Cpu::new(ExceptionLevel::El1, 5);
                cpu.x[0] = args[0];
                cpu.x[1] = args[1];
                cpu.x[2] = args[2];
                cpu.x[3] = args[3];
                let mut mem = image();
                let mut config = config(relocate);
                if !mmu {
                    config.mmu = None;
                }
                let call = entry(&mut cpu, &mut mem, layout(), config);
                assert_eq!(
                    call,
                    HostedCall { arg0: args[0], arg1: args[1], arg2: args[2], arg3: args[3] }
                );
                assert_eq!(&cpu.x[..4], &args[..]);
            }
        }
    }
}

#[test]
fn boot_runs_every_stage() {
    let mut cpu = Cpu::new(ExceptionLevel::El1, 2);
    let mut mem = image();
    entry(&mut cpu, &mut mem, layout(), config(true));
    // MMU on, floating point untrapped, stack in place.
    assert_eq!(cpu.el1.sctlr, DEFAULT_SCTLR);
    assert_eq!(cpu.el1.tcr, merge_pa_range(DEFAULT_TCR_EL1, 2));
    assert_eq!(cpu.cpacr & CPACR_FPEN, CPACR_FPEN);
    assert_eq!(cpu.sp, BASE + 0x2000);
    // bss zero, image relocated, vector installed.
    assert_eq!(mem.read_bytes(BASE + 0x100, 0x80), vec![0u8; 0x80]);
    assert_eq!(mem.read_u64(BASE + 0x300), BASE + 0x1234);
    assert_eq!(cpu.el1.vbar, 0x4001_0800);
    assert!(!cpu.hazards.stale_window);
}

#[test]
fn boot_installs_no_vector_without_exception_handling() {
    let mut cpu = Cpu::new(ExceptionLevel::El1, 2);
    let mut mem = image();
    let mut config = config(false);
    config.exceptions = false;
    entry(&mut cpu, &mut mem, layout(), config);
    assert_eq!(cpu.el1.vbar, 0);

    // Nor for an image that was built for no level in particular.
    let mut cpu = Cpu::new(ExceptionLevel::El2, 2);
    let mut mem = image();
    let mut config = self::config(false);
    config.level = None;
    entry(&mut cpu, &mut mem, layout(), config);
    assert_eq!(cpu.el2.vbar, 0);
    assert_eq!(cpu.el2.sctlr, DEFAULT_SCTLR);
    assert_eq!(config.vector_level(), None);
}

#[test]
fn stages_follow_one_another() {
    for header in [false, true] {
        assert_eq!(BootStage::EarlyPrepare.next(header, false), Some(BootStage::HostedEntry));
        assert_eq!(BootStage::EarlyPrepare.next(header, true), Some(BootStage::SelfRelocate));
        assert_eq!(BootStage::SelfRelocate.next(header, true), Some(BootStage::HostedEntry));
        assert_eq!(BootStage::SelfRelocate.next(header, false), Some(BootStage::HostedEntry));
        assert_eq!(BootStage::HostedEntry.next(header, true), None);
        assert_eq!(BootStage::HostedEntry.next(header, false), None);
        assert_eq!(BootStage::HeaderSkipped.next(header, true), Some(BootStage::EarlyPrepare));
    }
    for relocate in [false, true] {
        assert_eq!(BootStage::Reset.next(false, relocate), Some(BootStage::EarlyPrepare));
        assert_eq!(BootStage::Reset.next(true, relocate), Some(BootStage::HeaderSkipped));
    }
}

#[test]
fn an_image_whose_bss_is_outside_memory_cannot_boot() {
    let mut bad = layout();
    bad.bss_end = BASE + 0x401;
    let mut cpu = Cpu::new(ExceptionLevel::El1, 2);
    cpu.x[0] = 9;
    let mut mem = image();
    let before = mem.read_bytes(BASE, 0x400);
    assert!(!can_boot(&mem, bad, config(false)));
    assert_eq!(try_entry(&mut cpu, &mut mem, bad, config(false)), None);
    assert_eq!(mem.read_bytes(BASE, 0x400), before);
    assert_eq!(cpu.sp, 0);
    assert_eq!(cpu.el1.sctlr, 0);
    assert_eq!(cpu.x[0], 9);
    // An empty bss may lie anywhere.
    bad.bss_begin = bad.bss_end;
    assert!(can_boot(&mem, bad, config(false)));
}

#[test]
fn an_image_whose_relocations_leave_memory_cannot_boot() {
    let mut mem = image();
    mem.write_u64(BASE + 0x200, 0x3f9);
    let before = mem.read_bytes(BASE, 0x400);
    let mut cpu = Cpu::new(ExceptionLevel::El1, 2);
    assert!(!can_boot(&mem, layout(), config(true)));
    assert_eq!(try_entry(&mut cpu, &mut mem, layout(), config(true)), None);
    assert_eq!(mem.read_bytes(BASE, 0x400), before);
    // It can if it does not relocate.
    assert!(can_boot(&mem, layout(), config(false)));
}

#[test]
fn relocation_is_judged_on_the_zeroed_image() {
    // A table that lies in the bss reads as zero once the bss is cleared: its
    // records are then of no type that is applied.
    let mut overlapping = layout();
    overlapping.bss_begin = BASE + 0x200;
    overlapping.bss_end = BASE + 0x230;
    let mut mem = image();
    mem.write_u64(BASE + 0x200, 0x10_0000);
    assert!(can_boot(&mem, overlapping, config(true)));
    let mut cpu = Cpu::new(ExceptionLevel::El1, 2);
    assert!(try_entry(&mut cpu, &mut mem, overlapping, config(true)).is_some());
    assert_eq!(mem.read_bytes(BASE + 0x200, 0x30), vec![0u8; 0x30]);
    assert_eq!(mem.read_u64(BASE + 0x300), u64::MAX);
}

#[test]
fn try_entry_boots_what_can_boot() {
    let mut cpu = Cpu::new(ExceptionLevel::El1, 2);
    cpu.x[0] = 0x4400_0000;
    cpu.x[3] = 3;
    let mut mem = image();
    assert!(can_boot(&mem, layout(), config(true)));
    let call = try_entry(&mut cpu, &mut mem, layout(), config(true));
    assert_eq!(call, Some(HostedCall { arg0: 0x4400_0000, arg1: 0, arg2: 0, arg3: 3 }));
    assert_eq!(mem.read_u64(BASE + 0x300), BASE + 0x1234);
    assert_eq!(cpu.el1.vbar, 0x4001_0800);
}

/// The image of `image()` with its header at the front, and the configuration
/// of an image that carries one.
fn image_with_header(big_endian: bool) -> (Memory, BootConfig) {
    let mut mem = image();
    let header = image_header(BASE, BASE + 0x40, BASE + 0x400, big_endian).unwrap();
    for (i, byte) in header.to_bytes().iter().enumerate() {
        mem.write_u8(BASE + i as u64, *byte);
    }
    let mut config = config(true);
    config.header = true;
    config.big_endian = big_endian;
    (mem, config)
}

#[test]
fn an_image_with_a_header_begins_with_its_64_bytes() {
    let (mut mem, config) = image_with_header(false);
    assert!(header_found(&mem, layout(), false));
    assert!(can_boot(&mem, layout(), config));
    let mut cpu = Cpu::new(ExceptionLevel::El1, 2);
    cpu.x[0] = 0x4400_0000;
    let call = entry(&mut cpu, &mut mem, layout(), config);
    assert_eq!(call.arg0, 0x4400_0000);
    // The header is still there after the boot, field for field.
    let front = mem.read_bytes(BASE, 64);
    // A branch over the header to the early preparations, and a no-op.
    assert_eq!(&front[0..4], &[0x10, 0x00, 0x00, 0x14]);
    assert_eq!(&front[4..8], &[0x1f, 0x20, 0x03, 0xd5]);
    assert_eq!(mem.read_u64(BASE + 8), 0);
    assert_eq!(mem.read_u64(BASE + 16), 0x400);
    assert_eq!(mem.read_u64(BASE + 24), 0xa);
    assert_eq!(mem.read_u64(BASE + 32), 0);
    assert_eq!(mem.read_u64(BASE + 40), 0);
    assert_eq!(mem.read_u64(BASE + 48), 0);
    assert_eq!(&front[56..60], &[0x41, 0x52, 0x4d, 0x64]);
    assert_eq!(&front[60..64], &[0, 0, 0, 0]);
    assert_eq!(
        BootHeader::parse(&front),
        image_header(BASE, BASE + 0x40, BASE + 0x400, false)
    );
    // The rest of the boot ran as without a header.
    assert_eq!(mem.read_u64(BASE + 0x300), BASE + 0x1234);
    assert_eq!(mem.read_bytes(BASE + 0x100, 0x80), vec![0u8; 0x80]);
}

#[test]
fn header_flags_follow_the_target() {
    let (mem, _) = image_with_header(false);
    assert_eq!(mem.read_u64(BASE + 24) & 1, 0);
    assert_eq!((mem.read_u64(BASE + 24) >> 1) & 3, 1);
    assert_eq!((mem.read_u64(BASE + 24) >> 3) & 1, 1);
    let (mem, config) = image_with_header(true);
    assert_eq!(mem.read_u64(BASE + 24), 0xb);
    assert!(can_boot(&mem, layout(), config));
    // The header of the other target is not this image's header.
    assert!(!header_found(&mem, layout(), false));
    let mut little = config;
    little.big_endian = false;
    assert!(!can_boot(&mem, layout(), little));
}

#[test]
fn reset_branches_to_the_early_preparations() {
    let (mem, config) = image_with_header(false);
    assert_eq!(reset(&mem, layout(), config), BASE + 0x40);
    assert_eq!(reset(&image(), layout(), self::config(false)), BASE + 0x40);
    let mut far = layout();
    far.early_prepare = BASE + 0x100;
    let mut mem = image();
    let header = image_header(BASE, BASE + 0x100, BASE + 0x400, false).unwrap();
    for (i, byte) in header.to_bytes().iter().enumerate() {
        mem.write_u8(BASE + i as u64, *byte);
    }
    assert_eq!(reset(&mem, far, config), BASE + 0x100);
}

#[test]
fn an_image_without_its_header_cannot_boot() {
    let (_, config) = image_with_header(false);
    let mut mem = image();
    let before = mem.read_bytes(BASE, 0x400);
    assert!(!header_found(&mem, layout(), false));
    assert!(!can_boot(&mem, layout(), config));
    let mut cpu = Cpu::new(ExceptionLevel::El1, 2);
    assert_eq!(try_entry(&mut cpu, &mut mem, layout(), config), None);
    assert_eq!(mem.read_bytes(BASE, 0x400), before);
    // One wrong byte anywhere in the 64 is enough.
    for at in [0u64, 7, 16, 24, 40, 56, 63] {
        let (mut mem, config) = image_with_header(false);
        let byte = mem.read_u8(BASE + at);
        mem.write_u8(BASE + at, byte ^ 0x80);
        assert!(!can_boot(&mem, layout(), config), "byte {at}");
    }
    // So is a header that does not lie in memory, or a branch that cannot be made.
    let (mem, config) = image_with_header(false);
    let mut outside = layout();
    outside.entry = BASE + 0x3c4;
    outside.early_prepare = BASE + 0x404;
    assert!(!can_boot(&mem, outside, config));
    let mut odd = layout();
    odd.early_prepare = BASE + 0x42;
    assert!(!can_boot(&mem, odd, config));
    let mut backwards = layout();
    backwards.entry = BASE + 0x40;
    backwards.early_prepare = BASE;
    assert!(!can_boot(&mem, backwards, config));
}

#[test]
fn a_header_that_the_boot_would_overwrite_cannot_boot() {
    // A bss that runs into the header.
    let (mem, config) = image_with_header(false);
    let mut overlapping = layout();
    overlapping.bss_begin = BASE + 0x3f;
    assert!(!can_boot(&mem, overlapping, config));
    overlapping.bss_begin = BASE + 0x40;
    assert!(can_boot(&mem, overlapping, config));
    // A relocation that patches a word of the header.
    for offset in [0u64, 0x20, 0x39, 0x3f] {
        let (mut mem, config) = image_with_header(false);
        mem.write_u64(BASE + 0x200, offset);
        assert!(!can_boot(&mem, layout(), config), "offset {offset:#x}");
        let mut plain = config;
        plain.header = false;
        assert!(can_boot(&mem, layout(), plain));
    }
    let (mut mem, config) = image_with_header(false);
    mem.write_u64(BASE + 0x200, 0x40);
    assert!(can_boot(&mem, layout(), config));
}
