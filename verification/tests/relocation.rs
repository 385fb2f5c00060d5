use aarch64_rt::memory::Memory;
use aarch64_rt::relocate::{
    can_relocate, count_entries, read_entry, relocate_image, relocation_spares,
    try_relocate_image, Rela, RELA_ENTRY_BYTES, R_AARCH64_RELATIVE,
};

const WINDOW: u64 = 0x8_0000;
const TABLE: u64 = WINDOW + 0x100;

fn image(records: &[(u64, u64, u64)]) -> Memory {
    let mut mem = Memory::new(WINDOW, vec![0xeeu8; 0x200]).unwrap();
    for (i, (offset, info, addend)) in records.iter().enumerate() {
        let at = TABLE + 24 * i as u64;
        mem.write_u64(at, *offset);
        mem.write_u64(at + 8, *info);
        mem.write_u64(at + 16, *addend);
    }
    mem
}

#[test]
fn constants_are_the_architected_ones() {
    assert_eq!(R_AARCH64_RELATIVE, 1027);
    assert_eq!(RELA_ENTRY_BYTES, 24);
}

#[test]
fn only_the_low_half_of_info_is_the_type() {
    assert!(Rela { offset: 0, info: 1027, addend: 0 }.is_relative());
    assert!(Rela { offset: 0, info: 0x0000_0007_0000_0403, addend: 0 }.is_relative());
    assert!(!Rela { offset: 0, info: 1026, addend: 0 }.is_relative());
    assert!(!Rela { offset: 0, info: 0x403_0000_0000, addend: 0 }.is_relative());
    assert!(!Rela { offset: 0, info: 0, addend: 0 }.is_relative());
}

#[test]
fn whole_records_are_counted() {
    assert_eq!(count_entries(100, 100), 0);
    assert_eq!(count_entries(100, 123), 0);
    assert_eq!(count_entries(100, 124), 1);
    assert_eq!(count_entries(100, 147), 1);
    assert_eq!(count_entries(100, 148), 2);
    assert_eq!(count_entries(148, 100), 0);
    assert_eq!(count_entries(0, u64::MAX), u64::MAX / 24);
}

#[test]
fn records_are_read_field_by_field() {
    let mem = image(&[(1, 2, 3), (0x10, 1027, 0x30)]);
    assert_eq!(read_entry(&mem, TABLE), Rela { offset: 1, info: 2, addend: 3 });
    assert_eq!(read_entry(&mem, TABLE + 24), Rela { offset: 0x10, info: 1027, addend: 0x30 });
}

#[test]
fn relative_records_store_addend_plus_base() {
    let records = [(0x10u64, 1027u64, 0x1000u64), (0x20, 1027, 0), (0x48, 1027, 0xffff)];
    let mut mem = image(&records);
    assert!(can_relocate(&mem, WINDOW, TABLE, TABLE + 72));
    relocate_image(&mut mem, WINDOW, TABLE, TABLE + 72);
    for (offset, _, addend) in records {
        assert_eq!(mem.read_u64(WINDOW + offset), addend + WINDOW);
    }
    // Nothing else changed.
    assert_eq!(mem.read_bytes(WINDOW, 0x10), vec![0xeeu8; 0x10]);
    assert_eq!(mem.read_bytes(WINDOW + 0x18, 8), vec![0xeeu8; 8]);
    assert_eq!(mem.read_bytes(WINDOW + 0x28, 0x20), vec![0xeeu8; 0x20]);
    assert_eq!(mem.read_bytes(WINDOW + 0x50, 0xb0), vec![0xeeu8; 0xb0]);
    assert_eq!(read_entry(&mem, TABLE), Rela { offset: 0x10, info: 1027, addend: 0x1000 });
}

#[test]
fn relocating_twice_changes_nothing_more() {
    let records = [(0x10u64, 1027u64, 0x1000u64), (0x20, 1027, 0x2000), (0x30, 7, 0x3000)];
    let mut mem = image(&records);
    relocate_image(&mut mem, WINDOW, TABLE, TABLE + 72);
    let once = mem.read_bytes(WINDOW, 0x200);
    assert!(can_relocate(&mem, WINDOW, TABLE, TABLE + 72));
    relocate_image(&mut mem, WINDOW, TABLE, TABLE + 72);
    assert_eq!(mem.read_bytes(WINDOW, 0x200), once);
}

#[test]
fn other_types_are_passed_over() {
    let records = [(0x10u64, 1026u64, 0x1000u64), (0x20, 0, 5), (0x30, 0x403_0000_0000, 6)];
    let mut mem = image(&records);
    let before = mem.read_bytes(WINDOW, 0x200);
    assert!(can_relocate(&mem, WINDOW, TABLE, TABLE + 72));
    relocate_image(&mut mem, WINDOW, TABLE, TABLE + 72);
    assert_eq!(mem.read_bytes(WINDOW, 0x200), before);
}

#[test]
fn targets_of_other_types_are_not_looked_at() {
    // A record of another type may name any offset at all.
    let mut mem = image(&[(u64::MAX, 1026, 0), (0x104, 3, 0)]);
    let before = mem.read_bytes(WINDOW, 0x200);
    assert!(try_relocate_image(&mut mem, WINDOW, TABLE, TABLE + 48));
    assert_eq!(mem.read_bytes(WINDOW, 0x200), before);
}

#[test]
fn the_sum_wraps_like_the_machine() {
    // An addend that is negative as a signed number.
    let mut mem = image(&[(0x10, 1027, (-0x20i64) as u64)]);
    relocate_image(&mut mem, WINDOW, TABLE, TABLE + 24);
    assert_eq!(mem.read_u64(WINDOW + 0x10), WINDOW - 0x20);
}

#[test]
fn an_empty_table_changes_nothing() {
    let mut mem = image(&[(0x10, 1027, 1)]);
    let before = mem.read_bytes(WINDOW, 0x200);
    assert!(can_relocate(&mem, WINDOW, TABLE, TABLE));
    relocate_image(&mut mem, WINDOW, TABLE, TABLE);
    relocate_image(&mut mem, WINDOW, TABLE + 24, TABLE);
    // Less than one whole record.
    relocate_image(&mut mem, WINDOW, TABLE, TABLE + 23);
    // An empty table may lie anywhere.
    assert!(can_relocate(&mem, WINDOW, 5, 5));
    relocate_image(&mut mem, WINDOW, 5, 5);
    assert_eq!(mem.read_bytes(WINDOW, 0x200), before);
}

#[test]
fn a_partial_last_record_is_left_out() {
    let mut mem = image(&[(0x10, 1027, 1), (0x20, 1027, 2)]);
    relocate_image(&mut mem, WINDOW, TABLE, TABLE + 47);
    assert_eq!(mem.read_u64(WINDOW + 0x10), WINDOW + 1);
    assert_eq!(mem.read_bytes(WINDOW + 0x20, 8), vec![0xeeu8; 8]);
}

#[test]
fn the_load_base_need_not_be_the_window_base() {
    let mut mem = image(&[(0x10, 1027, 0x55)]);
    let load_base = WINDOW + 0x40;
    assert!(can_relocate(&mem, load_base, TABLE, TABLE + 24));
    relocate_image(&mut mem, load_base, TABLE, TABLE + 24);
    assert_eq!(mem.read_u64(load_base + 0x10), load_base + 0x55);
    assert_eq!(mem.read_bytes(WINDOW + 0x10, 8), vec![0xeeu8; 8]);
}

#[test]
fn a_table_outside_the_window_cannot_be_applied() {
    let mem = image(&[(0x10, 1027, 1)]);
    assert!(!can_relocate(&mem, WINDOW, WINDOW + 0x1f0, WINDOW + 0x210));
    assert!(!can_relocate(&mem, WINDOW, WINDOW - 24, WINDOW));
    assert!(!can_relocate(&mem, WINDOW, 0, 24));
}

#[test]
fn a_target_outside_the_window_cannot_be_applied() {
    for offset in [0x1f9u64, 0x200, 0x1000, u64::MAX, u64::MAX - WINDOW + 1] {
        let mut mem = image(&[(0x10, 1027, 1), (offset, 1027, 2)]);
        let before = mem.read_bytes(WINDOW, 0x200);
        assert!(!can_relocate(&mem, WINDOW, TABLE, TABLE + 48), "offset {offset:#x}");
        assert!(!try_relocate_image(&mut mem, WINDOW, TABLE, TABLE + 48));
        assert_eq!(mem.read_bytes(WINDOW, 0x200), before);
    }
    // The last word of the window is a fine target.
    let mut mem = image(&[(0x1f8, 1027, 2)]);
    assert!(try_relocate_image(&mut mem, WINDOW, TABLE, TABLE + 24));
    assert_eq!(mem.read_u64(WINDOW + 0x1f8), WINDOW + 2);
    // A target below the window is not.
    let mem = image(&[(0x10, 1027, 2)]);
    assert!(!can_relocate(&mem, WINDOW - 0x20, TABLE, TABLE + 24));
}

#[test]
fn a_target_inside_the_table_cannot_be_applied() {
    for offset in [0x100u64, 0xf9, 0x110, 0x117, 0x12f] {
        let mem = image(&[(0x10, 1027, 1), (offset, 1027, 2)]);
        assert!(!can_relocate(&mem, WINDOW, TABLE, TABLE + 48), "offset {offset:#x}");
    }
    // Right below and right above the table are fine.
    let mut mem = image(&[(0xf8, 1027, 1), (0x130, 1027, 2)]);
    assert!(try_relocate_image(&mut mem, WINDOW, TABLE, TABLE + 48));
    assert_eq!(mem.read_u64(WINDOW + 0xf8), WINDOW + 1);
    assert_eq!(mem.read_u64(WINDOW + 0x130), WINDOW + 2);
}

#[test]
fn a_later_record_wins_where_two_overlap() {
    let mut mem = image(&[(0x10, 1027, 0x1111), (0x10, 1027, 0x2222)]);
    relocate_image(&mut mem, WINDOW, TABLE, TABLE + 48);
    assert_eq!(mem.read_u64(WINDOW + 0x10), WINDOW + 0x2222);
}

#[test]
fn a_second_pass_changes_nothing_even_where_records_overlap() {
    let tables: [&[(u64, u64, u64)]; 3] = [
        &[(0x10, 1027, 0x1111), (0x10, 1027, 0x2222)],
        &[(0x10, 1027, 0x1111), (0x14, 1027, 0x2222), (0x12, 1027, 0x3333)],
        &[(0x20, 1027, 1), (0x30, 5, 2), (0x24, 1027, u64::MAX), (0x20, 1027, 7)],
    ];
    for records in tables {
        let mut mem = image(records);
        let end = TABLE + 24 * records.len() as u64;
        assert!(try_relocate_image(&mut mem, WINDOW, TABLE, end));
        let once = mem.read_bytes(WINDOW, 0x200);
        assert!(try_relocate_image(&mut mem, WINDOW, TABLE, end));
        assert_eq!(mem.read_bytes(WINDOW, 0x200), once);
    }
}

#[test]
fn spared_bytes_are_told_from_patched_ones() {
    let mem = image(&[(0x10, 1027, 1), (0x48, 1027, 2), (0x80, 3, 3)]);
    let end = TABLE + 72;
    assert!(relocation_spares(&mem, WINDOW, TABLE, end, WINDOW + 0x18, 0x30));
    assert!(relocation_spares(&mem, WINDOW, TABLE, end, WINDOW + 0x50, 0x40));
    assert!(relocation_spares(&mem, WINDOW, TABLE, end, WINDOW + 0x80, 8));
    assert!(!relocation_spares(&mem, WINDOW, TABLE, end, WINDOW + 0x17, 1));
    assert!(!relocation_spares(&mem, WINDOW, TABLE, end, WINDOW + 0x18, 0x31));
    assert!(!relocation_spares(&mem, WINDOW, TABLE, end, WINDOW, 0x200));
    // A range of no bytes is spared wherever it lies between the words.
    assert!(relocation_spares(&mem, WINDOW, TABLE, end, WINDOW + 0x18, 0));
    assert!(relocation_spares(&mem, WINDOW, TABLE, TABLE, WINDOW, 0x200));
}
