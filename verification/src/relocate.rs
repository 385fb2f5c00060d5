//! Self-relocation: patching the words of the image that hold addresses once
//! the address at which the image was loaded is known.

use crate::memory::{lemma_word_at_other, lemma_word_at_same, with_word, word_at, Memory};
use vstd::bytes::spec_u64_to_le_bytes;
use vstd::prelude::*;

verus! {

/// The relocation type whose addend is relative to the load base.
pub const R_AARCH64_RELATIVE: u64 = 1027;

/// The size in bytes of one relocation record.
pub const RELA_ENTRY_BYTES: u64 = 24;

/// One record of the relocation table.
#[derive(Clone, Copy, Debug, PartialEq, Eq, Structural)]
pub struct Rela {
    /// Where to store, as an offset from the load base.
    pub offset: u64,
    /// The relocation type in the low 32 bits, a symbol index above it.
    pub info: u64,
    /// The value to relocate.
    pub addend: u64,
}

impl Rela {
    /// Whether the record asks for `addend + load base` to be stored.
    pub open spec fn spec_is_relative(self) -> bool {
        self.info & 0xffff_ffff == 1027
    }

    /// Whether the record asks for `addend + load base` to be stored. Records
    /// of any other type are passed over.
    #[verifier::when_used_as_spec(spec_is_relative)]
    pub fn is_relative(self) -> (relative: bool)
        ensures
            relative == self.spec_is_relative(),
    {
        self.info & 0xffff_ffff == R_AARCH64_RELATIVE
    }

    /// The word that a relative record stores for an image loaded at
    /// `load_base`: the sum, as the machine computes it in 64 bits.
    pub open spec fn value(self, load_base: u64) -> u64 {
        self.addend.wrapping_add(load_base)
    }

    /// The index in a window that starts at `window_base` of the word that the
    /// record patches.
    pub open spec fn target(self, window_base: int, load_base: u64) -> int {
        load_base + self.offset - window_base
    }
}

/// The record stored in `bytes` from index `at`.
pub open spec fn entry_at(bytes: Seq<u8>, at: int) -> Rela {
    Rela { offset: word_at(bytes, at), info: word_at(bytes, at + 8), addend: word_at(bytes, at + 16) }
}

/// The number of whole records between the two ends of a table.
pub open spec fn entry_count(rela_begin: u64, rela_end: u64) -> nat {
    if rela_begin <= rela_end {
        ((rela_end - rela_begin) / 24) as nat
    } else {
        0
    }
}

/// `bytes` after the record `entry` was applied.
pub open spec fn apply_entry(bytes: Seq<u8>, window_base: int, load_base: u64, entry: Rela) -> Seq<
    u8,
> {
    if entry.is_relative() {
        with_word(bytes, entry.target(window_base, load_base), entry.value(load_base))
    } else {
        bytes
    }
}

/// `bytes` after the first `count` records of the table at index `table` were
/// applied in order.
pub open spec fn relocated(
    bytes: Seq<u8>,
    window_base: int,
    load_base: u64,
    table: int,
    count: nat,
) -> Seq<u8>
    decreases count,
{
    if count == 0 {
        bytes
    } else {
        apply_entry(
            relocated(bytes, window_base, load_base, table, (count - 1) as nat),
            window_base,
            load_base,
            entry_at(bytes, table + 24 * (count - 1)),
        )
    }
}

/// The table of `count` records at index `table` can be applied: it lies in
/// `bytes`, and every relative record patches a word that lies in `bytes` and
/// outside the table.
pub open spec fn relocatable(
    bytes: Seq<u8>,
    window_base: int,
    load_base: u64,
    table: int,
    count: nat,
) -> bool {
    count == 0 || {
        &&& 0 <= table
        &&& table + 24 * count <= bytes.len()
        &&& forall|i: int|
            0 <= i < count && (#[trigger] entry_at(bytes, table + 24 * i)).is_relative() ==> {
                let target = entry_at(bytes, table + 24 * i).target(window_base, load_base);
                &&& 0 <= target
                &&& target + 8 <= bytes.len()
                &&& (target + 8 <= table || table + 24 * count <= target)
            }
    }
}

/// No record undoes an earlier one: two relative records patch words that do
/// not overlap, or they are the same record twice.
pub open spec fn consistent(
    bytes: Seq<u8>,
    window_base: int,
    load_base: u64,
    table: int,
    count: nat,
) -> bool {
    forall|i: int, j: int|
        0 <= i < j < count && (#[trigger] entry_at(bytes, table + 24 * i)).is_relative() && (
        #[trigger] entry_at(bytes, table + 24 * j)).is_relative() ==> {
            let a = entry_at(bytes, table + 24 * i);
            let b = entry_at(bytes, table + 24 * j);
            ||| a.target(window_base, load_base) + 8 <= b.target(window_base, load_base)
            ||| b.target(window_base, load_base) + 8 <= a.target(window_base, load_base)
            ||| a.offset == b.offset && a.addend == b.addend
        }
}

/// Applying records leaves the length and the table itself as they were.
pub proof fn lemma_relocated_keeps_table(
    bytes: Seq<u8>,
    window_base: int,
    load_base: u64,
    table: int,
    count: nat,
    done: nat,
)
    requires
        relocatable(bytes, window_base, load_base, table, count),
        done <= count,
    ensures
        relocated(bytes, window_base, load_base, table, done).len() == bytes.len(),
        forall|i: int|
            table <= i < table + 24 * count ==> relocated(
                bytes,
                window_base,
                load_base,
                table,
                done,
            )[i] == bytes[i],
        forall|i: int|
            0 <= i < count ==> entry_at(
                relocated(bytes, window_base, load_base, table, done),
                table + 24 * i,
            ) == #[trigger] entry_at(bytes, table + 24 * i),
    decreases done,
{
    let after = relocated(bytes, window_base, load_base, table, done);
    if done > 0 {
        lemma_relocated_keeps_table(
            bytes,
            window_base,
            load_base,
            table,
            count,
            (done - 1) as nat,
        );
        let entry = entry_at(bytes, table + 24 * (done - 1));
        assert(entry.is_relative() ==> {
            let target = entry.target(window_base, load_base);
            target + 8 <= table || table + 24 * count <= target
        });
    }
    assert forall|i: int| 0 <= i < count implies entry_at(after, table + 24 * i)
        == #[trigger] entry_at(bytes, table + 24 * i) by {
        let at = table + 24 * i;
        assert(after.subrange(at, at + 8) =~= bytes.subrange(at, at + 8));
        assert(after.subrange(at + 8, at + 16) =~= bytes.subrange(at + 8, at + 16));
        assert(after.subrange(at + 16, at + 24) =~= bytes.subrange(at + 16, at + 24));
    }
}

/// After relocation every relative record's target holds its addend plus the
/// load base, provided that no record undoes an earlier one.
pub proof fn lemma_relocated_values(
    bytes: Seq<u8>,
    window_base: int,
    load_base: u64,
    table: int,
    count: nat,
)
    requires
        relocatable(bytes, window_base, load_base, table, count),
        consistent(bytes, window_base, load_base, table, count),
    ensures
        forall|i: int|
            0 <= i < count && (#[trigger] entry_at(bytes, table + 24 * i)).is_relative()
                ==> word_at(
                relocated(bytes, window_base, load_base, table, count),
                entry_at(bytes, table + 24 * i).target(window_base, load_base),
            ) == entry_at(bytes, table + 24 * i).value(load_base),
        forall|i: int|
            0 <= i < count && (#[trigger] entry_at(bytes, table + 24 * i)).is_relative()
                && entry_at(bytes, table + 24 * i).addend + load_base <= u64::MAX ==> word_at(
                relocated(bytes, window_base, load_base, table, count),
                entry_at(bytes, table + 24 * i).target(window_base, load_base),
            ) == entry_at(bytes, table + 24 * i).addend + load_base,
{
    lemma_values_after(bytes, window_base, load_base, table, count, count);
}

/// The byte that the last of the first `done` records to cover index `at`
/// stores there, if any of them covers it.
pub open spec fn last_store(
    bytes: Seq<u8>,
    window_base: int,
    load_base: u64,
    table: int,
    done: nat,
    at: int,
) -> Option<u8>
    decreases done,
{
    if done == 0 {
        None
    } else {
        let entry = entry_at(bytes, table + 24 * (done - 1));
        let target = entry.target(window_base, load_base);
        if entry.is_relative() && target <= at < target + 8 {
            Some(spec_u64_to_le_bytes(entry.value(load_base))[at - target])
        } else {
            last_store(bytes, window_base, load_base, table, (done - 1) as nat, at)
        }
    }
}

/// Relocation leaves in every byte what the last record to cover it stores,
/// and what was there where no record covers it. This holds of any image that
/// carries the same table.
pub proof fn lemma_relocated_bytes(
    image: Seq<u8>,
    bytes: Seq<u8>,
    window_base: int,
    load_base: u64,
    table: int,
    done: nat,
    at: int,
)
    requires
        0 <= at < image.len(),
        forall|i: int|
            0 <= i < done ==> entry_at(image, table + 24 * i) == #[trigger] entry_at(
                bytes,
                table + 24 * i,
            ),
    ensures
        relocated(image, window_base, load_base, table, done).len() == image.len(),
        relocated(image, window_base, load_base, table, done)[at] == match last_store(
            bytes,
            window_base,
            load_base,
            table,
            done,
            at,
        ) {
            Some(byte) => byte,
            None => image[at],
        },
    decreases done,
{
    if done > 0 {
        lemma_relocated_bytes(
            image,
            bytes,
            window_base,
            load_base,
            table,
            (done - 1) as nat,
            at,
        );
        assert(entry_at(image, table + 24 * (done - 1)) == entry_at(
            bytes,
            table + 24 * (done - 1),
        ));
    }
}

/// Relocating an image that is already relocated for the same load base can
/// be done and changes nothing.
pub proof fn lemma_relocation_idempotent(
    bytes: Seq<u8>,
    window_base: int,
    load_base: u64,
    table: int,
    count: nat,
)
    requires
        relocatable(bytes, window_base, load_base, table, count),
    ensures
        relocatable(
            relocated(bytes, window_base, load_base, table, count),
            window_base,
            load_base,
            table,
            count,
        ),
        relocated(
            relocated(bytes, window_base, load_base, table, count),
            window_base,
            load_base,
            table,
            count,
        ) == relocated(bytes, window_base, load_base, table, count),
{
    let once = relocated(bytes, window_base, load_base, table, count);
    let twice = relocated(once, window_base, load_base, table, count);
    lemma_relocated_keeps_table(bytes, window_base, load_base, table, count, count);
    assert(relocatable(once, window_base, load_base, table, count)) by {
        if count > 0 {
            assert forall|i: int|
                0 <= i < count && (#[trigger] entry_at(once, table + 24 * i)).is_relative() implies {
                let target = entry_at(once, table + 24 * i).target(window_base, load_base);
                &&& 0 <= target
                &&& target + 8 <= once.len()
                &&& (target + 8 <= table || table + 24 * count <= target)
            } by {
                assert(entry_at(bytes, table + 24 * i).is_relative());
            }
        }
    }
    assert forall|at: int| 0 <= at < once.len() implies twice[at] == once[at] by {
        lemma_relocated_bytes(bytes, bytes, window_base, load_base, table, count, at);
        lemma_relocated_bytes(once, bytes, window_base, load_base, table, count, at);
    }
    if once.len() > 0 {
        lemma_relocated_bytes(once, bytes, window_base, load_base, table, count, 0);
    } else {
        lemma_relocated_keeps_table(once, window_base, load_base, table, count, count);
    }
    assert(twice =~= once);
}

/// The values that the first `done` records leave in place.
proof fn lemma_values_after(
    bytes: Seq<u8>,
    window_base: int,
    load_base: u64,
    table: int,
    count: nat,
    done: nat,
)
    requires
        relocatable(bytes, window_base, load_base, table, count),
        consistent(bytes, window_base, load_base, table, count),
        done <= count,
    ensures
        forall|i: int|
            0 <= i < done && (#[trigger] entry_at(bytes, table + 24 * i)).is_relative() ==> word_at(
                relocated(bytes, window_base, load_base, table, done),
                entry_at(bytes, table + 24 * i).target(window_base, load_base),
            ) == entry_at(bytes, table + 24 * i).value(load_base),
    decreases done,
{
    if done > 0 {
        let earlier = (done - 1) as nat;
        lemma_values_after(bytes, window_base, load_base, table, count, earlier);
        lemma_relocated_keeps_table(bytes, window_base, load_base, table, count, earlier);
        let before = relocated(bytes, window_base, load_base, table, earlier);
        let after = relocated(bytes, window_base, load_base, table, done);
        let last = entry_at(bytes, table + 24 * (done - 1));
        assert forall|i: int|
            0 <= i < done && (#[trigger] entry_at(bytes, table + 24 * i)).is_relative() implies word_at(
            after,
            entry_at(bytes, table + 24 * i).target(window_base, load_base),
        ) == entry_at(bytes, table + 24 * i).value(load_base) by {
            let entry = entry_at(bytes, table + 24 * i);
            let target = entry.target(window_base, load_base);
            if last.is_relative() {
                let last_target = last.target(window_base, load_base);
                if i == done - 1 {
                    lemma_word_at_same(before, target, entry.value(load_base));
                } else if target + 8 <= last_target || last_target + 8 <= target {
                    lemma_word_at_other(before, last_target, last.value(load_base), target);
                } else {
                    assert(entry.offset == last.offset && entry.addend == last.addend);
                    lemma_word_at_same(before, target, entry.value(load_base));
                }
            }
        }
    }
}

/// Relocation writes nothing but the targets of relative records.
pub proof fn lemma_relocated_elsewhere(
    bytes: Seq<u8>,
    window_base: int,
    load_base: u64,
    table: int,
    count: nat,
    index: int,
)
    requires
        0 <= index < bytes.len(),
        forall|i: int|
            0 <= i < count && (#[trigger] entry_at(bytes, table + 24 * i)).is_relative() ==> {
                let target = entry_at(bytes, table + 24 * i).target(window_base, load_base);
                index < target || target + 8 <= index
            },
    ensures
        relocated(bytes, window_base, load_base, table, count).len() == bytes.len(),
        relocated(bytes, window_base, load_base, table, count)[index] == bytes[index],
    decreases count,
{
    if count > 0 {
        lemma_relocated_elsewhere(
            bytes,
            window_base,
            load_base,
            table,
            (count - 1) as nat,
            index,
        );
        assert(entry_at(bytes, table + 24 * (count - 1)).is_relative() ==> {
            let target = entry_at(bytes, table + 24 * (count - 1)).target(window_base, load_base);
            index < target || target + 8 <= index
        });
    }
}

/// No relative record among the first `count` patches a word that overlaps
/// the bytes from index `from` up to index `to`.
pub open spec fn spares(
    bytes: Seq<u8>,
    window_base: int,
    load_base: u64,
    table: int,
    count: nat,
    from: int,
    to: int,
) -> bool {
    forall|i: int|
        0 <= i < count && (#[trigger] entry_at(bytes, table + 24 * i)).is_relative() ==> {
            let target = entry_at(bytes, table + 24 * i).target(window_base, load_base);
            target + 8 <= from || to <= target
        }
}

/// Bytes that relocation spares are the same afterwards as before.
pub proof fn lemma_spared_bytes_stay(
    bytes: Seq<u8>,
    window_base: int,
    load_base: u64,
    table: int,
    count: nat,
    from: int,
    to: int,
)
    requires
        0 <= from <= to <= bytes.len(),
        spares(bytes, window_base, load_base, table, count, from, to),
    ensures
        relocated(bytes, window_base, load_base, table, count).len() == bytes.len(),
        relocated(bytes, window_base, load_base, table, count).subrange(from, to)
            == bytes.subrange(from, to),
{
    let after = relocated(bytes, window_base, load_base, table, count);
    assert forall|i: int| from <= i < to implies after[i] == bytes[i] by {
        lemma_relocated_elsewhere(bytes, window_base, load_base, table, count, i);
    }
    lemma_relocated_len(bytes, window_base, load_base, table, count);
    assert(after.subrange(from, to) =~= bytes.subrange(from, to));
}

/// Relocation changes no length.
proof fn lemma_relocated_len(
    bytes: Seq<u8>,
    window_base: int,
    load_base: u64,
    table: int,
    count: nat,
)
    ensures
        relocated(bytes, window_base, load_base, table, count).len() == bytes.len(),
    decreases count,
{
    if count > 0 {
        lemma_relocated_len(bytes, window_base, load_base, table, (count - 1) as nat);
    }
}

/// The number of whole records between the two ends of a table.
pub fn count_entries(rela_begin: u64, rela_end: u64) -> (count: u64)
    ensures
        count == entry_count(rela_begin, rela_end),
        rela_begin + 24 * count <= u64::MAX,
{
    if rela_begin <= rela_end {
        (rela_end - rela_begin) / RELA_ENTRY_BYTES
    } else {
        0
    }
}

/// The record stored at `addr`.
pub fn read_entry(mem: &Memory, addr: u64) -> (entry: Rela)
    requires
        mem.contains(addr as int, 24),
    ensures
        entry == entry_at(mem@, mem.index_of(addr as int)),
{
    let _ = mem.len();
    Rela {
        offset: mem.read_u64(addr),
        info: mem.read_u64(addr + 8),
        addend: mem.read_u64(addr + 16),
    }
}

/// Whether the table between `rela_begin` and `rela_end` can be applied to an
/// image loaded at `load_base`: whether it lies in `mem` and every relative
/// record patches a word that lies in `mem` and outside the table.
pub fn can_relocate(mem: &Memory, load_base: u64, rela_begin: u64, rela_end: u64) -> (ok: bool)
    ensures
        ok == relocatable(
            mem@,
            mem.base() as int,
            load_base,
            mem.index_of(rela_begin as int),
            entry_count(rela_begin, rela_end),
        ),
{
    let size = mem.len();
    let count = count_entries(rela_begin, rela_end);
    if count == 0 {
        return true;
    }
    if !mem.covers(rela_begin, 24 * count) {
        return false;
    }
    let ghost table = mem.index_of(rela_begin as int);
    let table_end: u64 = rela_begin + 24 * count;
    let mut i: u64 = 0;
    while i < count
        invariant
            i <= count,
            count == entry_count(rela_begin, rela_end),
            count > 0,
            table == mem.index_of(rela_begin as int),
            table_end == rela_begin + 24 * count,
            mem.contains(rela_begin as int, 24 * count),
            mem.base() + mem@.len() <= u64::MAX + 1,
            forall|k: int|
                0 <= k < i && (#[trigger] entry_at(mem@, table + 24 * k)).is_relative() ==> {
                    let target = entry_at(mem@, table + 24 * k).target(mem.base() as int, load_base);
                    &&& 0 <= target
                    &&& target + 8 <= mem@.len()
                    &&& (target + 8 <= table || table + 24 * count <= target)
                },
        decreases count - i,
    {
        let entry = read_entry(mem, rela_begin + 24 * i);
        assert(entry == entry_at(mem@, table + 24 * i));
        if entry.is_relative() {
            let fits = match load_base.checked_add(entry.offset) {
                None => false,
                Some(target) => mem.covers(target, 8) && (target < rela_begin && rela_begin - target
                    >= 8 || target >= table_end),
            };
            if !fits {
                return false;
            }
        }
        i += 1;
    }
    true
}

/// Walks the relocation table from `rela_begin` to `rela_end` and, for every
/// record of the relative type, stores the addend plus `load_base` at
/// `load_base` plus the record's offset. Records of any other type are passed
/// over without a trace.
pub fn relocate_image(mem: &mut Memory, load_base: u64, rela_begin: u64, rela_end: u64)
    requires
        relocatable(
            old(mem)@,
            old(mem).base() as int,
            load_base,
            old(mem).index_of(rela_begin as int),
            entry_count(rela_begin, rela_end),
        ),
    ensures
        final(mem).base() == old(mem).base(),
        final(mem)@ == relocated(
            old(mem)@,
            old(mem).base() as int,
            load_base,
            old(mem).index_of(rela_begin as int),
            entry_count(rela_begin, rela_end),
        ),
{
    let _ = mem.len();
    let count = count_entries(rela_begin, rela_end);
    let ghost bytes = mem@;
    let ghost window_base = mem.base() as int;
    let ghost table = mem.index_of(rela_begin as int);
    let mut i: u64 = 0;
    while i < count
        invariant
            i <= count,
            count == entry_count(rela_begin, rela_end),
            rela_begin + 24 * count <= u64::MAX,
            window_base == mem.base(),
            mem.base() == old(mem).base(),
            table == rela_begin - window_base,
            relocatable(bytes, window_base, load_base, table, count as nat),
            mem.base() + mem@.len() <= u64::MAX + 1,
            mem@ == relocated(bytes, window_base, load_base, table, i as nat),
        decreases count - i,
    {
        proof {
            lemma_relocated_keeps_table(bytes, window_base, load_base, table, count as nat, i as nat);
        }
        let entry = read_entry(mem, rela_begin + 24 * i);
        assert(entry == entry_at(bytes, table + 24 * i));
        if entry.is_relative() {
            mem.write_u64(load_base + entry.offset, entry.addend.wrapping_add(load_base));
        }
        i += 1;
    }
}

/// Whether no relative record of a table that can be applied patches a word
/// that overlaps the `len` bytes at `addr`.
pub fn relocation_spares(
    mem: &Memory,
    load_base: u64,
    rela_begin: u64,
    rela_end: u64,
    addr: u64,
    len: u64,
) -> (ok: bool)
    requires
        mem.contains(addr as int, len as int),
        relocatable(
            mem@,
            mem.base() as int,
            load_base,
            mem.index_of(rela_begin as int),
            entry_count(rela_begin, rela_end),
        ),
    ensures
        ok == spares(
            mem@,
            mem.base() as int,
            load_base,
            mem.index_of(rela_begin as int),
            entry_count(rela_begin, rela_end),
            mem.index_of(addr as int),
            mem.index_of(addr as int) + len,
        ),
{
    let _ = mem.len();
    let count = count_entries(rela_begin, rela_end);
    let ghost table = mem.index_of(rela_begin as int);
    let ghost from = mem.index_of(addr as int);
    let mut i: u64 = 0;
    while i < count
        invariant
            i <= count,
            count == entry_count(rela_begin, rela_end),
            rela_begin + 24 * count <= u64::MAX,
            table == rela_begin - mem.base(),
            from == addr - mem.base(),
            mem.contains(addr as int, len as int),
            mem.base() + mem@.len() <= u64::MAX + 1,
            relocatable(mem@, mem.base() as int, load_base, table, count as nat),
            spares(mem@, mem.base() as int, load_base, table, i as nat, from, from + len),
        decreases count - i,
    {
        let entry = read_entry(mem, rela_begin + 24 * i);
        assert(entry == entry_at(mem@, table + 24 * i));
        if entry.is_relative() {
            let target = load_base + entry.offset;
            let below = target < addr && addr - target >= 8;
            let above = target >= addr && target - addr >= len;
            if !(below || above) {
                return false;
            }
        }
        i += 1;
    }
    true
}

/// Applies the relocation table if it can be applied. Returns whether it
/// could; if not, `mem` is left as it was.
pub fn try_relocate_image(mem: &mut Memory, load_base: u64, rela_begin: u64, rela_end: u64) -> (done:
    bool)
    ensures
        final(mem).base() == old(mem).base(),
        done == relocatable(
            old(mem)@,
            old(mem).base() as int,
            load_base,
            old(mem).index_of(rela_begin as int),
            entry_count(rela_begin, rela_end),
        ),
        final(mem)@ == if done {
            relocated(
                old(mem)@,
                old(mem).base() as int,
                load_base,
                old(mem).index_of(rela_begin as int),
                entry_count(rela_begin, rela_end),
            )
        } else {
            old(mem)@
        },
{
    if can_relocate(mem, load_base, rela_begin, rela_end) {
        relocate_image(mem, load_base, rela_begin, rela_end);
        true
    } else {
        false
    }
}

} // verus!
