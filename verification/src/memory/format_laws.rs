//! What the processor makes of page tables: how it finds an entry, and what
//! the bits of an entry mean to it.

use vstd::prelude::*;
use super::page_table::{
    address, decision, in_table, is_huge, is_present, made_entries, slot, walk, Decision, Env, Goal, PageError, PageResult,
};

verus! {

/// Bits of an entry as quotients and remainders.
proof fn lemma_entry_bits(e: u64)
    by (bit_vector)
    ensures
        (e & 1 != 0) == (e % 2 == 1),
        (e & 0x80 != 0) == (e / 0x80 % 2 == 1),
        e & 0x000f_ffff_ffff_f000 == e % 0x10_0000_0000_0000 - e % 0x1000,
        (e | 0x10 | 0x8) / 0x8 % 4 == 3,
        (e | 0x10 | 0x8) % 8 == e % 8,
        (e | 0x10 | 0x8) / 0x20 == e / 0x20,
{
}

/// Nine bits of an address choose the entry at each level: from bit 39 at
/// level 4, from bit 30 at level 3, from bit 21 at level 2 and from bit 12 at
/// level 1; entries are of eight bytes.
pub proof fn law_address_bits_choose_entries(table: int, va: u64)
    ensures
        slot(table, va as int, 4) == table + 8 * (va / 0x80_0000_0000 % 512),
        slot(table, va as int, 3) == table + 8 * (va / 0x4000_0000 % 512),
        slot(table, va as int, 2) == table + 8 * (va / 0x20_0000 % 512),
        slot(table, va as int, 1) == table + 8 * (va / 0x1000 % 512),
{
}

/// The bits of an entry: bit 0 says that it is present, bit 7 at levels 2 and
/// 3 that it maps a large page, and bits 12 to 51 hold the address.
pub proof fn law_entry_bits(e: u64, level: int)
    ensures
        is_present(e) <==> e % 2 == 1,
        is_huge(e, level) <==> (level == 2 || level == 3) && e / 0x80 % 2 == 1,
        address(e) == e % 0x10_0000_0000_0000 - e % 0x1000,
{
    lemma_entry_bits(e);
}

/// Translating an address through four tables of 4 KiB pages, one of them not
/// present, or a large page of 2 MiB or 1 GiB on the way.
pub proof fn law_translation_by_the_tables(env: Env, root: int, va: u64)
    ensures
        ({
            let e4 = env.mem[root + 8 * (va / 0x80_0000_0000 % 512)];
            let e3 = env.mem[e4 % 0x10_0000_0000_0000 - e4 % 0x1000 + 8 * (va / 0x4000_0000 % 512)];
            let e2 = env.mem[e3 % 0x10_0000_0000_0000 - e3 % 0x1000 + 8 * (va / 0x20_0000 % 512)];
            let e1 = env.mem[e2 % 0x10_0000_0000_0000 - e2 % 0x1000 + 8 * (va / 0x1000 % 512)];
            let found = walk(Goal::Translate, env, root, 4, va).0;
            &&& e4 % 2 == 0 ==> found == PageResult::Address(None)
            &&& e4 % 2 == 1 && e3 % 2 == 0 ==> found == PageResult::Address(None)
            &&& e4 % 2 == 1 && e3 % 2 == 1 && e3 / 0x80 % 2 == 1 ==> found == PageResult::Address(
                Some((e3 % 0x10_0000_0000_0000 - e3 % 0x1000 + va % 0x4000_0000) as u64),
            )
            &&& e4 % 2 == 1 && e3 % 2 == 1 && e3 / 0x80 % 2 == 0 ==> {
                &&& e2 % 2 == 0 ==> found == PageResult::Address(None)
                &&& e2 % 2 == 1 && e2 / 0x80 % 2 == 1 ==> found == PageResult::Address(
                    Some((e2 % 0x10_0000_0000_0000 - e2 % 0x1000 + va % 0x20_0000) as u64),
                )
                &&& e2 % 2 == 1 && e2 / 0x80 % 2 == 0 && e1 % 2 == 0 ==> found == PageResult::Address(
                    None,
                )
                &&& e2 % 2 == 1 && e2 / 0x80 % 2 == 0 && e1 % 2 == 1 ==> found == PageResult::Address(
                    Some((e1 % 0x10_0000_0000_0000 - e1 % 0x1000 + va % 0x1000) as u64),
                )
            }
        }),
{
    reveal_with_fuel(walk, 5);
    law_address_bits_choose_entries(root, va);
    let e4 = env.mem[slot(root, va as int, 4)];
    law_entry_bits(e4, 4);
    let t3 = address(e4) as int;
    law_address_bits_choose_entries(t3, va);
    let e3 = env.mem[slot(t3, va as int, 3)];
    law_entry_bits(e3, 3);
    let t2 = address(e3) as int;
    law_address_bits_choose_entries(t2, va);
    let e2 = env.mem[slot(t2, va as int, 2)];
    law_entry_bits(e2, 2);
    let t1 = address(e2) as int;
    law_address_bits_choose_entries(t1, va);
    let e1 = env.mem[slot(t1, va as int, 1)];
    law_entry_bits(e1, 1);
    if is_present(e4) {
        assert(walk(Goal::Translate, env, root, 4, va) == walk(Goal::Translate, env, t3, 3, va));
        if is_present(e3) && !is_huge(e3, 3) {
            assert(walk(Goal::Translate, env, t3, 3, va) == walk(Goal::Translate, env, t2, 2, va));
            if is_present(e2) && !is_huge(e2, 2) {
                assert(walk(Goal::Translate, env, t2, 2, va) == walk(Goal::Translate, env, t1, 1, va));
            }
        }
    }
}

/// What is done with the last entry on the way: a free one is filled with the
/// mapping, and a used one is not; one that is made uncacheable gets bits 3
/// and 4 and keeps the others; one that is unmapped is cleared, and its frame
/// given back.
pub proof fn law_last_entry(e: u64, entry: u64, va: u64)
    ensures
        e % 2 == 0 ==> decision(Goal::MapTo { entry }, 1, e, va) == (Decision::Final {
            value: entry,
            result: PageResult::Changed,
        }),
        e % 2 == 1 ==> decision(Goal::MapTo { entry }, 1, e, va) == Decision::Stop(
            PageResult::Failed(PageError::AlreadyMapped),
        ),
        e % 2 == 1 ==> decision(Goal::Unmap, 1, e, va) == (Decision::Final {
            value: 0,
            result: PageResult::Unmapped((e % 0x10_0000_0000_0000 - e % 0x1000) as u64),
        }),
        e % 2 == 0 ==> decision(Goal::Unmap, 1, e, va) == Decision::Stop(
            PageResult::Failed(PageError::NotPresent(1)),
        ),
        e % 2 == 1 ==> ({
            let d = decision(Goal::Uncache, 1, e, va);
            &&& d is Final
            &&& d->value / 0x8 % 4 == 3
            &&& d->value % 8 == e % 8
            &&& d->value / 0x20 == e / 0x20
        }),
{
    law_entry_bits(e, 1);
    lemma_entry_bits(e);
}

/// What is done on the way: a table that is there is gone into, and one that
/// is missing is made where a page is to be mapped.
pub proof fn law_entries_on_the_way(e: u64, entry: u64, level: int, va: u64)
    requires
        2 <= level <= 4,
    ensures
        e % 2 == 0 ==> decision(Goal::MapTo { entry }, level, e, va) is Make,
        e % 2 == 1 ==> decision(Goal::MapTo { entry }, level, e, va) == Decision::Into(
            (e % 0x10_0000_0000_0000 - e % 0x1000) as u64,
        ),
        e % 2 == 0 ==> decision(Goal::Unmap, level, e, va) == Decision::Stop(
            PageResult::Failed(PageError::NotPresent(level as u8)),
        ),
        e % 2 == 0 ==> decision(Goal::Uncache, level, e, va) == Decision::Stop(
            PageResult::Failed(PageError::NotPresent(level as u8)),
        ),
        e % 2 == 1 && level < 4 && e / 0x80 % 2 == 1 ==> decision(Goal::Uncache, level, e, va) is Make,
        e % 2 == 1 && (level == 4 || e / 0x80 % 2 == 0) ==> decision(Goal::Uncache, level, e, va)
            == Decision::Into((e % 0x10_0000_0000_0000 - e % 0x1000) as u64),
{
    law_entry_bits(e, level);
}

/// A table that is made for a mapping is empty.
pub proof fn law_made_table_is_empty(entry: u64, level: int, e: u64, i: int)
    requires
        0 <= i < 512,
    ensures
        made_entries(Goal::MapTo { entry }, level, e).len() == 512,
        made_entries(Goal::MapTo { entry }, level, e)[i] == 0,
{
}

/// The flags of pages that are split or of tables, by their bits.
pub proof fn law_flag_bits()
    ensures
        super::page_table::PRESENT == 1,
        super::page_table::WRITABLE == 2,
        super::page_table::USER_ACCESSIBLE == 4,
        super::page_table::WRITE_THROUGH == 8,
        super::page_table::NO_CACHE == 16,
        super::page_table::HUGE_PAGE == 128,
        super::page_table::GLOBAL == 256,
        super::page_table::NO_EXECUTE == 0x8000_0000_0000_0000,
        super::page_table::TABLE_FLAGS == 1 + 2 + 32,
        super::page_table::SPLIT_ATTRS == 1 + 2 + 4 + 8 + 16 + 256 + 0x8000_0000_0000_0000,
        super::page_table::FLAG_BITS == u64::MAX - 0x000f_ffff_ffff_f000,
{
}

/// A table lies in one page, its entries eight bytes apart.
pub proof fn law_table_entries(table: int, a: int, va: u64, level: int)
    requires
        1 <= level <= 4,
    ensures
        in_table(table, slot(table, va as int, level)),
        in_table(table, a) ==> table <= a <= table + 4088,
{
}

} // verus!
