//! What mapping, unmapping and changing a page does to all translations.

use vstd::prelude::*;
use super::page_table::{
    address, decision, filled, in_table, index, is_frame, is_huge, is_present, link,
    lemma_entry_parts, made_entries, make, slot, span, split_entries, walk, Env, Goal, Mem,
    PageResult, ADDRESS_LIMIT, FLAG_BITS, HUGE_PAGE, NO_CACHE, SPLIT_ATTRS, TABLE_FLAGS,
    WRITE_THROUGH,
};

verus! {

/// An entry that maps a page, and the level of its table.
pub struct Leaf {
    pub level: int,
    pub entry: u64,
}

/// The entry that maps `va`, and the level of its table, on the walk from
/// `table` on; `None` where `va` is not mapped.
pub open spec fn leaf(mem: Mem, table: int, level: int, va: int) -> Option<Leaf>
    decreases level,
{
    let e = mem[slot(table, va, level)];
    if !is_present(e) {
        None
    } else if level <= 1 || is_huge(e, level) {
        Some(Leaf { level, entry: e })
    } else {
        leaf(mem, address(e) as int, level - 1, va)
    }
}

/// The table of level `t` on the walk of `va` from `table` on.
pub open spec fn table_at(mem: Mem, table: int, level: int, va: int, t: int) -> Option<int>
    decreases level,
{
    let e = mem[slot(table, va, level)];
    if level <= t {
        if level == t {
            Some(table)
        } else {
            None
        }
    } else if level <= 1 || !is_present(e) || is_huge(e, level) {
        None
    } else {
        table_at(mem, address(e) as int, level - 1, va, t)
    }
}

/// The 48 bits of an address that are translated.
pub open spec fn low48(va: int) -> int {
    va % 0x1_0000_0000_0000
}

/// Two addresses use the same table of this level: they agree above.
pub open spec fn same_table(va: int, vb: int, level: int) -> bool {
    low48(va) / (512 * span(level)) == low48(vb) / (512 * span(level))
}

/// Two addresses use the same entry of the same table of this level.
pub open spec fn same_entry(va: int, vb: int, level: int) -> bool {
    low48(va) / span(level) == low48(vb) / span(level)
}

/// The page tables are a tree: a table is used at one place only.
pub open spec fn tree(mem: Mem, root: int) -> bool {
    forall|va: int, vb: int, s: int, t: int|
        #![trigger table_at(mem, root, 4, va, s), table_at(mem, root, 4, vb, t)]
        0 <= va && 0 <= vb && 1 <= s <= 4 && 1 <= t <= 4 && table_at(mem, root, 4, va, s) is Some
            && table_at(mem, root, 4, va, s) == table_at(mem, root, 4, vb, t) ==> s == t
            && same_table(va, vb, s)
}

/// `f` is no table of the tree.
pub open spec fn unused(mem: Mem, root: int, f: int) -> bool {
    forall|va: int, s: int|
        0 <= va && 1 <= s <= 4 ==> #[trigger] table_at(mem, root, 4, va, s) != Some(f)
}

/// The frames that the allocator gives are not used as tables, and distinct.
pub open spec fn fresh(env: Env, root: int) -> bool {
    &&& forall|i: int|
        0 <= i < env.frames.len() && (#[trigger] env.frames[i]) is Some ==> is_frame(
            env.frames[i]->0 as int,
        ) && unused(env.mem, root, env.frames[i]->0 as int)
    &&& forall|i: int, j: int|
        0 <= i < j < env.frames.len() && (#[trigger] env.frames[i]) is Some && (
        #[trigger] env.frames[j]) is Some ==> env.frames[i] != env.frames[j]
}

/// The entry number of an address is its table number and its index.
proof fn lemma_number(va: int, level: int)
    requires
        1 <= level <= 4,
        0 <= va,
    ensures
        low48(va) / span(level) == (low48(va) / (512 * span(level))) * 512 + index(va, level),
        0 <= index(va, level) < 512,
        level == 4 ==> low48(va) / (512 * span(level)) == 0,
{
    let x = low48(va);
    let q = va / 0x1_0000_0000_0000;
    let s = span(level);
    assert(va == q * 0x1_0000_0000_0000 + x);
    let y = va / s;
    let z = x / s;
    vstd::arithmetic::div_mod::lemma_div_denominator(x, s, 512);
    assert(s * 512 == 512 * s);
    assert(x / (512 * s) == z / 512);
    if level == 1 {
        assert(y == q * 0x10_0000_0000 + z);
    } else if level == 2 {
        assert(y == q * 0x800_0000 + z);
    } else if level == 3 {
        assert(y == q * 0x4_0000 + z);
    } else {
        assert(y == q * 0x200 + z);
    }
    assert(y % 512 == z % 512);
}

/// How the parts of an address relate.
proof fn lemma_parts(va: int, vb: int, level: int)
    requires
        1 <= level <= 4,
        0 <= va,
        0 <= vb,
    ensures
        same_entry(va, vb, level) <==> same_table(va, vb, level) && index(va, level) == index(
            vb,
            level,
        ),
        level == 4 ==> same_table(va, vb, level),
        level < 4 ==> (same_table(va, vb, level) <==> same_entry(va, vb, level + 1)),
{
    lemma_number(va, level);
    lemma_number(vb, level);
    if level < 4 {
        assert(span(level + 1) == 512 * span(level));
    }
}

/// Where two addresses use the same entry, they do so at all levels above.
proof fn lemma_same_above(va: int, vb: int, level: int, above: int)
    requires
        1 <= level <= above <= 4,
        0 <= va,
        0 <= vb,
        same_entry(va, vb, level),
    ensures
        same_entry(va, vb, above),
        index(va, above) == index(vb, above),
        same_table(va, vb, above),
    decreases above - level,
{
    lemma_parts(va, vb, level);
    if level < above {
        lemma_same_above(va, vb, level + 1, above);
    }
}

/// Entries of distinct frames lie apart, and so do distinct entries of one.
proof fn lemma_slots(a: int, va: int, s: int, b: int, vb: int, t: int)
    requires
        is_frame(a),
        is_frame(b),
        slot(a, va, s) == slot(b, vb, t),
    ensures
        a == b,
        index(va, s) == index(vb, t),
{
}

/// The walk one level further.
proof fn lemma_step(mem: Mem, table: int, level: int, va: int, t: int)
    requires
        1 <= t < level <= 4,
        table_at(mem, table, level, va, t + 1) is Some,
    ensures
        ({
            let at = table_at(mem, table, level, va, t + 1)->0;
            let e = mem[slot(at, va, t + 1)];
            table_at(mem, table, level, va, t) == if is_present(e) && !is_huge(e, t + 1) {
                Some(address(e) as int)
            } else {
                None
            }
        }),
    decreases level,
{
    let e = mem[slot(table, va, level)];
    if level > t + 1 {
        lemma_step(mem, address(e) as int, level - 1, va, t);
    } else {
        reveal_with_fuel(table_at, 2);
    }
}

/// Every table on a walk is a frame.
proof fn lemma_tables_are_frames(mem: Mem, table: int, level: int, va: int, t: int)
    requires
        is_frame(table),
        level <= 4,
        table_at(mem, table, level, va, t) is Some,
    ensures
        is_frame(table_at(mem, table, level, va, t)->0),
    decreases level,
{
    let e = mem[slot(table, va, level)];
    lemma_entry_parts(e, 0, 0);
    if level > t {
        lemma_tables_are_frames(mem, address(e) as int, level - 1, va, t);
    }
}

/// Addresses that use the same entry of a table get there by the same tables.
proof fn lemma_same_path(mem: Mem, table: int, level: int, va: int, vb: int, t: int)
    requires
        1 <= t <= level <= 4,
        0 <= va,
        0 <= vb,
        same_table(va, vb, t),
    ensures
        table_at(mem, table, level, va, t) == table_at(mem, table, level, vb, t),
    decreases level,
{
    if t < level {
        lemma_parts(va, vb, t);
        lemma_same_above(va, vb, t + 1, level);
        lemma_same_path(
            mem,
            address(mem[slot(table, va, level)]) as int,
            level - 1,
            va,
            vb,
            t,
        );
    }
}

/// Writing an entry changes no walk that does not come by it.
proof fn lemma_write_elsewhere(
    mem: Mem,
    root: int,
    va: int,
    level: int,
    value: u64,
    vb: int,
    l: int,
    t: int,
)
    requires
        is_frame(root),
        tree(mem, root),
        0 <= va,
        0 <= vb,
        1 <= level <= 4,
        1 <= l <= 4,
        1 <= t <= l,
        table_at(mem, root, 4, va, level) is Some,
        table_at(mem, root, 4, vb, l) is Some,
        !same_entry(va, vb, level),
    ensures
        ({
            let w = mem.insert(slot(table_at(mem, root, 4, va, level)->0, va, level), value);
            let table = table_at(mem, root, 4, vb, l)->0;
            &&& leaf(w, table, l, vb) == leaf(mem, table, l, vb)
            &&& table_at(w, table, l, vb, t) == table_at(mem, table, l, vb, t)
        }),
    decreases l,
{
    let a = table_at(mem, root, 4, va, level)->0;
    let b = table_at(mem, root, 4, vb, l)->0;
    lemma_tables_are_frames(mem, root, 4, va, level);
    lemma_tables_are_frames(mem, root, 4, vb, l);
    if slot(a, va, level) == slot(b, vb, l) {
        lemma_slots(a, va, level, b, vb, l);
        assert(table_at(mem, root, 4, va, level) == table_at(mem, root, 4, vb, l));
        lemma_parts(va, vb, level);
    }
    let e = mem[slot(b, vb, l)];
    if l > 1 && is_present(e) && !is_huge(e, l) {
        lemma_step(mem, root, 4, vb, l - 1);
        lemma_write_elsewhere(
            mem,
            root,
            va,
            level,
            value,
            vb,
            l - 1,
            if t < l { t } else { t - 1 },
        );
    }
}

/// After an entry is written, walks that come by it still do.
proof fn lemma_write_here(
    mem: Mem,
    root: int,
    va: int,
    level: int,
    value: u64,
    vb: int,
    l: int,
    t: int,
)
    requires
        is_frame(root),
        tree(mem, root),
        0 <= va,
        0 <= vb,
        1 <= level <= l <= 4,
        1 <= t <= l,
        table_at(mem, root, 4, va, level) is Some,
        table_at(mem, root, 4, vb, l) is Some,
        same_entry(va, vb, level),
    ensures
        ({
            let a = table_at(mem, root, 4, va, level)->0;
            let w = mem.insert(slot(a, va, level), value);
            let table = table_at(mem, root, 4, vb, l)->0;
            &&& leaf(w, table, l, vb) == leaf(w, a, level, vb)
            &&& t <= level ==> table_at(w, table, l, vb, t) == table_at(w, a, level, vb, t)
            &&& t > level ==> table_at(w, table, l, vb, t) == table_at(mem, table, l, vb, t)
        }),
    decreases l,
{
    let a = table_at(mem, root, 4, va, level)->0;
    let b = table_at(mem, root, 4, vb, l)->0;
    let w = mem.insert(slot(a, va, level), value);
    lemma_parts(va, vb, level);
    lemma_same_path(mem, root, 4, va, vb, level);
    if l > level {
        lemma_tables_are_frames(mem, root, 4, va, level);
        lemma_tables_are_frames(mem, root, 4, vb, l);
        if slot(a, va, level) == slot(b, vb, l) {
            lemma_slots(a, va, level, b, vb, l);
            assert(table_at(mem, root, 4, va, level) == table_at(mem, root, 4, vb, l));
        }
        let e = mem[slot(b, vb, l)];
        assert(w[slot(b, vb, l)] == e);
        // The walk of `vb` passes through this entry on to `a`.
        lemma_passes(mem, root, 4, vb, l, level);
        lemma_step(mem, root, 4, vb, l - 1);
        if t < l {
            lemma_write_here(mem, root, va, level, value, vb, l - 1, t);
        } else {
            lemma_write_here(mem, root, va, level, value, vb, l - 1, l - 1);
        }
    }
}

/// A walk that gets to a lower table passes through every entry above.
proof fn lemma_passes(mem: Mem, table: int, level: int, va: int, l: int, t: int)
    requires
        1 <= t < l <= level <= 4,
        table_at(mem, table, level, va, t) is Some,
    ensures
        table_at(mem, table, level, va, l) is Some,
        ({
            let e = mem[slot(table_at(mem, table, level, va, l)->0, va, l)];
            is_present(e) && !is_huge(e, l)
        }),
    decreases level,
{
    if l < level {
        lemma_passes(mem, address(mem[slot(table, va, level)]) as int, level - 1, va, l, t);
    }
}

/// Filling a frame that is no table changes no walk.
proof fn lemma_fill_elsewhere(
    mem: Mem,
    root: int,
    f: int,
    entries: Seq<u64>,
    vb: int,
    l: int,
    t: int,
)
    requires
        is_frame(root),
        is_frame(f),
        unused(mem, root, f),
        0 <= vb,
        1 <= l <= 4,
        1 <= t <= l,
        table_at(mem, root, 4, vb, l) is Some,
    ensures
        ({
            let w = filled(mem, f, entries);
            let table = table_at(mem, root, 4, vb, l)->0;
            &&& leaf(w, table, l, vb) == leaf(mem, table, l, vb)
            &&& table_at(w, table, l, vb, t) == table_at(mem, table, l, vb, t)
        }),
    decreases l,
{
    let b = table_at(mem, root, 4, vb, l)->0;
    let w = filled(mem, f, entries);
    lemma_tables_are_frames(mem, root, 4, vb, l);
    assert(b != f);
    let at = slot(b, vb, l);
    assert(!in_table(f, at));
    assert(w[at] == mem[at]);
    let e = mem[at];
    if l > 1 && is_present(e) && !is_huge(e, l) {
        lemma_step(mem, root, 4, vb, l - 1);
        lemma_fill_elsewhere(
            mem,
            root,
            f,
            entries,
            vb,
            l - 1,
            if t < l { t } else { t - 1 },
        );
    }
}

/// The tree after an entry is given a new table: `made` in the frame `f`.
spec fn remade(mem: Mem, root: int, va: int, level: int, f: u64, made: Seq<u64>) -> Mem {
    filled(mem, f as int, made).insert(
        slot(table_at(mem, root, 4, va, level)->0, va, level),
        f | TABLE_FLAGS,
    )
}

/// Every entry of the new table is absent or maps a page by itself.
spec fn shallow(made: Seq<u64>, level: int) -> bool {
    &&& made.len() == 512
    &&& forall|i: int|
        0 <= i < 512 ==> !is_present(#[trigger] made[i]) || level == 1 || is_huge(made[i], level)
}

/// What `lemma_remade_walk` needs.
spec fn remade_ok(
    mem: Mem,
    root: int,
    va: int,
    level: int,
    f: u64,
    made: Seq<u64>,
    vb: int,
    t: int,
) -> bool {
    &&& is_frame(root)
    &&& tree(mem, root)
    &&& is_frame(f as int)
    &&& unused(mem, root, f as int)
    &&& 0 <= va
    &&& 0 <= vb
    &&& 2 <= level <= 4
    &&& 1 <= t <= 4
    &&& table_at(mem, root, 4, va, level) is Some
    &&& shallow(made, level - 1)
}

/// The entries that a walk into the new table reads.
proof fn lemma_remade_reads(
    mem: Mem,
    root: int,
    va: int,
    level: int,
    f: u64,
    made: Seq<u64>,
    vb: int,
)
    requires
        remade_ok(mem, root, va, level, f, made, vb, 1),
        same_entry(va, vb, level),
    ensures
        ({
            let w = remade(mem, root, va, level, f, made);
            let a = table_at(mem, root, 4, va, level)->0;
            &&& w[slot(a, vb, level)] == f | TABLE_FLAGS
            &&& w[slot(f as int, vb, level - 1)] == made[index(vb, level - 1)]
            &&& 0 <= index(vb, level - 1) < 512
        }),
{
    let a = table_at(mem, root, 4, va, level)->0;
    lemma_parts(va, vb, level);
    lemma_tables_are_frames(mem, root, 4, va, level);
    let at = slot(f as int, vb, level - 1);
    lemma_number(vb, level - 1);
    assert(in_table(f as int, at));
    if at == slot(a, va, level) {
        lemma_slots(f as int, vb, level - 1, a, va, level);
        assert(table_at(mem, root, 4, va, level) != Some(f as int));
    }
    assert((at - f as int) / 8 == index(vb, level - 1));
}

/// A walk by the entry goes on in the new table.
proof fn lemma_remade_here(
    mem: Mem,
    root: int,
    va: int,
    level: int,
    f: u64,
    made: Seq<u64>,
    vb: int,
    t: int,
)
    requires
        remade_ok(mem, root, va, level, f, made, vb, t),
        same_entry(va, vb, level),
    ensures
        ({
            let w = remade(mem, root, va, level, f, made);
            let m = made[index(vb, level - 1)];
            &&& leaf(w, root, 4, vb) == if is_present(m) { Some(Leaf { level: level - 1, entry: m }) } else { None }
            &&& table_at(w, root, 4, vb, t) == if t >= level {
                table_at(mem, root, 4, vb, t)
            } else if t == level - 1 {
                Some(f as int)
            } else {
                None
            }
        }),
{
    let mid = filled(mem, f as int, made);
    let a = table_at(mem, root, 4, va, level)->0;
    let w = remade(mem, root, va, level, f, made);
    lemma_filled_same(mem, root, f as int, made);
    assert(table_at(mid, root, 4, va, level) == Some(a));
    lemma_remade_reads(mem, root, va, level, f, made, vb);
    lemma_top_table(mid, root, vb);
    lemma_write_here(mid, root, va, level, f | TABLE_FLAGS, vb, 4, t);
    lemma_into_frame(w, a, level, vb, f, t);
    if t == level {
        lemma_own_table(w, a, level, vb);
        lemma_parts(va, vb, level);
        lemma_same_path(mem, root, 4, va, vb, level);
    } else if t > level {
        assert(table_at(mid, root, 4, vb, t) == table_at(mem, root, 4, vb, t));
    }
}

/// The first table of a walk.
proof fn lemma_own_table(mem: Mem, table: int, level: int, va: int)
    ensures
        table_at(mem, table, level, va, level) == Some(table),
{
}

/// The walk of every address starts at the root.
proof fn lemma_top_table(mem: Mem, root: int, va: int)
    ensures
        table_at(mem, root, 4, va, 4) == Some(root),
{
}

/// The walk of `vb` after an entry on the walk of `va` is given a new table:
/// one that does not come by the entry is as before, one that does goes on in
/// the new table.
proof fn lemma_remade_walk(
    mem: Mem,
    root: int,
    va: int,
    level: int,
    f: u64,
    made: Seq<u64>,
    vb: int,
    t: int,
)
    requires
        remade_ok(mem, root, va, level, f, made, vb, t),
    ensures
        ({
            let w = remade(mem, root, va, level, f, made);
            let m = made[index(vb, level - 1)];
            if same_entry(va, vb, level) {
                &&& leaf(w, root, 4, vb) == if is_present(m) { Some(Leaf { level: level - 1, entry: m }) } else { None }
                &&& table_at(w, root, 4, vb, t) == if t >= level {
                    table_at(mem, root, 4, vb, t)
                } else if t == level - 1 {
                    Some(f as int)
                } else {
                    None
                }
            } else {
                &&& leaf(w, root, 4, vb) == leaf(mem, root, 4, vb)
                &&& table_at(w, root, 4, vb, t) == table_at(mem, root, 4, vb, t)
            }
        }),
{
    if same_entry(va, vb, level) {
        lemma_remade_here(mem, root, va, level, f, made, vb, t);
    } else {
        let mid = filled(mem, f as int, made);
        let a = table_at(mem, root, 4, va, level)->0;
        lemma_filled_same(mem, root, f as int, made);
        lemma_top_table(mem, root, vb);
        lemma_top_table(mid, root, vb);
        lemma_fill_elsewhere(mem, root, f as int, made, vb, 4, t);
        assert(table_at(mid, root, 4, va, level) == Some(a));
        lemma_write_elsewhere(mid, root, va, level, f | TABLE_FLAGS, vb, 4, t);
    }
}

/// Filling a frame that is no table changes no table of the tree.
proof fn lemma_filled_same(mem: Mem, root: int, f: int, made: Seq<u64>)
    requires
        is_frame(root),
        tree(mem, root),
        is_frame(f),
        unused(mem, root, f),
    ensures
        tree(filled(mem, f, made), root),
        forall|x: int, s: int|
            0 <= x && 1 <= s <= 4 ==> #[trigger] table_at(filled(mem, f, made), root, 4, x, s)
                == table_at(mem, root, 4, x, s),
{
    let mid = filled(mem, f, made);
    assert forall|x: int, s: int| 0 <= x && 1 <= s <= 4 implies #[trigger] table_at(
        mid,
        root,
        4,
        x,
        s,
    ) == table_at(mem, root, 4, x, s) by {
        lemma_fill_elsewhere(mem, root, f, made, x, 4, s);
    }
    assert forall|x: int, y: int, s: int, u: int|
        #![trigger table_at(mid, root, 4, x, s), table_at(mid, root, 4, y, u)]
        0 <= x && 0 <= y && 1 <= s <= 4 && 1 <= u <= 4 && table_at(mid, root, 4, x, s) is Some
            && table_at(mid, root, 4, x, s) == table_at(mid, root, 4, y, u) implies s == u
        && same_table(x, y, s) by {
        assert(table_at(mem, root, 4, x, s) == table_at(mem, root, 4, y, u));
    }
}

/// A walk through an entry that names a frame goes on there, and ends at an
/// entry that is absent or maps a page by itself.
proof fn lemma_into_frame(w: Mem, a: int, level: int, vb: int, f: u64, t: int)
    requires
        2 <= level <= 4,
        1 <= t <= 4,
        is_frame(f as int),
        w[slot(a, vb, level)] == f | TABLE_FLAGS,
        ({
            let m = w[slot(f as int, vb, level - 1)];
            !is_present(m) || level - 1 == 1 || is_huge(m, level - 1)
        }),
    ensures
        ({
            let m = w[slot(f as int, vb, level - 1)];
            &&& leaf(w, a, level, vb) == if is_present(m) { Some(Leaf { level: level - 1, entry: m }) } else { None }
            &&& t < level ==> table_at(w, a, level, vb, t) == if t == level - 1 {
                Some(f as int)
            } else {
                None
            }
        }),
{
    lemma_table_flags(f);
    let e = w[slot(a, vb, level)];
    assert(is_present(e) && !is_huge(e, level) && address(e) == f);
    assert(leaf(w, a, level, vb) == leaf(w, f as int, level - 1, vb));
    if t < level {
        assert(table_at(w, a, level, vb, t) == table_at(w, f as int, level - 1, vb, t));
    }
}

/// The flags of an entry that names a table: present, not huge.
proof fn lemma_table_flags(f: u64)
    by (bit_vector)
    requires
        f % 4096 == 0,
        f < 0x10_0000_0000_0000,
    ensures
        (f | 0x23u64) & 1 != 0,
        (f | 0x23u64) & 0x80 == 0,
        (f | 0x23u64) & 0x000f_ffff_ffff_f000 == f,
{
}

/// Giving an entry a new table keeps the tree one.
proof fn lemma_remade_tree(mem: Mem, root: int, va: int, level: int, f: u64, made: Seq<u64>)
    requires
        is_frame(root),
        tree(mem, root),
        is_frame(f as int),
        unused(mem, root, f as int),
        0 <= va,
        2 <= level <= 4,
        table_at(mem, root, 4, va, level) is Some,
        shallow(made, level - 1),
    ensures
        tree(remade(mem, root, va, level, f, made), root),
        forall|g: int| g != f && #[trigger] unused(mem, root, g) ==> unused(
            remade(mem, root, va, level, f, made),
            root,
            g,
        ),
{
    let w = remade(mem, root, va, level, f, made);
    assert forall|x: int, y: int, s: int, u: int|
        #![trigger table_at(w, root, 4, x, s), table_at(w, root, 4, y, u)]
        0 <= x && 0 <= y && 1 <= s <= 4 && 1 <= u <= 4 && table_at(w, root, 4, x, s) is Some
            && table_at(w, root, 4, x, s) == table_at(w, root, 4, y, u) implies s == u
        && same_table(x, y, s) by {
        lemma_remade_walk(mem, root, va, level, f, made, x, s);
        lemma_remade_walk(mem, root, va, level, f, made, y, u);
        if table_at(w, root, 4, x, s) == Some(f as int) {
            // Only at the new place.
            assert(same_entry(va, x, level) && s == level - 1);
            assert(same_entry(va, y, level) && u == level - 1);
            lemma_parts(x, y, level - 1);
        } else {
            assert(table_at(mem, root, 4, x, s) == table_at(mem, root, 4, y, u));
        }
    }
    assert forall|g: int| g != f && #[trigger] unused(mem, root, g) implies unused(w, root, g) by {
        assert forall|x: int, s: int| 0 <= x && 1 <= s <= 4 implies #[trigger] table_at(
            w,
            root,
            4,
            x,
            s,
        ) != Some(g) by {
            lemma_remade_walk(mem, root, va, level, f, made, x, s);
        }
    }
}

/// The tree after the last entry on the walk of `va` is written.
proof fn lemma_written_leaf(mem: Mem, root: int, va: int, value: u64, vb: int)
    requires
        is_frame(root),
        tree(mem, root),
        0 <= va,
        0 <= vb,
        table_at(mem, root, 4, va, 1) is Some,
    ensures
        ({
            let w = mem.insert(slot(table_at(mem, root, 4, va, 1)->0, va, 1), value);
            if same_entry(va, vb, 1) {
                leaf(w, root, 4, vb) == if is_present(value) { Some(Leaf { level: 1, entry: value }) } else { None }
            } else {
                leaf(w, root, 4, vb) == leaf(mem, root, 4, vb)
            }
        }),
{
    if same_entry(va, vb, 1) {
        lemma_write_here(mem, root, va, 1, value, vb, 4, 1);
        lemma_parts(va, vb, 1);
    } else {
        lemma_write_elsewhere(mem, root, va, 1, value, vb, 4, 1);
    }
}

/// Writing a last entry keeps the tree one.
proof fn lemma_written_tree(mem: Mem, root: int, va: int, value: u64)
    requires
        is_frame(root),
        tree(mem, root),
        0 <= va,
        table_at(mem, root, 4, va, 1) is Some,
    ensures
        tree(mem.insert(slot(table_at(mem, root, 4, va, 1)->0, va, 1), value), root),
        forall|g: int| #[trigger]
            unused(mem, root, g) ==> unused(
                mem.insert(slot(table_at(mem, root, 4, va, 1)->0, va, 1), value),
                root,
                g,
            ),
{
    let w = mem.insert(slot(table_at(mem, root, 4, va, 1)->0, va, 1), value);
    assert forall|x: int, s: int| 0 <= x && 1 <= s <= 4 implies #[trigger] table_at(
        w,
        root,
        4,
        x,
        s,
    ) == table_at(mem, root, 4, x, s) by {
        if same_entry(va, x, 1) {
            lemma_write_here(mem, root, va, 1, value, x, 4, s);
            lemma_parts(va, x, 1);
            lemma_same_path(mem, root, 4, va, x, 1);
        } else {
            lemma_write_elsewhere(mem, root, va, 1, value, x, 4, s);
        }
    }
    assert forall|x: int, y: int, s: int, u: int|
        #![trigger table_at(w, root, 4, x, s), table_at(w, root, 4, y, u)]
        0 <= x && 0 <= y && 1 <= s <= 4 && 1 <= u <= 4 && table_at(w, root, 4, x, s) is Some
            && table_at(w, root, 4, x, s) == table_at(w, root, 4, y, u) implies s == u
        && same_table(x, y, s) by {
        assert(table_at(mem, root, 4, x, s) == table_at(mem, root, 4, y, u));
    }
}

/// What a walk finds does not depend on where on its way it is observed.
proof fn lemma_leaf_below(mem: Mem, table: int, level: int, va: int, t: int)
    requires
        1 <= t <= level <= 4,
        table_at(mem, table, level, va, t) is Some,
    ensures
        leaf(mem, table, level, va) == leaf(mem, table_at(mem, table, level, va, t)->0, t, va),
    decreases level,
{
    if t < level {
        lemma_leaf_below(mem, address(mem[slot(table, va, level)]) as int, level - 1, va, t);
    }
}

/// The physical address that a leaf entry gives for `va`.
pub open spec fn translated(l: Option<Leaf>, va: int) -> Option<u64> {
    match l {
        None => None,
        Some(Leaf { level, entry: e }) => Some((address(e) + va % span(level)) as u64),
    }
}

/// The flags that a leaf entry gives.
pub open spec fn leaf_flags(l: Option<Leaf>) -> Option<u64> {
    match l {
        None => None,
        Some(Leaf { level, entry: e }) => Some(
            if level == 1 { e & FLAG_BITS } else { e & FLAG_BITS & !HUGE_PAGE },
        ),
    }
}

/// Translating and querying an address give what its leaf entry says, and
/// change nothing.
pub proof fn law_translation_is_the_leaf(env: Env, table: int, level: int, va: u64)
    requires
        1 <= level <= 4,
    ensures
        walk(Goal::Translate, env, table, level, va) == (
            PageResult::Address(translated(leaf(env.mem, table, level, va as int), va as int)),
            env,
        ),
        walk(Goal::Query, env, table, level, va) == (
            PageResult::Flags(leaf_flags(leaf(env.mem, table, level, va as int))),
            env,
        ),
    decreases level,
{
    let e = env.mem[slot(table, va as int, level)];
    if is_present(e) && level > 1 && !is_huge(e, level) {
        law_translation_is_the_leaf(env, address(e) as int, level - 1, va);
    }
}

/// What a walk that comes by an entry without a table finds: what the entry
/// says.
proof fn lemma_leaf_at(mem: Mem, root: int, va: int, level: int, vb: int)
    requires
        1 <= level <= 4,
        0 <= va,
        0 <= vb,
        table_at(mem, root, 4, va, level) is Some,
        same_entry(va, vb, level),
        ({
            let e = mem[slot(table_at(mem, root, 4, va, level)->0, va, level)];
            level == 1 || !is_present(e) || is_huge(e, level)
        }),
    ensures
        ({
            let e = mem[slot(table_at(mem, root, 4, va, level)->0, va, level)];
            leaf(mem, root, 4, vb) == if is_present(e) { Some(Leaf { level, entry: e }) } else { None }
        }),
{
    lemma_parts(va, vb, level);
    lemma_same_path(mem, root, 4, va, vb, level);
    lemma_leaf_below(mem, root, 4, vb, level);
}

/// The page tables stay usable when a table is made: `remade` is what
/// happens to them.
proof fn lemma_made(env: Env, root: int, table: int, level: int, va: int, made: Seq<u64>) -> (r: Env)
    requires
        is_frame(root),
        tree(env.mem, root),
        fresh(env, root),
        0 <= va,
        2 <= level <= 4,
        table_at(env.mem, root, 4, va, level) == Some(table),
        env.frame() is Some,
        shallow(made, level - 1),
    ensures
        ({
            let f = env.frame()->0;
            &&& is_frame(f as int)
            &&& unused(env.mem, root, f as int)
            &&& r == env.frame_taken().fill(f as int, made).write(
                slot(table, va, level),
                f | TABLE_FLAGS,
            )
            &&& r.mem == remade(env.mem, root, va, level, f, made)
            &&& tree(r.mem, root)
            &&& fresh(r, root)
            &&& table_at(r.mem, root, 4, va, level - 1) == Some(f as int)
        }),
{
    let f = env.frame()->0;
    let r = env.frame_taken().fill(f as int, made).write(slot(table, va, level), f | TABLE_FLAGS);
    assert(env.frames[0] == Some(f));
    lemma_remade_tree(env.mem, root, va, level, f, made);
    lemma_remade_walk(env.mem, root, va, level, f, made, va, level - 1);
    assert forall|i: int| 0 <= i < r.frames.len() && (#[trigger] r.frames[i]) is Some implies is_frame(
        r.frames[i]->0 as int,
    ) && unused(r.mem, root, r.frames[i]->0 as int) by {
        let g = env.frames[i + 1];
        assert(g == r.frames[i]);
        assert(env.frames[0] != g);
        assert(unused(env.mem, root, g->0 as int));
    }
    assert forall|i: int, j: int|
        0 <= i < j < r.frames.len() && (#[trigger] r.frames[i]) is Some && (
        #[trigger] r.frames[j]) is Some implies r.frames[i] != r.frames[j] by {
        assert(env.frames[i + 1] != env.frames[j + 1]);
    }
    r
}

/// A walk that makes a table: it fails without a frame, and goes on in the
/// new table otherwise.
proof fn lemma_walk_makes(goal: Goal, env: Env, table: int, level: int, va: u64)
    requires
        2 <= level <= 4,
        decision(goal, level, env.mem[slot(table, va as int, level)], va) is Make,
    ensures
        match env.frame() {
            None => walk(goal, env, table, level, va).0 is Failed,
            Some(f) => walk(goal, env, table, level, va) == walk(
                goal,
                env.frame_taken().fill(
                    f as int,
                    made_entries(goal, level, env.mem[slot(table, va as int, level)]),
                ).write(slot(table, va as int, level), f | TABLE_FLAGS),
                f as int,
                level - 1,
                va,
            ),
        },
{
    reveal_with_fuel(walk, 4);
    reveal_with_fuel(make, 4);
    reveal_with_fuel(link, 4);
}

/// Making an empty table below an entry that is not present changes no
/// translation.
proof fn lemma_empty_table_keeps(env: Env, root: int, table: int, level: int, v: int, vb: int)
    requires
        is_frame(root),
        tree(env.mem, root),
        fresh(env, root),
        0 <= v,
        0 <= vb,
        2 <= level <= 4,
        table_at(env.mem, root, 4, v, level) == Some(table),
        env.frame() is Some,
        !is_present(env.mem[slot(table, v, level)]),
    ensures
        leaf(
            remade(env.mem, root, v, level, env.frame()->0, Seq::new(512, |i: int| 0u64)),
            root,
            4,
            vb,
        ) == leaf(env.mem, root, 4, vb),
{
    let none = Seq::new(512, |i: int| 0u64);
    let f = env.frame()->0;
    assert(env.frames[0] == Some(f));
    lemma_zero_entry();
    lemma_remade_walk(env.mem, root, v, level, f, none, vb, 1);
    lemma_number(vb, level - 1);
    if same_entry(v, vb, level) {
        lemma_leaf_at(env.mem, root, v, level, vb);
    }
}

/// Splitting a huge page changes no translation and no attribute.
proof fn lemma_split_keeps(env: Env, root: int, table: int, level: int, v: int, vb: int)
    requires
        is_frame(root),
        tree(env.mem, root),
        fresh(env, root),
        0 <= v,
        0 <= vb,
        2 <= level <= 3,
        table_at(env.mem, root, 4, v, level) == Some(table),
        env.frame() is Some,
        is_present(env.mem[slot(table, v, level)]),
        is_huge(env.mem[slot(table, v, level)], level),
        address(env.mem[slot(table, v, level)]) + span(level) <= ADDRESS_LIMIT,
    ensures
        alike(
            leaf(env.mem, root, 4, vb),
            leaf(
                remade(
                    env.mem,
                    root,
                    v,
                    level,
                    env.frame()->0,
                    split_entries(env.mem[slot(table, v, level)], level),
                ),
                root,
                4,
                vb,
            ),
            vb,
        ),
{
    let e = env.mem[slot(table, v, level)];
    let made = split_entries(e, level);
    let f = env.frame()->0;
    assert(env.frames[0] == Some(f));
    lemma_split_child(e, level, vb);
    lemma_remade_walk(env.mem, root, v, level, f, made, vb, 1);
    if same_entry(v, vb, level) {
        lemma_leaf_at(env.mem, root, v, level, vb);
    }
}

/// A page that was not mapped is mapped as asked, and every other page is
/// mapped as before.
#[verifier::rlimit(60)]
pub proof fn law_map_page(env: Env, root: int, table: int, level: int, va: u64, entry: u64, post: Env)
    requires
        is_frame(root),
        tree(env.mem, root),
        fresh(env, root),
        1 <= level <= 4,
        table_at(env.mem, root, 4, va as int, level) == Some(table),
        leaf(env.mem, root, 4, va as int) is None,
        is_present(entry),
        walk(Goal::MapTo { entry }, env, table, level, va) == (PageResult::Changed, post),
    ensures
        leaf(post.mem, root, 4, va as int) == Some(Leaf { level: 1, entry }),
        forall|vb: int|
            0 <= vb && !same_entry(va as int, vb, 1) ==> #[trigger] leaf(post.mem, root, 4, vb)
                == leaf(env.mem, root, 4, vb),
        tree(post.mem, root),
        fresh(post, root),
        table_at(post.mem, root, 4, va as int, 1) is Some,
    decreases level,
{
    let goal = Goal::MapTo { entry };
    let v = va as int;
    let at = slot(table, v, level);
    let e = env.mem[at];
    lemma_leaf_below(env.mem, root, 4, v, level);
    if level == 1 {
        lemma_written_tree(env.mem, root, v, entry);
        lemma_written_leaf(env.mem, root, v, entry, v);
        lemma_write_here(env.mem, root, v, 1, entry, v, 4, 1);
        assert forall|vb: int| 0 <= vb && !same_entry(v, vb, 1) implies #[trigger] leaf(
            post.mem,
            root,
            4,
            vb,
        ) == leaf(env.mem, root, 4, vb) by {
            lemma_written_leaf(env.mem, root, v, entry, vb);
        }
    } else if is_present(e) {
        lemma_step(env.mem, root, 4, v, level - 1);
        law_map_page(env, root, address(e) as int, level - 1, va, entry, post);
    } else {
        let none = Seq::new(512, |i: int| 0u64);
        assert(made_entries(goal, level, e) =~= none);
        lemma_zero_entry();
        lemma_walk_makes(goal, env, table, level, va);
        let mid = lemma_made(env, root, table, level, v, none);
        let f = env.frame()->0;
        assert forall|vb: int| 0 <= vb implies #[trigger] leaf(mid.mem, root, 4, vb) == leaf(
            env.mem,
            root,
            4,
            vb,
        ) by {
            lemma_empty_table_keeps(env, root, table, level, v, vb);
        }
        law_map_page(mid, root, f as int, level - 1, va, entry, post);
    }
}

/// An empty entry is not present.
proof fn lemma_zero_entry()
    by (bit_vector)
    ensures
        0u64 & 1 == 0,
{
}

/// A mapped 4 KiB page that is unmapped is mapped no more, its frame is given
/// back, and every other page is mapped as before.
pub proof fn law_unmap_page(env: Env, root: int, table: int, level: int, va: u64)
    requires
        is_frame(root),
        tree(env.mem, root),
        1 <= level <= 4,
        table_at(env.mem, root, 4, va as int, level) == Some(table),
        leaf(env.mem, root, 4, va as int) is Some,
        leaf(env.mem, root, 4, va as int)->0.level == 1,
    ensures
        ({
            let r = walk(Goal::Unmap, env, table, level, va);
            &&& r.0 == PageResult::Unmapped(address(leaf(env.mem, root, 4, va as int)->0.entry))
            &&& leaf(r.1.mem, root, 4, va as int) is None
            &&& forall|vb: int|
                0 <= vb && !same_entry(va as int, vb, 1) ==> #[trigger] leaf(r.1.mem, root, 4, vb)
                    == leaf(env.mem, root, 4, vb)
            &&& tree(r.1.mem, root)
        }),
    decreases level,
{
    let v = va as int;
    let e = env.mem[slot(table, v, level)];
    lemma_leaf_below(env.mem, root, 4, v, level);
    if level == 1 {
        lemma_zero_entry();
        lemma_written_tree(env.mem, root, v, 0);
        lemma_written_leaf(env.mem, root, v, 0, v);
        let post = walk(Goal::Unmap, env, table, level, va).1;
        assert forall|vb: int| 0 <= vb && !same_entry(v, vb, 1) implies #[trigger] leaf(
            post.mem,
            root,
            4,
            vb,
        ) == leaf(env.mem, root, 4, vb) by {
            lemma_written_leaf(env.mem, root, v, 0, vb);
        }
    } else {
        lemma_step(env.mem, root, 4, v, level - 1);
        law_unmap_page(env, root, address(e) as int, level - 1, va);
    }
}

/// Unmapping a page that was just mapped gives back its frame and leaves
/// every address translated as before the mapping.
pub proof fn law_unmap_undoes_map(env: Env, root: int, va: u64, entry: u64, mapped: Env, vb: int)
    requires
        is_frame(root),
        tree(env.mem, root),
        fresh(env, root),
        leaf(env.mem, root, 4, va as int) is None,
        is_present(entry),
        walk(Goal::MapTo { entry }, env, root, 4, va) == (PageResult::Changed, mapped),
        0 <= vb,
    ensures
        walk(Goal::Unmap, mapped, root, 4, va).0 == PageResult::Unmapped(address(entry)),
        leaf(walk(Goal::Unmap, mapped, root, 4, va).1.mem, root, 4, vb) == leaf(
            env.mem,
            root,
            4,
            vb,
        ),
{
    lemma_top_table(env.mem, root, va as int);
    law_map_page(env, root, root, 4, va, entry, mapped);
    lemma_top_table(mapped.mem, root, va as int);
    law_unmap_page(mapped, root, root, 4, va);
    if same_entry(va as int, vb, 1) {
        let post = walk(Goal::Unmap, mapped, root, 4, va).1;
        lemma_same_leaf(env.mem, root, 4, va as int, vb);
        lemma_same_leaf(post.mem, root, 4, va as int, vb);
    }
}

/// Addresses of one page are mapped alike.
proof fn lemma_same_leaf(mem: Mem, table: int, level: int, va: int, vb: int)
    requires
        1 <= level <= 4,
        0 <= va,
        0 <= vb,
        same_entry(va, vb, 1),
    ensures
        leaf(mem, table, level, va) == leaf(mem, table, level, vb),
    decreases level,
{
    lemma_same_above(va, vb, 1, level);
    if level > 1 {
        lemma_same_leaf(mem, address(mem[slot(table, va, level)]) as int, level - 1, va, vb);
    }
}

/// Two leaf entries give `va` the same physical address and the same
/// attributes, of those that a split carries over.
pub open spec fn alike(a: Option<Leaf>, b: Option<Leaf>, va: int) -> bool {
    match (a, b) {
        (None, None) => true,
        (Some(Leaf { level: s, entry: e }), Some(Leaf { level: t, entry: f })) => {
            &&& address(e) + va % span(s) == address(f) + va % span(t)
            &&& e & SPLIT_ATTRS == f & SPLIT_ATTRS
        },
        _ => false,
    }
}

/// The parts of an entry that a split makes.
proof fn lemma_child(a: u64, e: u64)
    by (bit_vector)
    requires
        a % 4096 == 0,
        a < 0x10_0000_0000_0000,
        e & 1 != 0,
    ensures
        (a | (e & 0x8000_0000_0000_011f)) & 0x8000_0000_0000_011f == e & 0x8000_0000_0000_011f,
        (a | (e & 0x8000_0000_0000_011f)) & 1 != 0,
        (a | (e & 0x8000_0000_0000_011f)) & 0x000f_ffff_ffff_f000 == a,
        (a | (e & 0x8000_0000_0000_011f | 0x80)) & 0x8000_0000_0000_011f == e
            & 0x8000_0000_0000_011f,
        (a | (e & 0x8000_0000_0000_011f | 0x80)) & 1 != 0,
        (a | (e & 0x8000_0000_0000_011f | 0x80)) & 0x80 != 0,
        (a | (e & 0x8000_0000_0000_011f | 0x80)) & 0x000f_ffff_ffff_f000 == a,
{
}

/// The part of an address below an entry is its part below the next entry and
/// the index there.
proof fn lemma_offset(va: int, level: int)
    requires
        2 <= level <= 3,
        0 <= va,
    ensures
        va % span(level) == index(va, level - 1) * span(level - 1) + va % span(level - 1),
        0 <= index(va, level - 1) < 512,
{
    if level == 3 {
        assert(va % 0x4000_0000 == (va / 0x20_0000 % 512) * 0x20_0000 + va % 0x20_0000);
    } else {
        assert(va % 0x20_0000 == (va / 0x1000 % 512) * 0x1000 + va % 0x1000);
    }
}

/// An entry that a split makes maps its part of the huge page.
proof fn lemma_split_child(e: u64, level: int, vb: int)
    requires
        2 <= level <= 3,
        is_present(e),
        is_huge(e, level),
        address(e) + span(level) <= ADDRESS_LIMIT,
        0 <= vb,
    ensures
        ({
            let m = split_entries(e, level)[index(vb, level - 1)];
            &&& is_present(m)
            &&& level - 1 == 1 || is_huge(m, level - 1)
            &&& alike(Some(Leaf { level, entry: e }), Some(Leaf { level: level - 1, entry: m }), vb)
        }),
        shallow(split_entries(e, level), level - 1),
{
    lemma_entry_parts(e, 0, 0);
    lemma_offset(vb, level);
    assert(span(level) == 512 * span(level - 1));
    assert forall|i: int| 0 <= i < 512 implies {
        let m = #[trigger] split_entries(e, level)[i];
        &&& is_present(m)
        &&& level - 1 == 1 || is_huge(m, level - 1)
        &&& address(m) == address(e) + i * span(level - 1)
        &&& m & SPLIT_ATTRS == e & SPLIT_ATTRS
    } by {
        let a = (address(e) + i * span(level - 1)) as u64;
        assert(0 <= i * span(level - 1) < span(level)) by {
            if level == 3 {
                assert(i * 0x20_0000 < 0x4000_0000);
            } else {
                assert(i * 0x1000 < 0x20_0000);
            }
        }
        assert(a % 4096 == 0) by {
            if level == 3 {
                assert((i * 0x20_0000) % 4096 == 0);
            } else {
                assert((i * 0x1000) % 4096 == 0);
            }
        }
        lemma_child(a, e);
    }
}

/// The attributes of an entry that is made uncacheable.
proof fn lemma_uncached(e: u64)
    by (bit_vector)
    ensures
        (e | 0x10 | 0x8) & 0x000f_ffff_ffff_f000 == e & 0x000f_ffff_ffff_f000,
        (e | 0x10 | 0x8) & 0x10 != 0,
        (e | 0x10 | 0x8) & 0x8 != 0,
        (e | 0x10 | 0x8) & 1 == e & 1,
        (e | 0x10 | 0x8) & 0x8000_0000_0000_0107 == e & 0x8000_0000_0000_0107,
{
}

/// No huge page on the walk of `va` reaches past the physical addresses.
pub open spec fn splittable(l: Option<Leaf>) -> bool {
    l is Some ==> address(l->0.entry) + span(l->0.level) <= ADDRESS_LIMIT
}

/// A mapped page that is made uncacheable keeps its physical address and gets
/// the attributes; every other page keeps its address and attributes, also
/// where a huge page is split.
#[verifier::rlimit(60)]
pub proof fn law_set_page_uncached(env: Env, root: int, table: int, level: int, va: u64, post: Env)
    requires
        is_frame(root),
        tree(env.mem, root),
        fresh(env, root),
        1 <= level <= 4,
        table_at(env.mem, root, 4, va as int, level) == Some(table),
        leaf(env.mem, root, 4, va as int) is Some,
        splittable(leaf(env.mem, root, 4, va as int)),
        walk(Goal::Uncache, env, table, level, va) == (PageResult::Changed, post),
    ensures
        ({
            let before = leaf(env.mem, root, 4, va as int);
            let now = leaf(post.mem, root, 4, va as int);
            &&& now is Some
            &&& now->0.level == 1
            &&& address(now->0.entry) + va as int % 4096 == address(before->0.entry) + va as int % span(
                before->0.level,
            )
            &&& now->0.entry & NO_CACHE != 0
            &&& now->0.entry & WRITE_THROUGH != 0
        }),
        forall|vb: int|
            0 <= vb && !same_entry(va as int, vb, 1) ==> alike(
                leaf(env.mem, root, 4, vb),
                #[trigger] leaf(post.mem, root, 4, vb),
                vb,
            ),
        forall|vb: int|
            0 <= vb && splittable(leaf(env.mem, root, 4, vb)) ==> splittable(
                #[trigger] leaf(post.mem, root, 4, vb),
            ),
        tree(post.mem, root),
        fresh(post, root),
    decreases level,
{
    let v = va as int;
    let at = slot(table, v, level);
    let e = env.mem[at];
    lemma_leaf_below(env.mem, root, 4, v, level);
    if level == 1 {
        let new = e | NO_CACHE | WRITE_THROUGH;
        lemma_uncached(e);
        lemma_written_tree(env.mem, root, v, new);
        lemma_written_leaf(env.mem, root, v, new, v);
        assert forall|vb: int| 0 <= vb && !same_entry(v, vb, 1) implies alike(
            leaf(env.mem, root, 4, vb),
            #[trigger] leaf(post.mem, root, 4, vb),
            vb,
        ) by {
            lemma_written_leaf(env.mem, root, v, new, vb);
        }
        assert forall|vb: int| 0 <= vb && splittable(leaf(env.mem, root, 4, vb)) implies splittable(
            #[trigger] leaf(post.mem, root, 4, vb),
        ) by {
            lemma_written_leaf(env.mem, root, v, new, vb);
        }
    } else if is_huge(e, level) {
        let made = split_entries(e, level);
        assert(made_entries(Goal::Uncache, level, e) == made);
        lemma_split_child(e, level, v);
        lemma_walk_makes(Goal::Uncache, env, table, level, va);
        let mid = lemma_made(env, root, table, level, v, made);
        let f = env.frame()->0;
        assert forall|vb: int| 0 <= vb implies alike(
            leaf(env.mem, root, 4, vb),
            #[trigger] leaf(mid.mem, root, 4, vb),
            vb,
        ) by {
            lemma_split_keeps(env, root, table, level, v, vb);
        }
        assert(alike(leaf(env.mem, root, 4, v), leaf(mid.mem, root, 4, v), v));
        lemma_remade_walk(env.mem, root, v, level, f, made, v, 1);
        lemma_split_room(e, level, v);
        law_set_page_uncached(mid, root, f as int, level - 1, va, post);
        assert forall|vb: int| 0 <= vb && splittable(leaf(env.mem, root, 4, vb)) implies splittable(
            #[trigger] leaf(post.mem, root, 4, vb),
        ) by {
            lemma_remade_walk(env.mem, root, v, level, f, made, vb, 1);
            lemma_split_room(e, level, vb);
        }
        assert forall|vb: int| 0 <= vb && !same_entry(v, vb, 1) implies alike(
            leaf(env.mem, root, 4, vb),
            #[trigger] leaf(post.mem, root, 4, vb),
            vb,
        ) by {
            assert(alike(leaf(env.mem, root, 4, vb), leaf(mid.mem, root, 4, vb), vb));
        }
    } else {
        lemma_step(env.mem, root, 4, v, level - 1);
        law_set_page_uncached(env, root, address(e) as int, level - 1, va, post);
    }
}

/// A page that a split makes ends inside the physical addresses.
proof fn lemma_split_room(e: u64, level: int, va: int)
    requires
        2 <= level <= 3,
        is_present(e),
        is_huge(e, level),
        address(e) + span(level) <= ADDRESS_LIMIT,
        0 <= va,
    ensures
        address(split_entries(e, level)[index(va, level - 1)]) + span(level - 1) <= ADDRESS_LIMIT,
{
    lemma_split_child(e, level, va);
    lemma_offset(va, level);
}

} // verus!
