//! What mapping a user page does.

use vstd::prelude::*;
use super::mmu::{
    empty_table, lemma_table_entry, page_says, user_entry, user_link, user_make, user_walk,
    UserGoal, UserResult, ADDR_MASK, TABLE, TABLE_ENTRY, UXN, VALID,
};
use crate::memory::page_table::{filled, in_table, slot, Env, Mem};

verus! {

/// The tables that the walk of `va` from `table` on goes through.
pub open spec fn path(mem: Mem, table: int, level: int, va: u64) -> Seq<int>
    decreases level,
{
    let d = mem[slot(table, va as int, level)];
    if level <= 1 || d & VALID == 0 || d & TABLE == 0 {
        seq![table]
    } else {
        seq![table] + path(mem, (d & ADDR_MASK) as int, level - 1, va)
    }
}

/// The tables that the walk goes through are whole frames and distinct, and
/// so are the frames that the allocator gives, none of which is one of the
/// tables.
pub open spec fn apart(env: Env, table: int, level: int, va: u64) -> bool {
    let p = path(env.mem, table, level, va);
    &&& forall|i: int| 0 <= i < p.len() ==> #[trigger] p[i] % 4096 == 0
    &&& forall|i: int, j: int| 0 <= i < j < p.len() ==> p[i] != p[j]
    &&& forall|k: int|
        0 <= k < env.frames.len() && (#[trigger] env.frames[k]) is Some ==> env.frames[k]->0 % 4096
            == 0 && env.frames[k]->0 < 0x1_0000_0000_0000
    &&& forall|k: int, i: int|
        0 <= k < env.frames.len() && (#[trigger] env.frames[k]) is Some && 0 <= i < p.len()
            ==> env.frames[k]->0 != #[trigger] p[i]
    &&& forall|k: int, l: int|
        0 <= k < l < env.frames.len() && (#[trigger] env.frames[k]) is Some && (
        #[trigger] env.frames[l]) is Some ==> env.frames[k] != env.frames[l]
}

/// `a` lies in none of the tables that the walk goes through, nor in a frame
/// that the allocator gives.
spec fn elsewhere(env: Env, table: int, level: int, va: u64, a: int) -> bool {
    let p = path(env.mem, table, level, va);
    &&& forall|i: int| 0 <= i < p.len() ==> !(#[trigger] p[i] <= a < p[i] + 4096)
    &&& forall|k: int|
        0 <= k < env.frames.len() && (#[trigger] env.frames[k]) is Some ==> !(env.frames[k]->0 <= a
            < env.frames[k]->0 + 4096)
}

/// An entry lies in its table.
proof fn lemma_slot(table: int, va: u64, level: int)
    requires
        1 <= level <= 4,
    ensures
        in_table(table, slot(table, va as int, level)),
        0 <= (slot(table, va as int, level) - table) / 8 < 512,
{
}

/// A walk that makes a table goes on in it.
proof fn lemma_make_step(goal: UserGoal, env: Env, table: int, level: int, va: u64, f: u64, linked: Env)
    requires
        2 <= level <= 4,
        goal is MapTo,
        env.mem[slot(table, va as int, level)] & VALID == 0,
        env.frame() == Some(f),
        linked == env.frame_taken().fill(f as int, empty_table()).write(
            slot(table, va as int, level),
            f | TABLE_ENTRY,
        ),
    ensures
        user_walk(goal, env, table, level, va) == user_walk(goal, linked, f as int, level - 1, va),
{
    reveal_with_fuel(user_walk, 4);
    reveal_with_fuel(user_make, 4);
    reveal_with_fuel(user_link, 4);
    let filled = env.frame_taken().fill(f as int, empty_table());
    assert(user_walk(goal, env, table, level, va) == user_make(goal, env, table, level, va));
    assert(user_make(goal, env, table, level, va) == user_link(goal, filled, table, level, va, f));
}

/// Without a frame, nothing is mapped where a table is missing.
proof fn lemma_no_frame(goal: UserGoal, env: Env, table: int, level: int, va: u64)
    requires
        2 <= level <= 4,
        goal is MapTo,
        env.mem[slot(table, va as int, level)] & VALID == 0,
        env.frame() is None,
    ensures
        user_walk(goal, env, table, level, va) == (UserResult::OutOfMemory, env.frame_taken()),
{
    reveal_with_fuel(user_walk, 2);
    reveal_with_fuel(user_make, 2);
}

/// The walk below a table that is made: its only table is the new one.
proof fn lemma_made(env: Env, table: int, level: int, va: u64, f: u64, linked: Env)
    requires
        2 <= level <= 4,
        apart(env, table, level, va),
        env.frame() == Some(f),
        path(env.mem, table, level, va) == seq![table],
        linked == env.frame_taken().fill(f as int, empty_table()).write(
            slot(table, va as int, level),
            f | TABLE_ENTRY,
        ),
    ensures
        path(linked.mem, f as int, level - 1, va) == seq![f as int],
        apart(linked, f as int, level - 1, va),
        linked.frames == env.frames.drop_first(),
        elsewhere(linked, f as int, level - 1, va, slot(table, va as int, level)),
        linked.mem[slot(table, va as int, level)] == f | TABLE_ENTRY,
        linked.mem[slot(f as int, va as int, level - 1)] == 0,
        f as int != table,
{
    let p = path(env.mem, table, level, va);
    let at = slot(table, va as int, level);
    let below = slot(f as int, va as int, level - 1);
    lemma_slot(table, va, level);
    lemma_slot(f as int, va, level - 1);
    lemma_table_entry(0, f);
    assert(env.frames[0] == Some(f));
    assert(p[0] == table);
    assert(f as int != table);
    assert(at != below);
    assert(linked.mem[below] == 0);
    let q = path(linked.mem, f as int, level - 1, va);
    assert(q =~= seq![f as int]);
    assert forall|k: int| 0 <= k < linked.frames.len() && (#[trigger] linked.frames[k]) is Some implies
        linked.frames[k]->0 != f && linked.frames[k]->0 % 4096 == 0 && linked.frames[k]->0
        < 0x1_0000_0000_0000 && !(linked.frames[k]->0 <= at < linked.frames[k]->0 + 4096) by {
        assert(linked.frames[k] == env.frames[k + 1]);
        assert(env.frames[k + 1]->0 != p[0]);
    }
    assert forall|k: int, l: int|
        0 <= k < l < linked.frames.len() && (#[trigger] linked.frames[k]) is Some && (
        #[trigger] linked.frames[l]) is Some implies linked.frames[k] != linked.frames[l] by {
        assert(linked.frames[k] == env.frames[k + 1]);
        assert(linked.frames[l] == env.frames[l + 1]);
    }
}

/// The tables below a table of the walk are those of the walk but the first.
proof fn lemma_below(env: Env, table: int, level: int, va: u64, next: int)
    requires
        2 <= level <= 4,
        apart(env, table, level, va),
        path(env.mem, table, level, va) == seq![table] + path(env.mem, next, level - 1, va),
    ensures
        apart(env, next, level - 1, va),
        elsewhere(env, next, level - 1, va, slot(table, va as int, level)),
{
    let p = path(env.mem, table, level, va);
    let q = path(env.mem, next, level - 1, va);
    lemma_slot(table, va, level);
    assert(p[0] == table);
    assert forall|i: int| 0 <= i < q.len() implies #[trigger] q[i] == p[i + 1] by {}
    assert forall|i: int| 0 <= i < q.len() implies #[trigger] q[i] % 4096 == 0 && q[i] != table by {
        assert(p[i + 1] % 4096 == 0);
        assert(p[0] != p[i + 1]);
    }
    assert forall|i: int, j: int| 0 <= i < j < q.len() implies q[i] != q[j] by {
        assert(p[i + 1] != p[j + 1]);
    }
    assert forall|k: int, i: int|
        0 <= k < env.frames.len() && (#[trigger] env.frames[k]) is Some && 0 <= i
            < q.len() implies env.frames[k]->0 != #[trigger] q[i] by {
        assert(env.frames[k]->0 != p[i + 1]);
    }
}

/// Mapping a page changes only the tables that its walk goes through and the
/// frames that it takes.
proof fn lemma_unchanged(goal: UserGoal, env: Env, table: int, level: int, va: u64, a: int)
    requires
        1 <= level <= 4,
        apart(env, table, level, va),
        elsewhere(env, table, level, va, a),
    ensures
        user_walk(goal, env, table, level, va).1.mem[a] == env.mem[a],
    decreases level,
{
    let at = slot(table, va as int, level);
    let d = env.mem[at];
    let p = path(env.mem, table, level, va);
    lemma_slot(table, va, level);
    assert(p[0] == table);
    if level > 1 {
        if d & VALID == 0 {
            if goal is MapTo {
                match env.frame() {
                    None => {
                        lemma_no_frame(goal, env, table, level, va);
                    },
                    Some(f) => {
                        let linked = env.frame_taken().fill(f as int, empty_table()).write(
                            at,
                            f | TABLE_ENTRY,
                        );
                        assert(p =~= seq![table]);
                        lemma_made(env, table, level, va, f, linked);
                        lemma_make_step(goal, env, table, level, va, f, linked);
                        assert(env.frames[0] == Some(f));
                        assert forall|k: int|
                            0 <= k < linked.frames.len() && (
                            #[trigger] linked.frames[k]) is Some implies !(linked.frames[k]->0 <= a
                            < linked.frames[k]->0 + 4096) by {
                            assert(linked.frames[k] == env.frames[k + 1]);
                        }
                        lemma_unchanged(goal, linked, f as int, level - 1, va, a);
                    },
                }
            }
        } else if d & TABLE != 0 {
            let next = (d & ADDR_MASK) as int;
            let q = path(env.mem, next, level - 1, va);
            assert(p =~= seq![table] + q);
            lemma_below(env, table, level, va, next);
            assert forall|i: int| 0 <= i < q.len() implies !(#[trigger] q[i] <= a < q[i] + 4096) by {
                assert(p[i + 1] == q[i]);
            }
            lemma_unchanged(goal, env, next, level - 1, va, a);
        }
    }
}

/// A page that was just mapped is found by its walk.
proof fn lemma_found(entry: u64, env: Env, table: int, level: int, va: u64, post: Env, again: UserGoal)
    requires
        1 <= level <= 4,
        apart(env, table, level, va),
        user_walk(UserGoal::MapTo { entry }, env, table, level, va) == (UserResult::Mapped, post),
        entry & VALID != 0,
    ensures
        user_walk(UserGoal::Query, post, table, level, va) == (
            UserResult::Attributes(page_says(entry)),
            post,
        ),
        again is MapTo ==> user_walk(again, post, table, level, va) == (
            UserResult::AlreadyMapped,
            post,
        ),
    decreases level,
{
    let goal = UserGoal::MapTo { entry };
    let at = slot(table, va as int, level);
    let d = env.mem[at];
    let p = path(env.mem, table, level, va);
    lemma_slot(table, va, level);
    if level > 1 {
        if d & VALID == 0 {
            if env.frame() is None {
                lemma_no_frame(goal, env, table, level, va);
            }
            let f = env.frame()->0;
            let linked = env.frame_taken().fill(f as int, empty_table()).write(at, f | TABLE_ENTRY);
            assert(p =~= seq![table]);
            assert(env.frames[0] == Some(f));
            lemma_made(env, table, level, va, f, linked);
            lemma_make_step(goal, env, table, level, va, f, linked);
            lemma_table_entry(0, f);
            lemma_unchanged(goal, linked, f as int, level - 1, va, at);
            lemma_found(entry, linked, f as int, level - 1, va, post, again);
            assert(post.mem[at] == f | TABLE_ENTRY);
        } else {
            let next = (d & ADDR_MASK) as int;
            assert(p =~= seq![table] + path(env.mem, next, level - 1, va));
            lemma_below(env, table, level, va, next);
            lemma_unchanged(goal, env, next, level - 1, va, at);
            lemma_found(entry, env, next, level - 1, va, post, again);
            assert(post.mem[at] == d);
        }
    }
}

/// Parts of a user page's entry.
proof fn lemma_user_entry(pa: u64)
    by (bit_vector)
    ensures
        forall|acc: u64, exe: u64|
            #![trigger ((pa & 0x0000_FFFF_FFFF_F000) | 0x20_0000_0000_0707 | acc | exe)]
            (acc == 0x40 || acc == 0xC0) && (exe == 0 || exe == 0x40_0000_0000_0000) ==> {
                let e = (pa & 0x0000_FFFF_FFFF_F000) | 0x20_0000_0000_0707 | acc | exe;
                &&& e & 0x1 != 0
                &&& e & 0x40 != 0
                &&& (e & 0x80 == 0) == (acc == 0x40)
                &&& e & 0x0000_FFFF_FFFF_F000 == pa & 0x0000_FFFF_FFFF_F000
                &&& (e & 0x40_0000_0000_0000 == 0) == (exe == 0)
            },
{
}

/// A user page that was mapped is found: user mode may use it, and write it
/// if and only if that was asked for. Mapping it again is refused and changes
/// nothing.
pub proof fn law_mapped_page_is_found(
    env: Env,
    root: int,
    va: u64,
    pa: u64,
    writable: bool,
    executable: bool,
    post: Env,
    again: u64,
)
    requires
        apart(env, root, 4, va),
        user_walk(
            UserGoal::MapTo { entry: user_entry(pa, writable, executable) },
            env,
            root,
            4,
            va,
        ) == (UserResult::Mapped, post),
    ensures
        user_walk(UserGoal::Query, post, root, 4, va) == (
            UserResult::Attributes(Some((true, writable))),
            post,
        ),
        user_walk(UserGoal::MapTo { entry: again }, post, root, 4, va) == (
            UserResult::AlreadyMapped,
            post,
        ),
        user_entry(pa, writable, executable) & ADDR_MASK == pa & ADDR_MASK,
        (user_entry(pa, writable, executable) & UXN == 0) == executable,
{
    lemma_user_entry(pa);
    let entry = user_entry(pa, writable, executable);
    lemma_found(entry, env, root, 4, va, post, UserGoal::MapTo { entry: again });
}

/// A page that is refused because it is mapped leaves the tables as they
/// were.
pub proof fn law_refused_mapping_changes_nothing(env: Env, table: int, level: int, va: u64, entry: u64)
    requires
        1 <= level <= 4,
        apart(env, table, level, va),
        user_walk(UserGoal::MapTo { entry }, env, table, level, va).0 is AlreadyMapped,
    ensures
        user_walk(UserGoal::MapTo { entry }, env, table, level, va).1 == env,
    decreases level,
{
    let goal = UserGoal::MapTo { entry };
    let at = slot(table, va as int, level);
    let d = env.mem[at];
    let p = path(env.mem, table, level, va);
    if level > 1 {
        if d & VALID == 0 {
            if env.frame() is Some {
                let f = env.frame()->0;
                let linked = env.frame_taken().fill(f as int, empty_table()).write(
                    at,
                    f | TABLE_ENTRY,
                );
                assert(p =~= seq![table]);
                lemma_made(env, table, level, va, f, linked);
                lemma_make_step(goal, env, table, level, va, f, linked);
                lemma_never_mapped(linked, f as int, level - 1, va, entry);
            } else {
                lemma_no_frame(goal, env, table, level, va);
            }
        } else if d & TABLE != 0 {
            let next = (d & ADDR_MASK) as int;
            assert(p =~= seq![table] + path(env.mem, next, level - 1, va));
            lemma_below(env, table, level, va, next);
            law_refused_mapping_changes_nothing(env, next, level - 1, va, entry);
        }
    }
}

/// A page is not mapped below a table that has no entry for it.
proof fn lemma_never_mapped(env: Env, table: int, level: int, va: u64, entry: u64)
    requires
        1 <= level <= 4,
        apart(env, table, level, va),
        env.mem[slot(table, va as int, level)] == 0,
    ensures
        !(user_walk(UserGoal::MapTo { entry }, env, table, level, va).0 is AlreadyMapped),
    decreases level,
{
    let goal = UserGoal::MapTo { entry };
    lemma_table_entry(0, 0);
    if level > 1 {
        match env.frame() {
            None => {
                lemma_no_frame(goal, env, table, level, va);
            },
            Some(f) => {
                let linked = env.frame_taken().fill(f as int, empty_table()).write(
                    slot(table, va as int, level),
                    f | TABLE_ENTRY,
                );
                assert(path(env.mem, table, level, va) =~= seq![table]);
                lemma_made(env, table, level, va, f, linked);
                lemma_make_step(goal, env, table, level, va, f, linked);
                lemma_never_mapped(linked, f as int, level - 1, va, entry);
            },
        }
    }
}

} // verus!
