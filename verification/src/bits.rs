//! Facts about machine words that the rest of the library builds on.

use vstd::prelude::*;

verus! {

/// `x` rounded down to a multiple of `a`.
pub open spec fn floor_to(x: int, a: int) -> int {
    x - x % a
}

/// `x` rounded up to a multiple of `a`.
pub open spec fn ceil_to(x: int, a: int) -> int {
    floor_to(x + a - 1, a)
}

/// A position less than two rounds on is one round back.
pub proof fn lemma_wrap(x: int, n: int)
    requires
        0 <= x < 2 * n,
    ensures
        x % n == if x < n { x } else { x - n },
{
    if x < n {
        vstd::arithmetic::div_mod::lemma_small_mod(x as nat, n as nat);
    } else {
        vstd::arithmetic::div_mod::lemma_mod_add_multiples_vanish(x - n, n);
        vstd::arithmetic::div_mod::lemma_small_mod((x - n) as nat, n as nat);
    }
}

/// Clearing the low bits of a word rounds it down to a power of two.
pub proof fn lemma_mask_is_floor(x: u64)
    by (bit_vector)
    ensures
        x & !0xFu64 == x - x % 16,
        x & !0xFFFu64 == x - x % 4096,
        x & 0xFFF == x % 4096,
        x & !0x1F_FFFFu64 == x - x % 0x20_0000,
        x & 0x1F_FFFF == x % 0x20_0000,
        x & 0x3FFF_FFFF == x % 0x4000_0000,
{
}

/// Fields of a 32-bit word as quotients and remainders.
pub proof fn lemma_word_fields(x: u32)
    by (bit_vector)
    ensures
        x & 1 == x % 2,
        x & 0b110 == ((x / 2) % 4) * 2,
        x & 0xFFFF_FFF0 == x - x % 16,
        x & 0xFFFC == x % 0x1_0000 - x % 4,
        x & 0xFFFF == x % 0x1_0000,
        x & 0xFFFF_0000 == x - x % 0x1_0000,
        x & 0xFC == x % 256 - x % 4,
        x & 0xFF == x % 256,
        x >> 8 == x / 256,
        x >> 16 == x / 0x1_0000,
        x >> 20 == x / 0x10_0000,
        x >> 24 == x / 0x100_0000,
        x >> 27 == x / 0x800_0000,
        (x & 0xFFFF_0000) | ((x & 0xFFFF) | 7) == x | 7,
{
}

/// Rounding down gives the nearest multiple at or below, rounding up the
/// nearest at or above.
pub proof fn law_rounding(x: int, a: int)
    requires
        0 <= x,
        0 < a,
    ensures
        x - a < floor_to(x, a) <= x <= ceil_to(x, a) < x + a,
        floor_to(x, a) % a == 0,
        ceil_to(x, a) % a == 0,
{
    vstd::arithmetic::div_mod::lemma_mod_bound(x, a);
    vstd::arithmetic::div_mod::lemma_fundamental_div_mod(x, a);
    vstd::arithmetic::div_mod::lemma_mod_multiples_basic(x / a, a);
    let y = x + a - 1;
    vstd::arithmetic::div_mod::lemma_mod_bound(y, a);
    vstd::arithmetic::div_mod::lemma_fundamental_div_mod(y, a);
    vstd::arithmetic::div_mod::lemma_mod_multiples_basic(y / a, a);
    assert(x - x % a == (x / a) * a) by (nonlinear_arith)
        requires
            x == a * (x / a) + x % a,
    ;
    assert(y - y % a == (y / a) * a) by (nonlinear_arith)
        requires
            y == a * (y / a) + y % a,
    ;
}

} // verus!
