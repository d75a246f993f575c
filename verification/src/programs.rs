//! The computations of the user programs: counting primes with a sieve, and
//! the longest chain of the 3n + 1 problem.

use vstd::prelude::*;

verus! {

/// How many numbers the sieve program covers.
pub const SIEVE_SIZE: usize = 10_000;

/// The numbers below this are searched for the longest chain.
pub const COLLATZ_LIMIT: u64 = 20_000;

/// `k` is a product of two numbers from 2 on.
pub open spec fn composite(k: int) -> bool {
    exists|a: int, b: int| 2 <= a && 2 <= b && #[trigger] (a * b) == k
}

pub open spec fn prime(k: int) -> bool {
    2 <= k && !composite(k)
}

/// How many numbers below `n` are prime.
pub open spec fn primes_below(n: int) -> int
    decreases n,
{
    if n <= 0 {
        0
    } else {
        primes_below(n - 1) + if prime(n - 1) {
            1int
        } else {
            0int
        }
    }
}

/// A composite number is a product of a prime and a number that is not
/// smaller.
proof fn lemma_least_factor(k: int) -> (r: (int, int))
    requires
        2 <= k,
        composite(k),
    ensures
        prime(r.0),
        r.0 <= r.1 < k,
        r.0 * r.1 == k,
    decreases k,
{
    let (a, b) = choose|a: int, b: int| 2 <= a && 2 <= b && #[trigger] (a * b) == k;
    let (small, large) = if a <= b {
        (a, b)
    } else {
        (b, a)
    };
    assert(small * large == k) by (nonlinear_arith)
        requires
            a * b == k,
            (small == a && large == b) || (small == b && large == a),
    ;
    assert(large < k && small < k) by (nonlinear_arith)
        requires
            small * large == k,
            2 <= small,
            2 <= large,
    ;
    if prime(small) {
        (small, large)
    } else {
        let (p, q) = lemma_least_factor(small);
        let rest = q * large;
        assert(p * rest == k) by (nonlinear_arith)
            requires
                p * q == small,
                small * large == k,
                rest == q * large,
        ;
        assert(p <= rest && rest < k) by (nonlinear_arith)
            requires
                p * rest == k,
                rest == q * large,
                2 <= p,
                p <= q,
                2 <= large,
        ;
        (p, rest)
    }
}

/// All multiples of the primes below `i`, by factors that are not smaller,
/// are struck.
spec fn struck_below(struck: Seq<bool>, i: int) -> bool {
    forall|p: int, q: int|
        prime(p) && p < i && p <= q && #[trigger] (p * q) < struck.len() ==> struck[p * q]
}

/// Only composite numbers are struck.
spec fn only_composites(struck: Seq<bool>) -> bool {
    forall|k: int| 0 <= k < struck.len() && #[trigger] struck[k] ==> composite(k)
}

/// A number that is not struck by the primes below it is prime.
proof fn lemma_unstruck_is_prime(struck: Seq<bool>, i: int)
    requires
        2 <= i < struck.len(),
        struck_below(struck, i),
        !struck[i],
    ensures
        prime(i),
{
    if composite(i) {
        let (p, q) = lemma_least_factor(i);
        assert(p * q < struck.len());
        assert(struck[p * q]);
    }
}

/// Strikes the multiples of the prime `i`.
fn strike(struck: &mut Vec<bool>, i: usize)
    requires
        2 <= i < old(struck)@.len() <= 0x1_0000,
        only_composites(old(struck)@),
        struck_below(old(struck)@, i as int),
        prime(i as int),
    ensures
        final(struck)@.len() == old(struck)@.len(),
        only_composites(final(struck)@),
        struck_below(final(struck)@, i + 1),
{
    let n: u64 = struck.len() as u64;
    let step: u64 = i as u64;
    let ghost before = struck@;
    assert(step * step <= 0x1_0000_0000) by (nonlinear_arith)
        requires
            step < 0x1_0000,
    ;
    let mut j: u64 = step * step;
    let ghost mut q: int = step as int;
    while j < n
        invariant
            n == struck@.len() == before.len(),
            n <= 0x1_0000,
            step == i,
            2 <= i < n,
            i <= q,
            j == i * q,
            only_composites(struck@),
            forall|k: int| 0 <= k < n && #[trigger] before[k] ==> struck@[k],
            forall|r: int| i <= r < q && #[trigger] (i * r) < n ==> struck@[i * r],
        decreases n + step - j,
    {
        struck.set(j as usize, true);
        proof {
            assert(composite(j as int)) by {
                assert(i as int * q == j);
            }
            assert(i * (q + 1) == j + i) by (nonlinear_arith)
                requires
                    j == i * q,
            ;
            assert forall|r: int| i <= r < q + 1 && #[trigger] (i * r) < n implies struck@[i * r] by {}
            q = q + 1;
        }
        j += step;
    }
    assert forall|p: int, m: int|
        prime(p) && p < i + 1 && p <= m && #[trigger] (p * m) < struck@.len() implies struck@[p * m] by {
        assert(0 <= p * m) by (nonlinear_arith)
            requires
                0 <= p,
                0 <= m,
        ;
        if p < i {
            assert(before[p * m]);
        } else {
            if m >= q {
                assert(i * m >= i * q) by (nonlinear_arith)
                    requires
                        m >= q,
                        i >= 0,
                ;
            }
        }
    }
}

/// Counts the primes below `n` with a sieve of Eratosthenes.
pub fn sieve(n: usize) -> (count: u32)
    requires
        n <= 0x1_0000,
    ensures
        count == primes_below(n as int),
{
    let mut struck: Vec<bool> = Vec::new();
    let mut k: usize = 0;
    while k < n
        invariant
            k <= n,
            struck@.len() == k,
            forall|j: int| 0 <= j < k ==> !#[trigger] struck@[j],
        decreases n - k,
    {
        struck.push(false);
        k += 1;
    }
    let mut count: u32 = 0;
    let mut i: usize = 2;
    assert(primes_below(2) == 0) by {
        reveal_with_fuel(primes_below, 3);
    }
    if n < 2 {
        assert(primes_below(n as int) == 0) by {
            reveal_with_fuel(primes_below, 3);
        }
        return 0;
    }
    while i < n
        invariant
            2 <= i <= n <= 0x1_0000,
            struck@.len() == n,
            count <= i,
            count == primes_below(i as int),
            only_composites(struck@),
            struck_below(struck@, i as int),
        decreases n - i,
    {
        if !struck[i] {
            proof {
                lemma_unstruck_is_prime(struck@, i as int);
            }
            count += 1;
            strike(&mut struck, i);
        } else {
            assert(composite(i as int));
        }
        i += 1;
    }
    count
}

/// The number after `x` in its chain.
pub open spec fn collatz_next(x: int) -> int {
    if x % 2 == 0 {
        x / 2
    } else {
        3 * x + 1
    }
}

/// Length of the chain from `x` down to 1, both ends counted; `None` where it
/// is longer than `fuel`, or leaves the numbers of 64 bits.
pub open spec fn chain_length(x: int, fuel: nat) -> Option<int>
    decreases fuel,
{
    if fuel == 0 || x > u64::MAX {
        None
    } else if x == 1 {
        Some(1)
    } else {
        match chain_length(collatz_next(x), (fuel - 1) as nat) {
            Some(n) => Some(n + 1),
            None => None,
        }
    }
}

/// Length of the chain from `n` down to 1.
pub fn collatz(n: u64, fuel: u32) -> (r: Option<u32>)
    ensures
        match r {
            Some(len) => chain_length(n as int, fuel as nat) == Some(len as int) && len <= fuel,
            None => chain_length(n as int, fuel as nat) is None,
        },
    decreases fuel,
{
    if fuel == 0 {
        return None;
    }
    if n == 1 {
        return Some(1);
    }
    let next: u64 = if n % 2 == 0 {
        n / 2
    } else if n <= (u64::MAX - 1) / 3 {
        3 * n + 1
    } else {
        assert(chain_length(collatz_next(n as int), (fuel - 1) as nat) is None);
        return None;
    };
    match collatz(next, fuel - 1) {
        Some(len) => Some(len + 1),
        None => None,
    }
}

/// Length of the chain from `n`, 0 where there is none within `fuel`.
pub open spec fn length_or_zero(n: int, fuel: nat) -> int {
    match chain_length(n, fuel) {
        Some(len) => len,
        None => 0,
    }
}

/// The number below `limit` with the longest chain, the least of those where
/// there are several, and the length of its chain.
pub fn longest_chain(limit: u64, fuel: u32) -> (r: (u64, u32))
    requires
        limit >= 2,
        fuel >= 1,
    ensures
        1 <= r.0 < limit,
        r.1 == length_or_zero(r.0 as int, fuel as nat),
        forall|n: int| 1 <= n < limit ==> #[trigger] length_or_zero(n, fuel as nat) <= r.1,
        forall|n: int| 1 <= n < r.0 ==> #[trigger] length_or_zero(n, fuel as nat) < r.1,
{
    let mut best: u64 = 1;
    let mut best_len: u32 = 1;
    assert(length_or_zero(1, fuel as nat) == 1);
    let mut n: u64 = 2;
    while n < limit
        invariant
            2 <= n <= limit,
            1 <= best < n,
            best_len == length_or_zero(best as int, fuel as nat),
            forall|m: int| 1 <= m < n ==> #[trigger] length_or_zero(m, fuel as nat) <= best_len,
            forall|m: int| 1 <= m < best ==> #[trigger] length_or_zero(m, fuel as nat) < best_len,
        decreases limit - n,
    {
        if let Some(len) = collatz(n, fuel) {
            if len > best_len {
                best = n;
                best_len = len;
            }
        }
        n += 1;
    }
    (best, best_len)
}

/// A prime is a number from 2 on that no smaller number from 2 on divides.
pub proof fn law_primes(k: int)
    ensures
        prime(k) <==> 2 <= k && forall|d: int| 2 <= d < k ==> #[trigger] (k % d) != 0,
{
    if 2 <= k && composite(k) {
        let (a, b) = choose|a: int, b: int| 2 <= a && 2 <= b && #[trigger] (a * b) == k;
        assert(a < k) by (nonlinear_arith)
            requires
                2 <= a,
                2 <= b,
                a * b == k,
        ;
        vstd::arithmetic::div_mod::lemma_mod_multiples_basic(b, a);
        assert(b * a == a * b) by (nonlinear_arith);
        assert(k % a == 0);
    }
    if prime(k) {
        assert forall|d: int| 2 <= d < k implies #[trigger] (k % d) != 0 by {
            if k % d == 0 {
                vstd::arithmetic::div_mod::lemma_fundamental_div_mod(k, d);
                let q = k / d;
                assert(q >= 2) by (nonlinear_arith)
                    requires
                        k == d * q,
                        2 <= d < k,
                ;
                assert(d * q == k);
                assert(composite(k));
            }
        }
    }
}

/// Primes are counted one by one.
pub proof fn law_primes_are_counted(n: int)
    requires
        0 <= n,
    ensures
        primes_below(0) == 0,
        prime(n) ==> primes_below(n + 1) == primes_below(n) + 1,
        !prime(n) ==> primes_below(n + 1) == primes_below(n),
{
}

/// The length of a chain: one for 1, and one more than that of half an even
/// number, or of one more than three times an odd one.
pub proof fn law_chains(x: int, fuel: nat)
    requires
        0 < fuel,
    ensures
        chain_length(1, fuel) == Some(1int),
        1 < x <= u64::MAX && x % 2 == 0 ==> chain_length(x, fuel) == match chain_length(
            x / 2,
            (fuel - 1) as nat,
        ) {
            Some(n) => Some(n + 1),
            None => None,
        },
        1 < x <= u64::MAX && x % 2 == 1 ==> chain_length(x, fuel) == match chain_length(
            3 * x + 1,
            (fuel - 1) as nat,
        ) {
            Some(n) => Some(n + 1),
            None => None,
        },
{
}

/// A chain counts for its length, and for nothing where it does not end in time.
pub proof fn law_counted_lengths(x: int, fuel: nat)
    ensures
        chain_length(x, fuel) is None ==> length_or_zero(x, fuel) == 0,
        chain_length(x, fuel) is Some ==> Some(length_or_zero(x, fuel)) == chain_length(x, fuel),
        x != 0 ==> length_or_zero(x, 0) == 0,
{
}

} // verus!
