//! Sieve of Eratosthenes, verified.
//!
//! `sieve(n)` returns every prime in `[2, n]`, in ascending order, by the
//! classic elimination marking: walk the candidates from 2 upward and, for
//! each candidate still alive, kill all of its proper multiples.
//!
//! The contract pins the result to `primes_upto(n)`, the mathematical
//! sequence of primes up to `n`; the result is therefore a function of the
//! bound alone.

use vstd::prelude::*;
use vstd::arithmetic::div_mod::lemma_fundamental_div_mod;
use vstd::arithmetic::div_mod::lemma_mod_multiples_basic;

verus! {

/// `p` is prime: at least 2, and no integer in `[2, p)` divides it.
pub open spec fn is_prime(p: int) -> bool {
    p >= 2 && forall|d: int| 2 <= d < p ==> #[trigger] (p % d) != 0
}

/// The primes in `[2, n]`, in ascending order.
pub open spec fn primes_upto(n: int) -> Seq<int>
    decreases n,
{
    if n < 2 {
        Seq::empty()
    } else if is_prime(n) {
        primes_upto(n - 1).push(n)
    } else {
        primes_upto(n - 1)
    }
}

/// A sequence of machine integers read as a sequence of mathematical ones.
pub open spec fn as_ints(s: Seq<usize>) -> Seq<int> {
    s.map_values(|p: usize| p as int)
}

/// `k` has a divisor other than itself in `[2, bound)`.
spec fn has_factor_below(k: int, bound: int) -> bool {
    exists|d: int| 2 <= d < bound && d < k && #[trigger] (k % d) == 0
}

/// The multiples of `i` strictly between `i` and `j`: exactly the candidates
/// that the inner marking loop has already eliminated on behalf of `i`.
spec fn marked_multiple(k: int, i: int, j: int) -> bool {
    k % i == 0 && i < k && k < j
}

/// Divisibility is transitive: if `d` divides `m` and `m` divides `k`,
/// then `d` divides `k`.
proof fn lemma_divides_transitive(d: int, m: int, k: int)
    requires
        1 <= d,
        1 <= m,
        m % d == 0,
        k % m == 0,
    ensures
        k % d == 0,
{
    let a: int = m / d;
    let b: int = k / m;
    lemma_fundamental_div_mod(m, d);
    lemma_fundamental_div_mod(k, m);
    assert(k == (a * b) * d) by (nonlinear_arith)
        requires
            m == d * a + 0,
            k == m * b + 0,
    ;
    lemma_mod_multiples_basic(a * b, d);
}

/// A proper multiple of `i` is at least `2 * i`.
proof fn lemma_multiple_above(i: int, k: int)
    requires
        1 <= i,
        i < k,
        k % i == 0,
    ensures
        k >= 2 * i,
{
    let q: int = k / i;
    lemma_fundamental_div_mod(k, i);
    assert(k >= 2 * i) by (nonlinear_arith)
        requires
            k == i * q + 0,
            1 <= i,
            i < k,
    ;
}

/// Two multiples of `i` less than `i` apart are the same multiple.
proof fn lemma_multiple_unique(i: int, j: int, k: int)
    requires
        1 <= i,
        j % i == 0,
        k % i == 0,
        j <= k < j + i,
    ensures
        k == j,
{
    let a: int = j / i;
    let b: int = k / i;
    lemma_fundamental_div_mod(j, i);
    lemma_fundamental_div_mod(k, i);
    assert(a == b) by (nonlinear_arith)
        requires
            j == i * a + 0,
            k == i * b + 0,
            j <= k < j + i,
            1 <= i,
    ;
}

/// Raising the factor bound from `i` to `i + 1` adds exactly the proper
/// multiples of `i` to the eliminated set.
proof fn lemma_factor_bound_step(k: int, i: int)
    requires
        2 <= i,
    ensures
        has_factor_below(k, i + 1) <==> (has_factor_below(k, i) || (k % i == 0 && i < k)),
{
    if has_factor_below(k, i + 1) {
        let d: int = choose|d: int| 2 <= d < i + 1 && d < k && #[trigger] (k % d) == 0;
        if d < i {
            assert(has_factor_below(k, i));
        } else {
            assert(d == i);
        }
    }
    if has_factor_below(k, i) {
        let d: int = choose|d: int| 2 <= d < i && d < k && #[trigger] (k % d) == 0;
        assert(2 <= d < i + 1 && d < k && k % d == 0);
        assert(has_factor_below(k, i + 1));
    }
    if k % i == 0 && i < k {
        assert(2 <= i < i + 1 && i < k && k % i == 0);
        assert(has_factor_below(k, i + 1));
    }
}

/// Once the bound reaches `k`, the factor bound no longer matters: every
/// divisor of `k` other than itself is below `k` already.
proof fn lemma_factor_bound_saturates(k: int, b: int)
    requires
        b >= k,
    ensures
        has_factor_below(k, b) <==> has_factor_below(k, k),
{
    if has_factor_below(k, b) {
        let d: int = choose|d: int| 2 <= d < b && d < k && #[trigger] (k % d) == 0;
        assert(2 <= d < k && d < k && k % d == 0);
        assert(has_factor_below(k, k));
    }
    if has_factor_below(k, k) {
        let d: int = choose|d: int| 2 <= d < k && d < k && #[trigger] (k % d) == 0;
        assert(2 <= d < b && d < k && k % d == 0);
        assert(has_factor_below(k, b));
    }
}

/// Primality is the absence of a proper factor.
proof fn lemma_prime_iff_no_factor(k: int)
    requires
        k >= 2,
    ensures
        is_prime(k) <==> !has_factor_below(k, k),
{
    if has_factor_below(k, k) {
        let d: int = choose|d: int| 2 <= d < k && d < k && #[trigger] (k % d) == 0;
        assert(!is_prime(k));
    }
    if !is_prime(k) {
        let d: int = choose|d: int| 2 <= d < k && #[trigger] (k % d) == 0;
        assert(has_factor_below(k, k));
    }
}

/// If `i` itself was eliminated, every proper multiple of `i` is already
/// covered by a smaller factor: skipping a dead candidate loses nothing.
proof fn lemma_dead_candidate_covered(i: int, k: int)
    requires
        2 <= i,
        has_factor_below(i, i),
        k % i == 0,
        i < k,
    ensures
        has_factor_below(k, i),
{
    let d: int = choose|d: int| 2 <= d < i && d < i && #[trigger] (i % d) == 0;
    lemma_divides_transitive(d, i, k);
    assert(2 <= d < i && d < k && k % d == 0);
    assert(has_factor_below(k, i));
}

/// Reading a pushed sequence as mathematical integers pushes the
/// mathematical value.
proof fn lemma_as_ints_push(s: Seq<usize>, x: usize)
    ensures
        as_ints(s.push(x)) == as_ints(s).push(x as int),
{
    assert(as_ints(s.push(x)) =~= as_ints(s).push(x as int));
}

/// `primes_upto(n)` holds exactly the primes in `[2, n]`.
pub proof fn lemma_primes_upto_complete(n: int, p: int)
    ensures
        primes_upto(n).contains(p) <==> (2 <= p <= n && is_prime(p)),
    decreases n,
{
    if n < 2 {
        assert(!primes_upto(n).contains(p));
    } else {
        lemma_primes_upto_complete(n - 1, p);
        let s = primes_upto(n - 1);
        if is_prime(n) {
            if s.contains(p) {
                let idx: int = choose|idx: int| 0 <= idx < s.len() && s[idx] == p;
                assert(s.push(n)[idx] == p);
                assert(s.push(n).contains(p));
            }
            if p == n {
                assert(s.push(n)[s.len() as int] == p);
                assert(s.push(n).contains(p));
            }
            if s.push(n).contains(p) {
                let idx: int = choose|idx: int| 0 <= idx < s.push(n).len() && s.push(n)[idx] == p;
                if idx < s.len() {
                    assert(s.contains(p));
                } else {
                    assert(p == n);
                }
            }
        }
    }
}

/// `primes_upto(n)` is strictly ascending.
pub proof fn lemma_primes_upto_sorted(n: int, a: int, b: int)
    requires
        0 <= a < b < primes_upto(n).len(),
    ensures
        primes_upto(n)[a] < primes_upto(n)[b],
    decreases n,
{
    let s = primes_upto(n - 1);
    if n >= 2 && is_prime(n) && b == s.len() {
        assert(s.contains(s[a]));
        lemma_primes_upto_complete(n - 1, s[a]);
        assert(primes_upto(n)[b] == n);
    } else {
        lemma_primes_upto_sorted(n - 1, a, b);
    }
}

/// Running the sieve twice on the same bound yields identical output: the
/// contract of `sieve` equates each run with `primes_upto(n)`, a function
/// of the bound alone, so any two results agree.
pub proof fn lemma_sieve_deterministic(first: Seq<int>, second: Seq<int>, n: int)
    requires
        first == primes_upto(n),
        second == primes_upto(n),
    ensures
        first == second,
{
}

/// Every prime in `[2, n]`, ascending.
///
/// The bound must leave room for the marking table of `n + 1` entries.
#[verifier::loop_isolation(false)]
pub fn sieve(n: usize) -> (primes: Vec<usize>)
    requires
        n < usize::MAX,
    ensures
        as_ints(primes@) == primes_upto(n as int),
        forall|j: int|
            0 <= j < primes@.len() ==> is_prime(#[trigger] primes@[j] as int) && 2 <= primes@[j]
                <= n,
        forall|p: int| 2 <= p <= n && is_prime(p) ==> as_ints(primes@).contains(p),
        forall|a: int, b: int|
            0 <= a < b < primes@.len() ==> #[trigger] primes@[a] < #[trigger] primes@[b],
{
    let mut live: Vec<bool> = Vec::new();
    let mut idx: usize = 0;
    while idx <= n
        invariant
            live@.len() == idx,
            idx <= n + 1,
            forall|t: int| 0 <= t < idx ==> live@[t],
        decreases n + 1 - idx,
    {
        live.push(true);
        idx = idx + 1;
    }

    let mut i: usize = 2;
    assert forall|k: int| 2 <= k <= n implies (live@[k] <==> !has_factor_below(k, 2)) by {
        assert(!has_factor_below(k, 2));
    }
    while i <= n
        invariant
            live@.len() == n + 1,
            2 <= i,
            forall|k: int| 2 <= k <= n ==> (#[trigger] live@[k] <==> !has_factor_below(
                k,
                i as int,
            )),
        decreases n + 1 - i,
    {
        if live[i] {
            if i <= n / 2 {
                let mut j: usize = 2 * i;
                proof {
                    lemma_mod_multiples_basic(2, i as int);
                }
                assert forall|k: int|
                    2 <= k <= n implies !marked_multiple(k, i as int, j as int) by {
                    if k % (i as int) == 0 && i < k {
                        lemma_multiple_above(i as int, k);
                    }
                }
                while j <= n
                    invariant
                        live@.len() == n + 1,
                        2 <= i <= n,
                        j > n || ((j as int) % (i as int) == 0 && 2 * i <= j),
                        forall|k: int|
                            2 <= k <= n ==> (#[trigger] live@[k] <==> (!has_factor_below(
                                k,
                                i as int,
                            ) && !marked_multiple(k, i as int, j as int))),
                    decreases n + 1 - j,
                {
                    let ghost old_live = live@;
                    let ghost old_j = j as int;
                    live.set(j, false);
                    let next: usize = if i <= n - j {
                        j + i
                    } else {
                        n + 1
                    };
                    proof {
                        let jn = next as int;
                        assert(jn > old_j);
                        assert(jn <= old_j + i);
                        if jn == old_j + i {
                            vstd::arithmetic::div_mod::lemma_mod_add_multiples_vanish(
                                old_j,
                                i as int,
                            );
                        }
                        assert forall|k: int|
                            2 <= k <= n implies (live@[k] <==> (!has_factor_below(k, i as int)
                            && !marked_multiple(k, i as int, jn))) by {
                            if k == old_j {
                                assert(!live@[k]);
                                assert(marked_multiple(k, i as int, jn));
                            } else {
                                assert(live@[k] == old_live[k]);
                                if old_j <= k < jn && k % (i as int) == 0 {
                                    lemma_multiple_unique(i as int, old_j, k);
                                }
                                assert(marked_multiple(k, i as int, jn) == marked_multiple(
                                    k,
                                    i as int,
                                    old_j,
                                ));
                            }
                        }
                    }
                    j = next;
                }
                proof {
                    assert forall|k: int|
                        2 <= k <= n implies (live@[k] <==> !has_factor_below(k, i as int + 1)) by {
                        lemma_factor_bound_step(k, i as int);
                        assert(marked_multiple(k, i as int, j as int) == (k % (i as int) == 0 && i
                            < k));
                    }
                }
            } else {
                proof {
                    assert forall|k: int|
                        2 <= k <= n implies (live@[k] <==> !has_factor_below(k, i as int + 1)) by {
                        lemma_factor_bound_step(k, i as int);
                        if k % (i as int) == 0 && i < k {
                            lemma_multiple_above(i as int, k);
                        }
                    }
                }
            }
        } else {
            proof {
                assert(has_factor_below(i as int, i as int));
                assert forall|k: int|
                    2 <= k <= n implies (live@[k] <==> !has_factor_below(k, i as int + 1)) by {
                    lemma_factor_bound_step(k, i as int);
                    if k % (i as int) == 0 && i < k {
                        lemma_dead_candidate_covered(i as int, k);
                    }
                }
            }
        }
        i = i + 1;
    }

    proof {
        assert forall|k: int| 2 <= k <= n implies (live@[k] <==> is_prime(k)) by {
            lemma_factor_bound_saturates(k, i as int);
            lemma_prime_iff_no_factor(k);
        }
    }

    let mut primes: Vec<usize> = Vec::new();
    let mut k: usize = 2;
    proof {
        assert(as_ints(primes@) =~= primes_upto(1));
    }
    while k <= n
        invariant
            live@.len() == n + 1,
            2 <= k,
            k <= n + 1 || k == 2,
            forall|t: int| 2 <= t <= n ==> (#[trigger] live@[t] <==> is_prime(t)),
            as_ints(primes@) == primes_upto(k as int - 1),
        decreases n + 1 - k,
    {
        if live[k] {
            proof {
                assert(is_prime(k as int));
                assert(primes_upto(k as int) == primes_upto(k as int - 1).push(k as int));
                lemma_as_ints_push(primes@, k);
            }
            primes.push(k);
        } else {
            proof {
                assert(primes_upto(k as int) == primes_upto(k as int - 1));
            }
        }
        k = k + 1;
    }
    proof {
        if n < 2 {
            assert(primes_upto(n as int) == Seq::<int>::empty());
            assert(primes_upto(k as int - 1) == Seq::<int>::empty());
        }
        let ps = as_ints(primes@);
        assert forall|j: int|
            0 <= j < primes@.len() implies is_prime(#[trigger] primes@[j] as int) && 2
            <= primes@[j] <= n by {
            assert(ps[j] == primes@[j] as int);
            assert(ps.contains(ps[j]));
            lemma_primes_upto_complete(n as int, ps[j]);
        }
        assert forall|p: int| 2 <= p <= n && is_prime(p) implies ps.contains(p) by {
            lemma_primes_upto_complete(n as int, p);
        }
        assert forall|a: int, b: int|
            0 <= a < b < primes@.len() implies #[trigger] primes@[a] < #[trigger] primes@[b] by {
            lemma_primes_upto_sorted(n as int, a, b);
            assert(ps[a] == primes@[a] as int);
            assert(ps[b] == primes@[b] as int);
        }
    }
    primes
}

} // verus!
