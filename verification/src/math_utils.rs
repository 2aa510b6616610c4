//! Primality testing by trial division, and prime enumeration.

use core::ops::Range;

use vstd::prelude::*;

verus! {

/// Primality of a mathematical integer: at least two, and without a
/// divisor strictly between one and itself.
pub open spec fn is_prime_spec(n: int) -> bool {
    n >= 2 && forall|d: int| 2 <= d < n ==> #[trigger] (n % d) != 0
}

/// A number at least two with no divisor up to its square root has no
/// divisor at all: a divisor `d` above the root pairs with the cofactor
/// `n / d`, which lies below it.
proof fn lemma_no_divisor_up_to_sqrt(n: int, bound: int)
    requires
        n >= 2,
        bound >= 2,
        bound * bound > n,
        forall|k: int| 2 <= k < bound ==> #[trigger] (n % k) != 0,
    ensures
        is_prime_spec(n),
{
    assert forall|d: int| 2 <= d < n implies #[trigger] (n % d) != 0 by {
        if n % d == 0 && d >= bound {
            let e = n / d;
            vstd::arithmetic::div_mod::lemma_fundamental_div_mod(n, d);
            assert(n == d * e);
            assert(e >= 2) by (nonlinear_arith)
                requires
                    n == d * e,
                    2 <= d < n,
                    n >= 2,
            ;
            assert(e < bound) by (nonlinear_arith)
                requires
                    n == d * e,
                    d >= bound,
                    bound * bound > n,
                    e >= 2,
                    bound >= 2,
            ;
            vstd::arithmetic::div_mod::lemma_mod_multiples_basic(d, e);
            assert(n % e == 0);
            assert(false);
        }
    }
}

/// Decides primality of `n` by trial division up to the square root.
pub fn is_prime(n: u64) -> (r: bool)
    ensures
        r == is_prime_spec(n as int),
{
    if n <= 1 {
        return false;
    }
    let mut i: u64 = 2;
    while i <= n / i
        invariant
            2 <= i,
            n >= 2,
            forall|k: int| 2 <= k < i ==> #[trigger] ((n as int) % k) != 0,
        decreases n - i,
    {
        proof {
            let q = (n as int) / (i as int);
            let rem = (n as int) % (i as int);
            vstd::arithmetic::div_mod::lemma_fundamental_div_mod(n as int, i as int);
            assert((i as int) * (i as int) <= n as int) by (nonlinear_arith)
                requires
                    n as int == (i as int) * q + rem,
                    0 <= rem,
                    2 <= i as int <= q,
            ;
            assert(i < n) by (nonlinear_arith)
                requires
                    2 <= i,
                    (i as int) * (i as int) <= n as int,
            ;
        }
        if n % i == 0 {
            return false;
        }
        i = i + 1;
    }
    proof {
        let q = (n as int) / (i as int);
        let rem = (n as int) % (i as int);
        vstd::arithmetic::div_mod::lemma_fundamental_div_mod(n as int, i as int);
        assert((i as int) * (i as int) > n as int) by (nonlinear_arith)
            requires
                n as int == (i as int) * q + rem,
                0 <= rem < i as int,
                0 <= q < i as int,
                2 <= i as int,
        ;
        lemma_no_divisor_up_to_sqrt(n as int, i as int);
    }
    true
}

/// The first `count` primes, in increasing order. (In the unreachable case
/// that fewer than `count` primes fit in `u64`, the result lists every
/// prime that does.)
pub fn n_primes(count: usize) -> (r: Vec<u64>)
    ensures
        r@.len() <= count,
        forall|i: int| 0 <= i < r@.len() ==> is_prime_spec(#[trigger] r@[i] as int),
        forall|i: int, j: int| 0 <= i < j < r@.len() ==> r@[i] < r@[j],
        forall|p: u64|
            is_prime_spec(p as int) && r@.len() > 0 && p <= r@[r@.len() - 1] ==> r@.contains(p),
        r@.len() == count || (forall|p: u64| is_prime_spec(p as int) ==> r@.contains(p)),
{
    let mut result: Vec<u64> = Vec::new();
    let mut candidate: u64 = 2;

    while result.len() < count && candidate < u64::MAX
        invariant
            result@.len() <= count,
            2 <= candidate,
            forall|i: int| 0 <= i < result@.len() ==> is_prime_spec(#[trigger] result@[i] as int),
            forall|i: int| 0 <= i < result@.len() ==> result@[i] < candidate,
            forall|i: int, j: int| 0 <= i < j < result@.len() ==> result@[i] < result@[j],
            forall|p: u64|
                is_prime_spec(p as int) && p < candidate ==> result@.contains(p),
        decreases u64::MAX - candidate,
    {
        let ghost prev = result@;
        if is_prime(candidate) {
            result.push(candidate);
        }
        proof {
            assert forall|p: u64| is_prime_spec(p as int) && p < candidate + 1 implies
                result@.contains(p) by {
                if p < candidate {
                    let i = choose|i: int| 0 <= i < prev.len() && prev[i] == p;
                    assert(result@[i] == p);
                } else {
                    assert(result@[result@.len() - 1] == p);
                }
            }
        }
        candidate = candidate + 1;
    }
    if result.len() < count && is_prime(u64::MAX) {
        let ghost prev = result@;
        result.push(u64::MAX);
        proof {
            assert forall|p: u64| is_prime_spec(p as int) implies result@.contains(p) by {
                if p < u64::MAX {
                    let i = choose|i: int| 0 <= i < prev.len() && prev[i] == p;
                    assert(result@[i] == p);
                } else {
                    assert(result@[result@.len() - 1] == p);
                }
            }
        }
    }
    result
}

/// The primes in `[range.start, range.end)`, in increasing order.
pub fn primes_in_range(range: Range<u64>) -> (r: Vec<u64>)
    ensures
        forall|i: int| 0 <= i < r@.len() ==> is_prime_spec(#[trigger] r@[i] as int),
        forall|i: int| 0 <= i < r@.len() ==> range.start <= #[trigger] r@[i] < range.end,
        forall|i: int, j: int| 0 <= i < j < r@.len() ==> r@[i] < r@[j],
        forall|p: u64|
            range.start <= p < range.end && is_prime_spec(p as int) ==> r@.contains(p),
{
    let mut result: Vec<u64> = Vec::new();
    let mut value = range.start;

    while value < range.end
        invariant
            range.start <= value,
            value <= range.end || value == range.start,
            forall|i: int| 0 <= i < result@.len() ==> is_prime_spec(#[trigger] result@[i] as int),
            forall|i: int| 0 <= i < result@.len() ==> range.start <= #[trigger] result@[i] < value,
            forall|i: int, j: int| 0 <= i < j < result@.len() ==> result@[i] < result@[j],
            forall|p: u64|
                range.start <= p < value && is_prime_spec(p as int) ==> result@.contains(p),
        decreases range.end - value,
    {
        let ghost prev = result@;
        if is_prime(value) {
            result.push(value);
        }
        proof {
            assert forall|p: u64|
                range.start <= p < value + 1 && is_prime_spec(p as int) implies result@.contains(
                p,
            ) by {
                if p < value {
                    let i = choose|i: int| 0 <= i < prev.len() && prev[i] == p;
                    assert(result@[i] == p);
                } else {
                    assert(result@[result@.len() - 1] == p);
                }
            }
        }
        value = value + 1;
    }
    result
}

/// The primes among `range`, kept in order with duplicates preserved.
pub fn primes_from_vec(range: Vec<u64>) -> (primes: Vec<u64>)
    ensures
        primes@ == range@.filter(|x: u64| is_prime_spec(x as int)),
{
    let mut primes: Vec<u64> = Vec::new();
    let n = range.len();
    let mut i: usize = 0;
    proof {
        assert(range@.take(0) =~= Seq::<u64>::empty());
        reveal(Seq::filter);
    }
    while i < n
        invariant
            i <= n,
            n == range@.len(),
            primes@ == range@.take(i as int).filter(|x: u64| is_prime_spec(x as int)),
        decreases n - i,
    {
        let num = range[i];
        let ghost pred = |x: u64| is_prime_spec(x as int);
        proof {
            assert(range@.take(i + 1) =~= range@.take(i as int) + seq![range@[i as int]]);
        }
        if is_prime(num) {
            primes.push(num);
        }
        proof {
            reveal_with_fuel(Seq::filter, 2);
            let single = seq![range@[i as int]];
            assert(single.drop_last() =~= Seq::<u64>::empty());
            assert(Seq::<u64>::empty().filter(pred) =~= Seq::<u64>::empty());
            assert(single.last() == range@[i as int]);
            if pred(range@[i as int]) {
                assert(single.filter(pred) =~= seq![range@[i as int]]) by {
                    assert(Seq::<u64>::empty().push(range@[i as int]) =~= single);
                }
            } else {
                assert(single.filter(pred) =~= Seq::<u64>::empty());
            }
            Seq::filter_distributes_over_add(range@.take(i as int), seq![range@[i as int]], pred);
            assert(primes@ =~= range@.take(i + 1).filter(pred));
        }
        i = i + 1;
    }
    proof {
        assert(range@.take(n as int) =~= range@);
    }
    primes
}

} // verus!
