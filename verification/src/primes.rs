use vstd::prelude::*;

use vstd::arithmetic::div_mod::{lemma_fundamental_div_mod, lemma_mod_multiples_basic};
use vstd::arithmetic::mul::lemma_mul_upper_bound;

verus! {

/// A number is prime when it is at least 2 and no integer strictly between
/// 1 and itself divides it.
pub open spec fn is_prime_spec(n: int) -> bool {
    n >= 2 && forall|d: int| 2 <= d < n ==> #[trigger] (n % d) != 0
}

/// A number that has an even divisor is itself even.
proof fn lemma_even_divisor_makes_even(n: int, d: int)
    requires
        n >= 2,
        2 <= d,
        d % 2 == 0,
        n % d == 0,
    ensures
        n % 2 == 0,
{
    lemma_fundamental_div_mod(n, d);
    let q = n / d;
    lemma_fundamental_div_mod(d, 2);
    let k = d / 2;
    assert(n == 2 * (k * q)) by (nonlinear_arith)
        requires
            n == d * q,
            d == 2 * k,
    ;
    lemma_mod_multiples_basic(k * q, 2);
    assert((k * q) * 2 == 2 * (k * q)) by (nonlinear_arith);
}

/// A composite number has a divisor no larger than its square root, so a
/// number with no divisor below `bound`, where `bound * bound` exceeds it,
/// is prime.
proof fn lemma_no_small_factor_implies_prime(n: int, bound: int)
    requires
        n >= 2,
        bound >= 2,
        bound * bound > n,
        forall|d: int| 2 <= d < bound ==> #[trigger] (n % d) != 0,
    ensures
        is_prime_spec(n),
{
    assert forall|d: int| 2 <= d < n implies #[trigger] (n % d) != 0 by {
        if n % d == 0 {
            lemma_fundamental_div_mod(n, d);
            let e = n / d;
            assert(n == d * e);
            assert(e >= 2) by (nonlinear_arith)
                requires
                    n == d * e,
                    2 <= d < n,
            ;
            assert((d * e) % e == 0) by {
                lemma_mod_multiples_basic(d, e);
            }
            assert(e < n) by (nonlinear_arith)
                requires
                    n == d * e,
                    d >= 2,
                    e >= 2,
            ;
            if d < bound {
                assert(n % d != 0);
            } else if e < bound {
                assert(n % e != 0);
            } else {
                assert(bound * bound <= d * e) by {
                    lemma_mul_upper_bound(bound, d, bound, e);
                }
            }
        }
    }
}

/// Trial division: divisibility by 2 is tested once, then only odd divisors
/// up to the square root of `n` are tried, exactly as the mathematical
/// definition `is_prime_spec` demands.
pub fn is_prime(n: u64) -> (r: bool)
    ensures
        r == is_prime_spec(n as int),
{
    if n < 2 {
        return false;
    }
    if n == 2 {
        return true;
    }
    if n % 2 == 0 {
        assert((n as int) % 2 == 0);
        return false;
    }
    let mut i: u64 = 3;
    loop
        invariant
            3 <= i <= 0x1_0000_0001,
            i % 2 == 1,
            n >= 3,
            n % 2 == 1,
            forall|d: int| 2 <= d < i ==> #[trigger] ((n as int) % d) != 0,
        ensures
            (i as int) * (i as int) > n as int,
            forall|d: int| 2 <= d < i ==> #[trigger] ((n as int) % d) != 0,
        decreases n as int + 2 - i as int,
    {
        proof {
            lemma_mul_upper_bound(i as int, 0x1_0000_0001, i as int, 0x1_0000_0001);
        }
        let square: u128 = (i as u128) * (i as u128);
        if square > n as u128 {
            break;
        }
        if n % i == 0 {
            assert(i < n) by (nonlinear_arith)
                requires
                    3 <= i,
                    (i as int) * (i as int) <= n as int,
            ;
            assert((n as int) % (i as int) == 0);
            return false;
        }
        proof {
            assert(i < 0x1_0000_0000 && i <= n) by (nonlinear_arith)
                requires
                    (i as int) * (i as int) <= n as int,
                    n <= 0xffff_ffff_ffff_ffffu64,
                    i >= 1,
            ;
            assert forall|d: int| 2 <= d < i + 2 implies #[trigger] ((n as int) % d) != 0 by {
                if d == i + 1 {
                    if (n as int) % d == 0 {
                        lemma_even_divisor_makes_even(n as int, d);
                    }
                } else if d == i as int {
                    assert((n as int) % (i as int) != 0);
                }
            }
        }
        i = i + 2;
    }
    proof {
        lemma_no_small_factor_implies_prime(n as int, i as int);
    }
    true
}

} // verus!
