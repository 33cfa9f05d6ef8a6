//! The primality check behind the prime-test sibling service, and its fixed
//! reply shape. The service's socket and JSON plumbing live outside; the
//! arithmetic lives here.

use vstd::prelude::*;

use vstd::arithmetic::div_mod::lemma_div_decreases;
use vstd::arithmetic::div_mod::lemma_div_is_ordered_by_denominator;
use vstd::arithmetic::div_mod::lemma_fundamental_div_mod;
use vstd::arithmetic::div_mod::lemma_mod_multiples_basic;

verus! {

/// Whether `n` is prime: at least 2, with no divisor strictly between 1 and
/// itself.
pub open spec fn is_prime(n: int) -> bool {
    n >= 2 && forall|d: int| 2 <= d < n ==> #[trigger] (n % d) != 0
}

/// The reply of the primality service.
pub struct Response {
    pub method: String,
    pub prime: bool,
}

impl Response {
    /// A fresh reply: method "isPrime", with `prime` still false.
    pub fn new() -> (r: Response)
        ensures
            r.method@ == "isPrime"@,
            r.prime == false,
    {
        Response { method: "isPrime".to_owned(), prime: false }
    }
}

/// Trial division up to the square root: whether `n` is prime.
pub fn prime_test(n: i64) -> (r: bool)
    ensures
        r == is_prime(n as int),
{
    if n <= 1 {
        return false;
    }
    let mut x: i64 = 2;
    while x <= n / x
        invariant
            2 <= x,
            2 <= n,
            forall|d: int| 2 <= d < x ==> #[trigger] ((n as int) % d) != 0,
        decreases n - x,
    {
        if n % x == 0 {
            proof {
                lemma_div_is_ordered_by_denominator(n as int, 2, x as int);
                lemma_div_decreases(n as int, 2);
                assert(2 <= x < n);
                assert(!is_prime(n as int));
            }
            return false;
        }
        proof {
            lemma_div_is_ordered_by_denominator(n as int, 2, x as int);
            lemma_div_decreases(n as int, 2);
            assert(x < n);
        }
        x = x + 1;
    }
    proof {
        assert forall|d: int| 2 <= d < n as int implies #[trigger] ((n as int) % d)
            != 0 by {
            if (n as int) % d == 0 && d >= x as int {
                lemma_fundamental_div_mod(n as int, d);
                let e = (n as int) / d;
                assert(n as int == d * e);
                assert(e >= 1) by (nonlinear_arith)
                    requires
                        n as int == d * e,
                        d >= 2,
                        n >= 2,
                ;
                assert(e != 1) by {
                    if e == 1 {
                        assert(n as int == d) by (nonlinear_arith)
                            requires
                                n as int == d * e,
                                e == 1,
                        ;
                    }
                }
                lemma_div_is_ordered_by_denominator(n as int, x as int, d);
                assert(e <= (n as int) / (x as int));
                assert(e < x as int);
                lemma_mod_multiples_basic(d, e);
                assert((d * e) % e == 0);
                assert((n as int) % e == 0);
            }
        }
    }
    true
}

} // verus!
