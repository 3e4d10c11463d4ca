//! Prime factors of a 64-bit number by trial division.

use vstd::prelude::*;
use vstd::arithmetic::div_mod::{lemma_fundamental_div_mod, lemma_mod_multiples_basic};

verus! {

/// No number from 2 up to `bound`, `bound` left out, divides `n`.
pub open spec fn no_divisor_below(n: nat, bound: nat) -> bool {
    forall|d: nat| 2 <= d < bound ==> #[trigger] (n % d) != 0
}

/// `n` is a prime number.
pub open spec fn is_prime(n: nat) -> bool {
    n >= 2 && no_divisor_below(n, n)
}

/// The product of the numbers of a sequence; 1 for none.
pub open spec fn product(factors: Seq<u64>) -> nat
    decreases factors.len(),
{
    if factors.len() == 0 {
        1
    } else {
        product(factors.drop_last()) * factors.last() as nat
    }
}

/// The numbers of the sequence are in ascending order.
pub open spec fn ascending(factors: Seq<u64>) -> bool {
    forall|j: int, k: int| 0 <= j <= k < factors.len() ==> factors[j] <= factors[k]
}

/// Every number of the sequence is prime.
pub open spec fn all_prime(factors: Seq<u64>) -> bool {
    forall|k: int| 0 <= k < factors.len() ==> is_prime(#[trigger] factors[k] as nat)
}

/// `factors` is the prime factorization of `n`: its primes in ascending
/// order, each as often as it divides `n`. The numbers 0 and 1 have none.
pub open spec fn is_factorization(n: nat, factors: Seq<u64>) -> bool {
    &&& all_prime(factors)
    &&& ascending(factors)
    &&& if n < 2 {
        factors.len() == 0
    } else {
        product(factors) == n
    }
}

/// What divides a divisor divides the number.
proof fn lemma_divides_transitive(a: nat, b: nat, c: nat)
    requires
        b > 0,
        c > 0,
        a % b == 0,
        b % c == 0,
    ensures
        a % c == 0,
{
    lemma_fundamental_div_mod(a as int, b as int);
    lemma_fundamental_div_mod(b as int, c as int);
    let q = (b / c) * (a / b);
    assert(a == q * c) by (nonlinear_arith)
        requires
            a == b * (a / b),
            b == c * (b / c),
            q == (b / c) * (a / b),
    ;
    lemma_mod_multiples_basic(q as int, c as int);
}

/// A divisor of a quotient divides the number.
proof fn lemma_divisor_of_quotient(n: nat, i: nat, d: nat)
    requires
        i > 0,
        d > 0,
        n % i == 0,
        (n / i) % d == 0,
    ensures
        n % d == 0,
{
    lemma_fundamental_div_mod(n as int, i as int);
    lemma_fundamental_div_mod((n / i) as int, d as int);
    let q = ((n / i) / d) * i;
    assert(n == q * d) by (nonlinear_arith)
        requires
            n == i * (n / i),
            n / i == d * ((n / i) / d),
            q == ((n / i) / d) * i,
    ;
    lemma_mod_multiples_basic(q as int, d as int);
}

/// A number above 1 without a divisor below `bound` is prime once the
/// square of `bound` exceeds it.
proof fn lemma_prime_by_square(n: nat, bound: nat)
    requires
        n >= 2,
        bound * bound > n,
        no_divisor_below(n, bound),
    ensures
        is_prime(n),
{
    assert forall|d: nat| 2 <= d < n implies #[trigger] (n % d) != 0 by {
        if d >= bound && n % d == 0 {
            lemma_fundamental_div_mod(n as int, d as int);
            let q = n / d;
            assert(n == d * q);
            assert(q < bound && q >= 2 && n == q * d) by (nonlinear_arith)
                requires
                    n == d * q,
                    d >= bound,
                    bound * bound > n,
                    2 <= d < n,
                    q >= 0,
            ;
            lemma_mod_multiples_basic(d as int, q as int);
            assert(n % q == 0);
        }
    }
}

/// The product of a sequence with one more number.
proof fn lemma_product_push(factors: Seq<u64>, factor: u64)
    ensures
        product(factors.push(factor)) == product(factors) * factor as nat,
{
    assert(factors.push(factor).drop_last() =~= factors);
}

/// A product of primes is at least 1, and at least 2 if there is one.
proof fn lemma_product_of_primes(factors: Seq<u64>)
    requires
        all_prime(factors),
    ensures
        product(factors) >= 1,
        factors.len() > 0 ==> product(factors) >= 2,
    decreases factors.len(),
{
    if factors.len() > 0 {
        assert(all_prime(factors.drop_last())) by {
            assert forall|k: int| 0 <= k < factors.drop_last().len() implies is_prime(
                #[trigger] factors.drop_last()[k] as nat,
            ) by {
                assert(factors.drop_last()[k] == factors[k]);
            }
        }
        lemma_product_of_primes(factors.drop_last());
        assert(is_prime(factors[factors.len() - 1] as nat));
        assert(product(factors) >= 2) by (nonlinear_arith)
            requires
                product(factors) == product(factors.drop_last()) * factors.last() as nat,
                product(factors.drop_last()) >= 1,
                factors.last() >= 2,
        ;
    }
}

/// A number is prime exactly when its factorization is one prime long.
pub proof fn lemma_prime_has_one_factor(n: nat, factors: Seq<u64>)
    requires
        is_factorization(n, factors),
    ensures
        is_prime(n) <==> factors.len() == 1,
{
    if factors.len() == 1 {
        assert(factors.drop_last() =~= Seq::<u64>::empty());
        assert(product(factors.drop_last()) == 1);
        assert(is_prime(factors[0] as nat));
        if n < 2 {
        } else {
            assert(product(factors) == factors[0]) by (nonlinear_arith)
                requires
                    product(factors) == product(factors.drop_last()) * factors.last() as nat,
                    product(factors.drop_last()) == 1,
                    factors.last() == factors[0],
            ;
        }
    } else if factors.len() >= 2 && n >= 2 {
        let last = factors.last() as nat;
        let rest = product(factors.drop_last());
        assert(all_prime(factors.drop_last())) by {
            assert forall|k: int| 0 <= k < factors.drop_last().len() implies is_prime(
                #[trigger] factors.drop_last()[k] as nat,
            ) by {
                assert(factors.drop_last()[k] == factors[k]);
            }
        }
        lemma_product_of_primes(factors.drop_last());
        assert(is_prime(factors[factors.len() - 1] as nat));
        assert(n == rest * last);
        assert(2 <= last < n) by (nonlinear_arith)
            requires
                n == rest * last,
                rest >= 2,
                last >= 2,
        ;
        lemma_mod_multiples_basic(rest as int, last as int);
        assert(n % last == 0);
    } else if factors.len() == 0 && n >= 2 {
        assert(product(factors) == 1);
    }
}

/// Whether the square of `candidate` is at most `limit`.
fn square_within(candidate: u64, limit: u64) -> (within: bool)
    requires
        candidate > 0,
    ensures
        within == (candidate * candidate <= limit),
{
    proof {
        lemma_fundamental_div_mod(limit as int, candidate as int);
        let q = limit / candidate;
        let r = limit % candidate;
        assert((candidate <= q) == (candidate * candidate <= limit)) by (nonlinear_arith)
            requires
                limit == candidate * q + r,
                0 <= r < candidate,
                q >= 0,
        ;
    }
    candidate <= limit / candidate
}

/// A multiple of `p` less a multiple of `p` is a multiple of `p`.
proof fn lemma_difference_of_multiples(p: nat, x: nat, y: nat)
    requires
        p > 0,
        x >= y,
        x % p == 0,
        y % p == 0,
    ensures
        ((x - y) as nat) % p == 0,
{
    lemma_fundamental_div_mod(x as int, p as int);
    lemma_fundamental_div_mod(y as int, p as int);
    let q = x / p - y / p;
    assert(x - y == q * p) by (nonlinear_arith)
        requires
            x == p * (x / p),
            y == p * (y / p),
            q == x / p - y / p,
    ;
    lemma_mod_multiples_basic(q as int, p as int);
}

/// A sum of two multiples of `g` is a multiple of `g`.
proof fn lemma_sum_of_multiples(g: nat, x: nat, y: nat)
    requires
        g > 0,
        x % g == 0,
        y % g == 0,
    ensures
        (x + y) % g == 0,
{
    lemma_fundamental_div_mod(x as int, g as int);
    lemma_fundamental_div_mod(y as int, g as int);
    let q = x / g + y / g;
    assert(x + y == q * g) by (nonlinear_arith)
        requires
            x == g * (x / g),
            y == g * (y / g),
            q == x / g + y / g,
    ;
    lemma_mod_multiples_basic(q as int, g as int);
}

/// Where `p` divides both `x * b` and `y * b`, it divides `g * b` for a
/// common divisor `g` of `x` and `y`.
proof fn lemma_common_divisor(p: nat, b: nat, x: nat, y: nat) -> (g: nat)
    requires
        p > 0,
        x > 0,
        y > 0,
        (x * b) % p == 0,
        (y * b) % p == 0,
    ensures
        g > 0,
        x % g == 0,
        y % g == 0,
        (g * b) % p == 0,
    decreases x + y,
{
    if x == y {
        assert(x % x == 0);
        x
    } else if x > y {
        let rest = (x - y) as nat;
        assert(rest * b == x * b - y * b) by (nonlinear_arith)
            requires
                rest == x - y,
        ;
        assert(x * b >= y * b) by (nonlinear_arith)
            requires
                x > y,
        ;
        lemma_difference_of_multiples(p, x * b, y * b);
        let g = lemma_common_divisor(p, b, rest, y);
        lemma_sum_of_multiples(g, rest, y);
        g
    } else {
        let rest = (y - x) as nat;
        assert(rest * b == y * b - x * b) by (nonlinear_arith)
            requires
                rest == y - x,
        ;
        assert(y * b >= x * b) by (nonlinear_arith)
            requires
                y > x,
        ;
        lemma_difference_of_multiples(p, y * b, x * b);
        let g = lemma_common_divisor(p, b, x, rest);
        lemma_sum_of_multiples(g, x, rest);
        g
    }
}

/// A prime that divides a product divides one of the two factors.
proof fn lemma_prime_divides_factor(p: nat, a: nat, b: nat)
    requires
        is_prime(p),
        a > 0,
        (a * b) % p == 0,
    ensures
        a % p == 0 || b % p == 0,
{
    lemma_mod_multiples_basic(b as int, p as int);
    assert((p * b) % p == 0) by {
        assert(p * b == b * p) by (nonlinear_arith);
    }
    let g = lemma_common_divisor(p, b, p, a);
    assert(g <= p) by {
        if g > p {
            vstd::arithmetic::div_mod::lemma_small_mod(p, g);
        }
    }
    if g == p {
    } else if g == 1 {
        assert(g * b == b) by (nonlinear_arith)
            requires
                g == 1,
        ;
    } else {
        assert(p % g != 0);
    }
}

/// A prime that divides a prime is that prime.
proof fn lemma_prime_divides_prime(p: nat, q: nat)
    requires
        is_prime(p),
        is_prime(q),
        q % p == 0,
    ensures
        p == q,
{
    if p > q {
        vstd::arithmetic::div_mod::lemma_small_mod(q, p);
    }
}

/// The primes of a sequence without its last are primes in ascending
/// order as those of the sequence are.
proof fn lemma_drop_last_keeps(factors: Seq<u64>)
    requires
        factors.len() > 0,
    ensures
        all_prime(factors) ==> all_prime(factors.drop_last()),
        ascending(factors) ==> ascending(factors.drop_last()),
{
    if all_prime(factors) {
        assert forall|k: int| 0 <= k < factors.drop_last().len() implies is_prime(
            #[trigger] factors.drop_last()[k] as nat,
        ) by {
            assert(factors.drop_last()[k] == factors[k]);
        }
    }
    if ascending(factors) {
        assert forall|j: int, k: int| 0 <= j <= k < factors.drop_last().len() implies factors.drop_last()[j]
            <= factors.drop_last()[k] by {
            assert(factors.drop_last()[j] == factors[j]);
            assert(factors.drop_last()[k] == factors[k]);
        }
    }
}

/// A prime that divides a product of primes is one of them.
proof fn lemma_prime_is_among(p: nat, factors: Seq<u64>) -> (at: int)
    requires
        is_prime(p),
        all_prime(factors),
        product(factors) % p == 0,
    ensures
        0 <= at < factors.len(),
        factors[at] == p,
    decreases factors.len(),
{
    if factors.len() == 0 {
        assert(product(factors) == 1);
        vstd::arithmetic::div_mod::lemma_small_mod(1, p);
        0
    } else {
        let rest = factors.drop_last();
        let last = factors.last() as nat;
        lemma_drop_last_keeps(factors);
        lemma_product_of_primes(rest);
        assert(is_prime(factors[factors.len() - 1] as nat));
        lemma_prime_divides_factor(p, product(rest), last);
        if last % p == 0 {
            lemma_prime_divides_prime(p, last);
            factors.len() - 1
        } else {
            let at = lemma_prime_is_among(p, rest);
            assert(rest[at] == factors[at]);
            at
        }
    }
}

/// Two sequences of primes in ascending order with one product are one
/// sequence.
proof fn lemma_same_product_same_primes(a: Seq<u64>, b: Seq<u64>)
    requires
        all_prime(a),
        ascending(a),
        all_prime(b),
        ascending(b),
        product(a) == product(b),
    ensures
        a == b,
    decreases a.len(),
{
    lemma_product_of_primes(a);
    lemma_product_of_primes(b);
    if a.len() == 0 {
        assert(product(a) == 1);
        assert(a =~= b);
    } else if b.len() == 0 {
        assert(product(b) == 1);
    } else {
        let p = a.last() as nat;
        let q = b.last() as nat;
        assert(is_prime(a[a.len() - 1] as nat));
        assert(is_prime(b[b.len() - 1] as nat));
        lemma_mod_multiples_basic(product(a.drop_last()) as int, p as int);
        lemma_mod_multiples_basic(product(b.drop_last()) as int, q as int);
        let i = lemma_prime_is_among(p, b);
        let j = lemma_prime_is_among(q, a);
        assert(p == q);
        lemma_drop_last_keeps(a);
        lemma_drop_last_keeps(b);
        assert(product(a.drop_last()) == product(b.drop_last())) by (nonlinear_arith)
            requires
                product(a.drop_last()) * p == product(b.drop_last()) * p,
                p > 0,
        ;
        lemma_same_product_same_primes(a.drop_last(), b.drop_last());
        assert(a =~= a.drop_last().push(a.last()));
        assert(b =~= b.drop_last().push(b.last()));
    }
}

/// A number has one prime factorization only.
pub proof fn lemma_factorization_is_unique(n: nat, a: Seq<u64>, b: Seq<u64>)
    requires
        is_factorization(n, a),
        is_factorization(n, b),
    ensures
        a == b,
{
    if n < 2 {
        assert(a =~= b);
    } else {
        lemma_same_product_same_primes(a, b);
    }
}

/// The prime factorization of `n`.
pub open spec fn factorization(n: nat) -> Seq<u64> {
    choose|factors: Seq<u64>| is_factorization(n, factors)
}

/// The prime factors of `n` in ascending order, each as often as it
/// divides `n`; none for 0 and 1.
pub fn factorize(n: u64) -> (factors: Vec<u64>)
    ensures
        is_factorization(n as nat, factors@),
        factors@ == factorization(n as nat),
{
    let factors = trial_division(n);
    proof {
        lemma_factorization_is_unique(n as nat, factors@, factorization(n as nat));
    }
    factors
}

/// The prime factors of `n` by trial division: first by 2, then by the
/// odd numbers up to the square root of what is left.
fn trial_division(n: u64) -> (factors: Vec<u64>)
    ensures
        is_factorization(n as nat, factors@),
{
    let mut factors: Vec<u64> = Vec::new();
    if n < 2 {
        return factors;
    }
    let mut rest: u64 = n;
    assert(product(factors@) * rest == n) by {
        assert(product(factors@) == 1);
    }
    while rest % 2 == 0
        invariant
            rest >= 1,
            product(factors@) * rest == n,
            forall|k: int| 0 <= k < factors@.len() ==> factors@[k] == 2,
        decreases rest,
    {
        proof {
            lemma_product_push(factors@, 2);
            lemma_fundamental_div_mod(rest as int, 2);
            assert(product(factors@) * 2 * (rest / 2) == n) by (nonlinear_arith)
                requires
                    product(factors@) * rest == n,
                    rest == 2 * (rest / 2),
            ;
        }
        rest = rest / 2;
        factors.push(2);
    }
    assert(is_prime(2)) by {
        assert(no_divisor_below(2, 2));
    }
    let mut candidate: u64 = 3;
    while square_within(candidate, rest)
        invariant
            rest >= 1,
            candidate >= 3,
            candidate % 2 == 1,
            product(factors@) * rest == n,
            all_prime(factors@),
            ascending(factors@),
            forall|k: int| 0 <= k < factors@.len() ==> factors@[k] <= candidate,
            no_divisor_below(rest as nat, candidate as nat),
        decreases
                if rest >= candidate {
                    rest - candidate + 1
                } else {
                    0
                },
    {
        assert(candidate <= rest && candidate + 2 <= u64::MAX) by (nonlinear_arith)
            requires
                candidate * candidate <= rest,
                candidate >= 3,
                rest <= u64::MAX,
        ;
        if rest % candidate == 0 {
            proof {
                assert(is_prime(candidate as nat)) by {
                    assert forall|d: nat| 2 <= d < candidate implies #[trigger] (candidate as nat
                        % d) != 0 by {
                        if candidate as nat % d == 0 {
                            lemma_divides_transitive(rest as nat, candidate as nat, d);
                        }
                    }
                }
                lemma_product_push(factors@, candidate);
                lemma_fundamental_div_mod(rest as int, candidate as int);
                assert(product(factors@) * candidate * (rest / candidate) == n && rest / candidate
                    >= 1 && rest / candidate < rest) by (nonlinear_arith)
                    requires
                        product(factors@) * rest == n,
                        rest == candidate * (rest / candidate),
                        rest >= 1,
                        candidate >= 3,
                ;
                assert forall|d: nat| 2 <= d < candidate implies #[trigger] ((rest / candidate) as nat
                    % d) != 0 by {
                    if (rest / candidate) as nat % d == 0 {
                        lemma_divisor_of_quotient(rest as nat, candidate as nat, d);
                    }
                }
            }
            rest = rest / candidate;
            factors.push(candidate);
        } else {
            proof {
                assert forall|d: nat| 2 <= d < candidate + 2 implies #[trigger] (rest as nat % d)
                    != 0 by {
                    if d == candidate + 1 && rest as nat % d == 0 {
                        assert(d % 2 == 0);
                        lemma_divides_transitive(rest as nat, d, 2);
                        assert(rest as nat % 2 != 0);
                    }
                }
            }
            candidate = candidate + 2;
        }
    }
    if rest != 1 {
        proof {
            assert(candidate as nat * candidate as nat > rest as nat);
            lemma_prime_by_square(rest as nat, candidate as nat);
            assert(rest >= candidate) by {
                if rest < candidate {
                    assert(rest as nat % (rest as nat) == 0);
                }
            }
            lemma_product_push(factors@, rest);
        }
        factors.push(rest);
    } else {
        assert(product(factors@) == n) by (nonlinear_arith)
            requires
                product(factors@) * rest == n,
                rest == 1,
        ;
    }
    factors
}

/// Whether `n` is prime.
pub fn is_prime_number(n: u64) -> (prime: bool)
    ensures
        prime == is_prime(n as nat),
{
    let factors = factorize(n);
    proof {
        lemma_prime_has_one_factor(n as nat, factors@);
    }
    factors.len() == 1
}

} // verus!
