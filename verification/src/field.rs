//! The field abstraction: arithmetic modulo a small prime.
//!
//! Every value in the constraint grid is an element of the prime field with
//! `FIELD_MODULUS` elements. The modulus is chosen just large enough that the
//! example gadgets (recurrences up to 55, products up to 252, lookup tables
//! up to 256 entries) never collide with a wrap-around, while staying small
//! enough that a multiplicative inverse can be found by direct search.

use vstd::arithmetic::div_mod::{
    lemma_mod_add_multiples_vanish, lemma_mod_bound, lemma_small_mod,
};
use vstd::prelude::*;

verus! {

/// The field modulus: the prime 257.
pub const FIELD_MODULUS: u64 = 257;

/// The modulus as a mathematical integer, for use in specifications.
pub open spec fn p() -> int {
    FIELD_MODULUS as int
}

/// Field addition on canonical representatives.
pub open spec fn fadd(a: int, b: int) -> int {
    (a + b) % p()
}

/// Field subtraction on canonical representatives.
pub open spec fn fsub(a: int, b: int) -> int {
    (a - b) % p()
}

/// Field multiplication on canonical representatives.
pub open spec fn fmul(a: int, b: int) -> int {
    (a * b) % p()
}

/// Field negation on canonical representatives.
pub open spec fn fneg(a: int) -> int {
    (p() - a) % p()
}

/// A field element, held as its canonical representative in `[0, FIELD_MODULUS)`.
#[derive(Clone, Copy, Debug, PartialEq, Eq, Structural)]
pub struct Fp {
    pub v: u64,
}

impl Fp {
    /// A field element is well formed when its representative is reduced.
    pub open spec fn wf(self) -> bool {
        self.v < FIELD_MODULUS
    }

    /// The value of this element as a mathematical integer.
    pub open spec fn val(self) -> int {
        self.v as int
    }

    /// The additive identity.
    pub fn zero() -> (r: Fp)
        ensures
            r.wf(),
            r.val() == 0,
    {
        Fp { v: 0 }
    }

    /// The multiplicative identity.
    pub fn one() -> (r: Fp)
        ensures
            r.wf(),
            r.val() == 1,
    {
        Fp { v: 1 }
    }

    /// The field element congruent to `v`.
    pub fn new(v: u64) -> (r: Fp)
        ensures
            r.wf(),
            r.val() == v as int % p(),
    {
        proof {
            lemma_mod_bound(v as int, p());
        }
        Fp { v: v % FIELD_MODULUS }
    }

    /// Field addition.
    pub fn add(self, other: Fp) -> (r: Fp)
        requires
            self.wf(),
            other.wf(),
        ensures
            r.wf(),
            r.val() == fadd(self.val(), other.val()),
    {
        proof {
            lemma_mod_bound(self.val() + other.val(), p());
        }
        Fp { v: (self.v + other.v) % FIELD_MODULUS }
    }

    /// Field subtraction.
    pub fn sub(self, other: Fp) -> (r: Fp)
        requires
            self.wf(),
            other.wf(),
        ensures
            r.wf(),
            r.val() == fsub(self.val(), other.val()),
    {
        proof {
            lemma_mod_add_multiples_vanish(self.val() - other.val(), p());
            lemma_mod_bound(self.val() - other.val(), p());
        }
        Fp { v: (self.v + FIELD_MODULUS - other.v) % FIELD_MODULUS }
    }

    /// Field negation.
    pub fn neg(self) -> (r: Fp)
        requires
            self.wf(),
        ensures
            r.wf(),
            r.val() == fneg(self.val()),
    {
        proof {
            lemma_mod_bound(p() - self.val(), p());
        }
        Fp { v: (FIELD_MODULUS - self.v) % FIELD_MODULUS }
    }

    /// Field multiplication.
    pub fn mul(self, other: Fp) -> (r: Fp)
        requires
            self.wf(),
            other.wf(),
        ensures
            r.wf(),
            r.val() == fmul(self.val(), other.val()),
    {
        proof {
            assert(self.v * other.v <= 256 * 256) by (nonlinear_arith)
                requires
                    self.v < 257,
                    other.v < 257,
            ;
            lemma_mod_bound(self.val() * other.val(), p());
        }
        Fp { v: (self.v * other.v) % FIELD_MODULUS }
    }

    /// The multiplicative inverse of a nonzero element, and zero for zero.
    pub fn invert_or_zero(self) -> (r: Fp)
        requires
            self.wf(),
        ensures
            r.wf(),
            self.val() == 0 ==> r.val() == 0,
            self.val() != 0 ==> fmul(self.val(), r.val()) == 1,
    {
        if self.v == 0 {
            return Fp { v: 0 };
        }
        let ghost w = lemma_inverse_exists(self.val());
        let mut x: u64 = 1;
        while x < FIELD_MODULUS
            invariant
                self.wf(),
                0 < self.val() < p(),
                1 <= x <= FIELD_MODULUS,
                fmul(self.val(), w) == 1,
                1 <= w < p(),
                forall|y: int| 1 <= y < x ==> fmul(self.val(), y) != 1,
            decreases FIELD_MODULUS - x,
        {
            proof {
                assert(self.v * x <= 256 * 256) by (nonlinear_arith)
                    requires
                        self.v < 257,
                        x < 257,
                ;
                lemma_mod_bound(self.val() * x as int, p());
            }
            if (self.v * x) % FIELD_MODULUS == 1 {
                return Fp { v: x };
            }
            x = x + 1;
        }
        proof {
            assert(fmul(self.val(), w) != 1);
        }
        Fp { v: 0 }
    }
}

/// The greatest common divisor, by the Euclidean recursion.
pub open spec fn gcd(a: nat, b: nat) -> nat
    decreases b,
{
    if b == 0 {
        a
    } else {
        gcd(b, a % b)
    }
}

/// Whether `d` divides `n` over the integers.
pub open spec fn divides(d: int, n: int) -> bool {
    exists|k: int| n == #[trigger] (d * k)
}

/// The greatest common divisor divides both of its arguments.
proof fn lemma_gcd_divides(a: nat, b: nat)
    ensures
        divides(gcd(a, b) as int, a as int),
        divides(gcd(a, b) as int, b as int),
    decreases b,
{
    if b == 0 {
        assert(a as int == gcd(a, b) as int * 1);
        assert(b as int == gcd(a, b) as int * 0);
    } else {
        lemma_gcd_divides(b, a % b);
        let g = gcd(b, a % b) as int;
        let k1 = choose|k: int| b as int == #[trigger] (g * k);
        let k2 = choose|k: int| (a % b) as int == #[trigger] (g * k);
        vstd::arithmetic::div_mod::lemma_fundamental_div_mod(a as int, b as int);
        let q = a as int / b as int;
        assert(a as int == b as int * q + (a % b) as int);
        assert(g * k1 * q + g * k2 == g * (k1 * q + k2)) by (nonlinear_arith);
        assert(b as int * q == g * k1 * q);
        assert(a as int == g * (k1 * q + k2));
    }
}

/// Bezout coefficients: returns `(x, y)` with `x * a + y * b == gcd(a, b)`.
proof fn lemma_bezout(a: nat, b: nat) -> (r: (int, int))
    ensures
        r.0 * a + r.1 * b == gcd(a, b) as int,
    decreases b,
{
    if b == 0 {
        (1, 0)
    } else {
        let (x, y) = lemma_bezout(b, a % b);
        vstd::arithmetic::div_mod::lemma_fundamental_div_mod(a as int, b as int);
        let q = a as int / b as int;
        assert((a % b) as int == a as int - b as int * q);
        assert(x * b + y * (a as int - b as int * q) == y * a + (x - y * q) * b)
            by (nonlinear_arith);
        (y, x - y * q)
    }
}

/// No two integers that are both at least 2 multiply to the field modulus:
/// the modulus is prime.
proof fn lemma_no_factorization(g: int, k: int)
    requires
        2 <= g,
        2 <= k,
    ensures
        g * k != 257,
    decreases g,
{
    if g > k {
        lemma_no_factorization(k, g);
        assert(g * k == k * g) by (nonlinear_arith);
    } else if g * k == 257 {
        assert(g * g <= g * k) by (nonlinear_arith)
            requires
                2 <= g <= k,
        ;
        assert(g <= 16) by (nonlinear_arith)
            requires
                g * g <= 257,
                2 <= g,
        ;
        if g == 2 {
            assert(g * k != 257) by (nonlinear_arith)
                requires
                    g == 2,
            ;
        } else if g == 3 {
            assert(g * k != 257) by (nonlinear_arith)
                requires
                    g == 3,
            ;
        } else if g == 4 {
            assert(g * k != 257) by (nonlinear_arith)
                requires
                    g == 4,
            ;
        } else if g == 5 {
            assert(g * k != 257) by (nonlinear_arith)
                requires
                    g == 5,
            ;
        } else if g == 6 {
            assert(g * k != 257) by (nonlinear_arith)
                requires
                    g == 6,
            ;
        } else if g == 7 {
            assert(g * k != 257) by (nonlinear_arith)
                requires
                    g == 7,
            ;
        } else if g == 8 {
            assert(g * k != 257) by (nonlinear_arith)
                requires
                    g == 8,
            ;
        } else if g == 9 {
            assert(g * k != 257) by (nonlinear_arith)
                requires
                    g == 9,
            ;
        } else if g == 10 {
            assert(g * k != 257) by (nonlinear_arith)
                requires
                    g == 10,
            ;
        } else if g == 11 {
            assert(g * k != 257) by (nonlinear_arith)
                requires
                    g == 11,
            ;
        } else if g == 12 {
            assert(g * k != 257) by (nonlinear_arith)
                requires
                    g == 12,
            ;
        } else if g == 13 {
            assert(g * k != 257) by (nonlinear_arith)
                requires
                    g == 13,
            ;
        } else if g == 14 {
            assert(g * k != 257) by (nonlinear_arith)
                requires
                    g == 14,
            ;
        } else if g == 15 {
            assert(g * k != 257) by (nonlinear_arith)
                requires
                    g == 15,
            ;
        } else {
            assert(g == 16);
            assert(g * k != 257) by (nonlinear_arith)
                requires
                    g == 16,
            ;
        }
    }
}

/// The greatest common divisor of the modulus and any smaller positive
/// integer is 1.
proof fn lemma_gcd_with_modulus(v: nat)
    requires
        1 <= v < 257,
    ensures
        gcd(257, v) == 1,
{
    let g = gcd(257, v) as int;
    lemma_gcd_divides(257, v);
    let k1 = choose|k: int| 257 == #[trigger] (g * k);
    let k2 = choose|k: int| v as int == #[trigger] (g * k);
    if g == 0 {
        assert(257 == 0 * k1);
    } else if g >= 2 {
        assert(k1 >= 0) by (nonlinear_arith)
            requires
                g * k1 == 257,
                g >= 2,
        ;
        assert(k2 >= 1) by (nonlinear_arith)
            requires
                g * k2 == v,
                v >= 1,
                g >= 2,
        ;
        assert(g <= v) by (nonlinear_arith)
            requires
                g * k2 == v,
                k2 >= 1,
                g >= 2,
        ;
        if k1 <= 1 {
            assert(g * k1 <= g) by (nonlinear_arith)
                requires
                    k1 <= 1,
                    g >= 0,
                    k1 >= 0,
            ;
        } else {
            lemma_no_factorization(g, k1);
        }
    }
}

/// Every nonzero element of the field has a multiplicative inverse; returns
/// one. This rests on the modulus being prime: a Bezout identity
/// `x * 257 + y * v == 1` reduces modulo 257 to `y * v == 1`.
pub proof fn lemma_inverse_exists(v: int) -> (w: int)
    requires
        1 <= v < p(),
    ensures
        1 <= w < p(),
        fmul(v, w) == 1,
{
    lemma_gcd_with_modulus(v as nat);
    let (x, y) = lemma_bezout(257, v as nat);
    assert(x * 257 + y * v == 1);
    let w = y % 257;
    assert((y * v) % 257 == 1) by {
        vstd::arithmetic::div_mod::lemma_mod_multiples_vanish(x, y * v, 257);
        assert(257 * x + y * v == x * 257 + y * v) by (nonlinear_arith);
        lemma_small_mod(1, 257);
    }
    assert(fmul(v, w) == 1) by {
        vstd::arithmetic::div_mod::lemma_mul_mod_noop_general(v, y, 257);
        assert(v * y == y * v) by (nonlinear_arith);
        lemma_mod_bound(y, 257);
    }
    if w == 0 {
        assert(v * 0 == 0) by (nonlinear_arith);
        lemma_small_mod(0, 257);
    }
    lemma_mod_bound(y, 257);
    w
}

/// The field has no zero divisors: a product of nonzero elements is nonzero.
pub proof fn lemma_no_zero_divisors(a: int, b: int)
    requires
        0 <= a < p(),
        0 <= b < p(),
        fmul(a, b) == 0,
    ensures
        a == 0 || b == 0,
{
    if a != 0 && b != 0 {
        let w = lemma_inverse_exists(a);
        assert(fmul(w, fmul(a, b)) == b) by {
            vstd::arithmetic::div_mod::lemma_mul_mod_noop_general(w, a * b, 257);
            assert(w * (a * b) == (w * a) * b) by (nonlinear_arith);
            vstd::arithmetic::div_mod::lemma_mul_mod_noop_general(w * a, b, 257);
            assert((a * w) == (w * a)) by (nonlinear_arith);
            assert(1 * b == b) by (nonlinear_arith);
            lemma_small_mod(b as nat, 257);
        }
        assert(w * 0 == 0) by (nonlinear_arith);
        lemma_small_mod(0, 257);
    }
}

} // verus!
