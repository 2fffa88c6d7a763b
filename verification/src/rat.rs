//! Exact rational scalars.
//!
//! [`Rat`] is a fraction of two `i128`s with a positive denominator. Every
//! arithmetic operation reduces its result by the greatest common divisor and
//! reports `None` when the exact value cannot be held in an `i128` pair, so a
//! `Some` answer is always the mathematically exact one. The specification
//! side mirrors each operation over [`RatV`], a pair of unbounded integers.

use vstd::arithmetic::div_mod::{
    lemma_fundamental_div_mod, lemma_mod_multiples_basic, lemma_mod_self_0,
};
use vstd::prelude::*;

verus! {

/// The specification-level value of a rational: the fraction `n / d`.
///
/// Values produced by [`norm_pair`] always have `d > 0`.
pub struct RatV {
    pub n: int,
    pub d: int,
}

/// Magnitude of an integer.
pub open spec fn iabs(x: int) -> nat {
    if x >= 0 {
        x as nat
    } else {
        (-x) as nat
    }
}

/// Greatest common divisor by Euclid's recurrence; `gcd_nat(a, 0) == a`.
pub open spec fn gcd_nat(a: nat, b: nat) -> nat
    decreases b,
{
    if b == 0 {
        a
    } else {
        gcd_nat(b, a % b)
    }
}

/// `x` lies in the `i128` range.
pub open spec fn in_i128(x: int) -> bool {
    i128::MIN <= x <= i128::MAX
}

/// `x` lies strictly inside the `i128` range, so `-x` does too.
pub open spec fn fits(x: int) -> bool {
    i128::MIN < x <= i128::MAX
}

/// The reduced form of the fraction `n / d`: the sign is moved onto the
/// numerator and both parts are divided by their greatest common divisor.
/// Meaningful only for `d != 0`.
pub open spec fn norm_pair(n: int, d: int) -> RatV {
    let n1 = if d < 0 {
        -n
    } else {
        n
    };
    let d1 = if d < 0 {
        -d
    } else {
        d
    };
    let g = gcd_nat(iabs(n1), d1 as nat) as int;
    RatV { n: n1 / g, d: d1 / g }
}

/// Well-formedness of a rational value: positive denominator, both parts
/// representable with a negatable numerator.
pub open spec fn rat_wf(v: RatV) -> bool {
    v.d > 0 && fits(v.n) && fits(v.d)
}

/// Mirror of addition over the least common denominator: the
/// denominators are divided by their greatest common divisor before the
/// cross products are formed, so fractions over one denominator add
/// without growth. `None` when an intermediate product or the scaled sum
/// leaves the `i128` range.
pub open spec fn rat_add_v(a: RatV, b: RatV) -> Option<RatV> {
    let g = gcd_nat(iabs(a.d), iabs(b.d)) as int;
    let ad1 = a.d / g;
    let bd1 = b.d / g;
    let p1 = a.n * bd1;
    let p2 = b.n * ad1;
    let dd = a.d * bd1;
    if in_i128(p1) && in_i128(p2) && fits(p1 + p2) && fits(dd) {
        Some(norm_pair(p1 + p2, dd))
    } else {
        None
    }
}

/// Mirror of negation; always exact.
pub open spec fn rat_neg_v(a: RatV) -> RatV {
    RatV { n: -a.n, d: a.d }
}

/// Mirror of subtraction: addition of the negated argument.
pub open spec fn rat_sub_v(a: RatV, b: RatV) -> Option<RatV> {
    rat_add_v(a, rat_neg_v(b))
}

/// Mirror of multiplication.
pub open spec fn rat_mul_v(a: RatV, b: RatV) -> Option<RatV> {
    let pn = a.n * b.n;
    let pd = a.d * b.d;
    if fits(pn) && fits(pd) {
        Some(norm_pair(pn, pd))
    } else {
        None
    }
}

/// Mirror of division; meaningful only for `b.n != 0`.
pub open spec fn rat_div_v(a: RatV, b: RatV) -> Option<RatV> {
    let pn = a.n * b.d;
    let pd = a.d * b.n;
    if fits(pn) && fits(pd) {
        Some(norm_pair(pn, pd))
    } else {
        None
    }
}

/// Strict order on rational values by cross-multiplication.
pub open spec fn rat_lt_v(a: RatV, b: RatV) -> bool {
    a.n * b.d < b.n * a.d
}

/// Non-strict order on rational values.
pub open spec fn rat_le_v(a: RatV, b: RatV) -> bool {
    a.n * b.d <= b.n * a.d
}

/// Equality of rational values, independent of representation.
pub open spec fn rat_eq_v(a: RatV, b: RatV) -> bool {
    a.n * b.d == b.n * a.d
}

/// The view of an optional exact result.
pub open spec fn opt_v(r: Option<Rat>) -> Option<RatV> {
    match r {
        Some(q) => Some(q@),
        None => None,
    }
}

/// Why an exact computation produced no value.
#[derive(Clone, Copy, Debug, PartialEq, Eq, Structural)]
pub enum NumError {
    /// An exact intermediate value left the representable range.
    Range,
    /// A required square root is irrational.
    Inexact,
    /// Degenerate input forced a division by zero.
    DivisionByZero,
}

/// An exact rational number: `num / den` with `den > 0`.
///
/// Constructed values are always reduced; operations that would leave the
/// representable range return `None` rather than rounding.
#[derive(Clone, Copy, Debug, PartialEq, Eq, Structural)]
pub struct Rat {
    num: i128,
    den: i128,
}

impl View for Rat {
    type V = RatV;

    closed spec fn view(&self) -> RatV {
        RatV { n: self.num as int, d: self.den as int }
    }
}

/// `d` divides `x` exactly.
pub open spec fn divides(d: int, x: int) -> bool {
    x % d == 0
}

/// The divisibility facts about the greatest common divisor that reduction
/// rests on: it is positive, divides both arguments, and is at most the
/// positive one.
pub proof fn lemma_gcd_divides(a: nat, b: nat)
    ensures
        b > 0 ==> {
            let g = gcd_nat(a, b) as int;
            &&& g >= 1
            &&& g <= b
            &&& divides(g, a as int)
            &&& divides(g, b as int)
        },
    decreases b,
{
    if b > 0 {
        let g = gcd_nat(a, b) as int;
        let r = a % b;
        assert(gcd_nat(a, b) == gcd_nat(b, r));
        if r == 0 {
            // gcd(b, 0) == b
            assert(gcd_nat(b, 0) == b);
            lemma_mod_self_0(b as int);
            assert(divides(g, b as int));
            assert(divides(g, a as int));
        } else {
            lemma_gcd_divides(b, r);
            let g2 = gcd_nat(b, r) as int;
            assert(g == g2);
            // g divides b and r, and a == (a / b) * b + r, so g divides a.
            lemma_fundamental_div_mod(a as int, b as int);
            let q = a as int / b as int;
            assert(a as int == (b as int) * q + r as int);
            lemma_fundamental_div_mod(b as int, g);
            lemma_fundamental_div_mod(r as int, g);
            let kb = b as int / g;
            let kr = r as int / g;
            assert(b as int == g * kb);
            assert(r as int == g * kr);
            assert(a as int == g * (kb * q + kr)) by (nonlinear_arith)
                requires
                    a as int == (b as int) * q + r as int,
                    b as int == g * kb,
                    r as int == g * kr,
            ;
            lemma_mod_multiples_basic(kb * q + kr, g);
            assert(divides(g, a as int));
            // g <= b because g divides the positive b.
            assert(g <= b) by (nonlinear_arith)
                requires
                    b as int == g * kb,
                    g >= 1,
                    b > 0,
            ;
        }
    }
}

/// What reduction does to a fraction with a nonzero denominator: it keeps
/// the ratio, makes the denominator positive, never grows either part, and
/// preserves the sign of the value.
pub proof fn lemma_norm_ratio(n: int, d: int)
    requires
        d != 0,
    ensures
        ({
            let v = norm_pair(n, d);
            &&& v.d > 0
            &&& v.n * d == n * v.d
            &&& iabs(v.n) <= iabs(n)
            &&& v.d <= iabs(d)
            &&& (v.n == 0 <==> n == 0)
            &&& (v.n > 0 <==> (n > 0 <==> d > 0) && n != 0)
        }),
{
    let n1 = if d < 0 {
        -n
    } else {
        n
    };
    let d1 = if d < 0 {
        -d
    } else {
        d
    };
    let m = iabs(n1);
    lemma_gcd_divides(m, d1 as nat);
    let g = gcd_nat(m, d1 as nat) as int;
    lemma_fundamental_div_mod(d1, g);
    let kd = d1 / g;
    assert(d1 == g * kd);
    assert(kd >= 1) by (nonlinear_arith)
        requires
            d1 == g * kd,
            d1 > 0,
            1 <= g <= d1,
    ;
    assert(kd <= d1) by (nonlinear_arith)
        requires
            d1 == g * kd,
            g >= 1,
            kd >= 1,
    ;
    // The numerator divides exactly as well: g divides |n1|, hence n1.
    lemma_fundamental_div_mod(m as int, g);
    let km = m as int / g;
    assert(m as int == g * km);
    assert(km >= 0) by (nonlinear_arith)
        requires
            m as int == g * km,
            m as int >= 0,
            g >= 1,
    ;
    assert(km <= m as int) by (nonlinear_arith)
        requires
            m as int == g * km,
            g >= 1,
            km >= 0,
    ;
    if n1 >= 0 {
        assert(n1 == g * km);
        lemma_exact_div(n1, g, km);
    } else {
        assert(n1 == g * (-km)) by (nonlinear_arith)
            requires
                m as int == g * km,
                n1 == -(m as int),
        ;
        lemma_exact_div(n1, g, -km);
    }
    let kn = n1 / g;
    // Ratio preservation: (n1 / g) * d == n * (d1 / g).
    if d < 0 {
        assert(kn * d == n * kd) by (nonlinear_arith)
            requires
                n1 == -n,
                d1 == -d,
                n1 == g * kn,
                d1 == g * kd,
                g >= 1,
        ;
    } else {
        assert(kn * d == n * kd) by (nonlinear_arith)
            requires
                n1 == n,
                d1 == d,
                n1 == g * kn,
                d1 == g * kd,
                g >= 1,
        ;
    }
    assert((kn == 0 <==> n1 == 0) && (kn > 0 <==> n1 > 0)) by (nonlinear_arith)
        requires
            n1 == g * kn,
            g >= 1,
    ;
}

/// Exact division: when `x == d * k`, Euclidean division recovers `k`.
pub proof fn lemma_exact_div(x: int, d: int, k: int)
    requires
        d >= 1,
        x == d * k,
    ensures
        x / d == k,
{
    vstd::arithmetic::div_mod::lemma_div_multiples_vanish(k, d);
}

impl Rat {
    /// The denominator is positive and both parts stay strictly inside
    /// the `i128` range, so negation is always possible. This holds of
    /// every reachable value.
    #[verifier::type_invariant]
    pub open spec fn inv(self) -> bool {
        rat_wf(self@)
    }

    /// The reduced rational with value `num / den`.
    pub fn new(num: i64, den: i64) -> (r: Rat)
        requires
            den != 0,
        ensures
            r@ == norm_pair(num as int, den as int),
    {
        rat_reduce(num as i128, den as i128)
    }

    /// The rational with value `n`, held as `n / 1`.
    pub fn from_int(n: i64) -> (r: Rat)
        ensures
            r@ == (RatV { n: n as int, d: 1 }),
    {
        proof {
            lemma_gcd_divides(iabs(n as int), 1);
            lemma_norm_ratio(n as int, 1);
            let v = norm_pair(n as int, 1);
            assert(v.d == 1);
            assert(v.n * 1 == n as int * v.d);
        }
        rat_reduce(n as i128, 1)
    }

    /// The exact sum over the least common denominator, or `None` when
    /// it cannot be represented.
    pub fn add(&self, other: &Rat) -> (r: Option<Rat>)
        ensures
            opt_v(r) == rat_add_v(self@, other@),
    {
        proof {
            use_type_invariant(self);
            use_type_invariant(other);
        }
        let g = gcd_u128(self.den as u128, other.den as u128);
        proof {
            lemma_gcd_divides(self.den as nat, other.den as nat);
            assert(gcd_nat(iabs(self@.d), iabs(other@.d)) == g as nat);
        }
        let ad1 = g_div(self.den as u128, g);
        let bd1 = g_div(other.den as u128, g);
        let p1 = match self.num.checked_mul(bd1 as i128) {
            Some(v) => v,
            None => {
                return None;
            },
        };
        let p2 = match other.num.checked_mul(ad1 as i128) {
            Some(v) => v,
            None => {
                return None;
            },
        };
        let sum = match p1.checked_add(p2) {
            Some(v) => v,
            None => {
                return None;
            },
        };
        let dd = match self.den.checked_mul(bd1 as i128) {
            Some(v) => v,
            None => {
                return None;
            },
        };
        if sum == i128::MIN || dd == i128::MIN {
            return None;
        }
        proof {
            let bdi = bd1 as int;
            assert(bdi >= 1);
            assert(dd as int == self.den as int * bdi);
            assert(dd > 0) by (nonlinear_arith)
                requires
                    dd as int == self.den as int * bdi,
                    self.den as int > 0,
                    bdi >= 1,
            ;
        }
        Some(rat_reduce(sum, dd))
    }

    /// The exact negation; always representable.
    pub fn neg(&self) -> (r: Rat)
        ensures
            r@ == rat_neg_v(self@),
    {
        proof {
            use_type_invariant(self);
        }
        Rat { num: -self.num, den: self.den }
    }

    /// The exact difference, or `None` when it cannot be represented.
    pub fn sub(&self, other: &Rat) -> (r: Option<Rat>)
        ensures
            opt_v(r) == rat_sub_v(self@, other@),
    {
        self.add(&other.neg())
    }

    /// The exact product, or `None` when it cannot be represented.
    pub fn mul(&self, other: &Rat) -> (r: Option<Rat>)
        ensures
            opt_v(r) == rat_mul_v(self@, other@),
    {
        proof {
            use_type_invariant(self);
            use_type_invariant(other);
        }
        let pn = match self.num.checked_mul(other.num) {
            Some(v) => v,
            None => {
                return None;
            },
        };
        let pd = match self.den.checked_mul(other.den) {
            Some(v) => v,
            None => {
                return None;
            },
        };
        if pn == i128::MIN || pd == i128::MIN {
            return None;
        }
        assert(pd > 0) by (nonlinear_arith)
            requires
                pd == self.den * other.den,
                self.den > 0,
                other.den > 0,
        ;
        Some(rat_reduce(pn, pd))
    }

    /// The exact quotient, or `None` when it cannot be represented.
    pub fn div(&self, other: &Rat) -> (r: Option<Rat>)
        requires
            other@.n != 0,
        ensures
            opt_v(r) == rat_div_v(self@, other@),
    {
        proof {
            use_type_invariant(self);
            use_type_invariant(other);
        }
        let pn = match self.num.checked_mul(other.den) {
            Some(v) => v,
            None => {
                return None;
            },
        };
        let pd = match self.den.checked_mul(other.num) {
            Some(v) => v,
            None => {
                return None;
            },
        };
        if pn == i128::MIN || pd == i128::MIN {
            return None;
        }
        assert(pd != 0) by (nonlinear_arith)
            requires
                pd == self.den * other.num,
                self.den > 0,
                other.num != 0,
        ;
        Some(rat_reduce(pn, pd))
    }

    /// The magnitude of this rational; always representable.
    pub fn abs(&self) -> (r: Rat)
        ensures
            r@ == (RatV { n: iabs(self@.n) as int, d: self@.d }),
    {
        proof {
            use_type_invariant(self);
        }
        if self.num < 0 {
            Rat { num: -self.num, den: self.den }
        } else {
            Rat { num: self.num, den: self.den }
        }
    }

    /// The magnitude of the numerator, the denominator, and the sign, as
    /// plain machine words.
    pub fn parts(&self) -> (r: (u128, u128, bool))
        ensures
            ({
                let (mag, den, neg) = r;
                &&& den as int == self@.d
                &&& mag as nat == iabs(self@.n)
                &&& neg == (self@.n < 0)
                &&& den >= 1
            }),
    {
        proof {
            use_type_invariant(self);
        }
        if self.num < 0 {
            ((-self.num) as u128, self.den as u128, true)
        } else {
            (self.num as u128, self.den as u128, false)
        }
    }

    /// Whether this rational is zero.
    pub fn is_zero(&self) -> (b: bool)
        ensures
            b == (self@.n == 0),
    {
        self.num == 0
    }

    /// Whether this rational is strictly negative.
    pub fn is_neg(&self) -> (b: bool)
        ensures
            b == (self@.n < 0),
    {
        self.num < 0
    }
}

/// Reduces the fraction `n / d` and packs it into a [`Rat`].
fn rat_reduce(n: i128, d: i128) -> (r: Rat)
    requires
        d != 0,
        n > i128::MIN,
        d > i128::MIN,
    ensures
        r@ == norm_pair(n as int, d as int),
{
    let (n1, d1): (i128, i128) = if d < 0 {
        (-n, -d)
    } else {
        (n, d)
    };
    let neg = n1 < 0;
    let mag: u128 = if neg {
        (-n1) as u128
    } else {
        n1 as u128
    };
    let dm: u128 = d1 as u128;
    assert(mag as nat == iabs(n1 as int));
    let g = gcd_u128(mag, dm);
    proof {
        lemma_gcd_divides(mag as nat, dm as nat);
    }
    let nm = g_div(mag, g);
    let dd = g_div(dm, g);
    proof {
        lemma_norm_ratio(n as int, d as int);
    }
    let num: i128 = if neg {
        -(nm as i128)
    } else {
        nm as i128
    };
    proof {
        // The executable magnitude quotient matches the specification's
        // signed Euclidean quotient because the division is exact.
        let gi = g as int;
        lemma_fundamental_div_mod(mag as int, gi);
        let km = mag as int / gi;
        assert(mag as int == gi * km);
        if neg {
            assert(n1 as int == gi * (-km)) by (nonlinear_arith)
                requires
                    mag as int == gi * km,
                    n1 as int == -(mag as int),
            ;
            lemma_exact_div(n1 as int, gi, -km);
        } else {
            assert(n1 as int == gi * km);
            lemma_exact_div(n1 as int, gi, km);
        }
    }
    Rat { num, den: dd as i128 }
}

/// Euclidean division of magnitudes, with the bounds reduction needs.
fn g_div(x: u128, g: u128) -> (r: u128)
    requires
        g >= 1,
        divides(g as int, x as int),
    ensures
        r == x as int / g as int,
        r <= x,
        x > 0 ==> r >= 1,
{
    proof {
        lemma_fundamental_div_mod(x as int, g as int);
        let k = x as int / g as int;
        assert(x as int == g as int * k);
        assert(k <= x as int && (x > 0 ==> k >= 1)) by (nonlinear_arith)
            requires
                x as int == g as int * k,
                g >= 1,
                x >= 0,
        ;
    }
    x / g
}

/// The sign and size facts a successful multiplication guarantees.
pub proof fn lemma_mul_v_props(a: RatV, b: RatV, c: RatV)
    requires
        a.d > 0,
        b.d > 0,
        rat_mul_v(a, b) == Some(c),
    ensures
        c.d > 0,
        c.n == 0 <==> (a.n == 0 || b.n == 0),
        c.n > 0 <==> ((a.n > 0) <==> (b.n > 0)) && a.n != 0 && b.n != 0,
{
    assert(a.d * b.d > 0) by (nonlinear_arith)
        requires
            a.d > 0,
            b.d > 0,
    ;
    lemma_norm_ratio(a.n * b.n, a.d * b.d);
    assert((a.n * b.n == 0 <==> (a.n == 0 || b.n == 0)) && (a.n * b.n > 0 <==> ((
    a.n > 0) <==> (b.n > 0)) && a.n != 0 && b.n != 0)) by (nonlinear_arith);
}

/// The sign facts a successful addition of nonnegatives guarantees.
pub proof fn lemma_add_v_nonneg(a: RatV, b: RatV, c: RatV)
    requires
        a.d > 0,
        b.d > 0,
        a.n >= 0,
        b.n >= 0,
        rat_add_v(a, b) == Some(c),
    ensures
        c.d > 0,
        c.n >= 0,
        a.n > 0 || b.n > 0 ==> c.n > 0,
        a.n == 0 && b.n == 0 ==> c.n == 0,
{
    let g = gcd_nat(iabs(a.d), iabs(b.d)) as int;
    lemma_gcd_divides(iabs(a.d), iabs(b.d));
    lemma_fundamental_div_mod(a.d, g);
    lemma_fundamental_div_mod(b.d, g);
    let ad1 = a.d / g;
    let bd1 = b.d / g;
    assert(ad1 >= 1 && bd1 >= 1) by (nonlinear_arith)
        requires
            a.d == g * ad1,
            b.d == g * bd1,
            a.d > 0,
            b.d > 0,
            g >= 1,
    ;
    assert(a.d * bd1 > 0 && a.n * bd1 >= 0 && b.n * ad1 >= 0 && (a.n > 0 || b.n
        > 0 ==> a.n * bd1 + b.n * ad1 > 0) && (a.n == 0 && b.n == 0 ==> a.n
        * bd1 + b.n * ad1 == 0)) by (nonlinear_arith)
        requires
            a.d > 0,
            ad1 >= 1,
            bd1 >= 1,
            a.n >= 0,
            b.n >= 0,
    ;
    lemma_norm_ratio(a.n * bd1 + b.n * ad1, a.d * bd1);
}

/// The sign facts a successful division guarantees.
pub proof fn lemma_div_v_sign(a: RatV, b: RatV, c: RatV)
    requires
        a.d > 0,
        b.d > 0,
        b.n != 0,
        rat_div_v(a, b) == Some(c),
    ensures
        c.d > 0,
        c.n == 0 <==> a.n == 0,
        a.n >= 0 && b.n > 0 ==> c.n >= 0,
{
    assert(a.d * b.n != 0 && (a.n >= 0 && b.n > 0 ==> a.n * b.d >= 0 && a.d
        * b.n > 0) && (a.n * b.d == 0 <==> a.n == 0)) by (nonlinear_arith)
        requires
            a.d > 0,
            b.d > 0,
            b.n != 0,
    ;
    lemma_norm_ratio(a.n * b.d, a.d * b.n);
}

/// Mirror of the magnitude.
pub open spec fn rat_abs_v(a: RatV) -> RatV {
    RatV { n: iabs(a.n) as int, d: a.d }
}

/// The greatest common divisor with one is one.
pub proof fn lemma_gcd_one_left(b: nat)
    ensures
        gcd_nat(1, b) == 1,
{
    if b == 0 {
    } else if b == 1 {
        assert(gcd_nat(1, 1) == gcd_nat(1, 0));
    } else {
        vstd::arithmetic::div_mod::lemma_small_mod(1, b);
        assert(1nat % b == 1);
        assert(gcd_nat(1, b) == gcd_nat(b, 1));
        assert(b % 1 == 0) by {
            lemma_mod_multiples_basic(b as int, 1);
        }
        assert(gcd_nat(b, 1) == gcd_nat(1, 0));
    }
}

/// A fraction with numerator one is already reduced.
pub proof fn lemma_norm_unit_num(d: int)
    requires
        d >= 1,
    ensures
        norm_pair(1, d) == (RatV { n: 1, d: d }),
{
    lemma_gcd_one_left(d as nat);
    assert(iabs(1) == 1);
    lemma_div_by_one(1);
    lemma_div_by_one(d);
}

/// Dividing by one changes nothing.
pub proof fn lemma_div_by_one(x: int)
    ensures
        x / 1 == x,
{
    lemma_fundamental_div_mod(x, 1);
}

/// A square root of a strictly positive value is strictly positive.
pub proof fn lemma_sqrt_pos(a: RatV, s: RatV)
    requires
        a.d > 0,
        a.n > 0,
        rat_sqrt_v(a) == Some(s),
    ensures
        s.n > 0,
        s.d > 0,
{
    lemma_norm_ratio(a.n, a.d);
    let v = norm_pair(a.n, a.d);
    let k = sqrt_of(v.n);
    let kd = sqrt_of(v.d);
    assert(0 <= k && k * k == v.n);
    assert(0 <= kd && kd * kd == v.d);
    assert(k > 0) by (nonlinear_arith)
        requires
            0 <= k,
            k * k == v.n,
            v.n > 0,
    ;
    assert(kd > 0) by (nonlinear_arith)
        requires
            0 <= kd,
            kd * kd == v.d,
            v.d > 0,
    ;
}

/// Whether `x` is the square of an integer.
pub open spec fn is_square(x: int) -> bool {
    exists|k: int| 0 <= k && #[trigger] (k * k) == x
}

/// The nonnegative integer square root of a perfect square.
pub open spec fn sqrt_of(x: int) -> int {
    choose|k: int| 0 <= k && #[trigger] (k * k) == x
}

/// Mirror of the exact square root: defined exactly when the reduced
/// numerator and denominator are both perfect squares.
pub open spec fn rat_sqrt_v(a: RatV) -> Option<RatV> {
    let v = norm_pair(a.n, a.d);
    if is_square(v.n) && is_square(v.d) {
        Some(RatV { n: sqrt_of(v.n), d: sqrt_of(v.d) })
    } else {
        None
    }
}

/// Mirror of raising to a natural power by repeated multiplication.
pub open spec fn rat_pow_v(a: RatV, e: nat) -> Option<RatV>
    decreases e,
{
    if e == 0 {
        Some(RatV { n: 1, d: 1 })
    } else {
        match rat_pow_v(a, (e - 1) as nat) {
            Some(p) => rat_mul_v(p, a),
            None => None,
        }
    }
}

/// The integer square root is unique, so the specification's chosen root is
/// the computed one.
pub proof fn lemma_sqrt_unique(x: int, k: int)
    requires
        0 <= k,
        k * k == x,
    ensures
        is_square(x),
        sqrt_of(x) == k,
{
    assert(is_square(x));
    let j = sqrt_of(x);
    assert(0 <= j && j * j == x);
    assert(j == k) by (nonlinear_arith)
        requires
            0 <= j,
            0 <= k,
            j * j == k * k,
    ;
}

/// Once a power is unrepresentable, every higher power is too.
proof fn lemma_pow_none_mono(a: RatV, k: nat, e: nat)
    requires
        k <= e,
        rat_pow_v(a, k) == None::<RatV>,
    ensures
        rat_pow_v(a, e) == None::<RatV>,
    decreases e,
{
    if e > k {
        lemma_pow_none_mono(a, k, (e - 1) as nat);
    }
}

impl Rat {
    /// Whether this rational is strictly less than `other`.
    pub fn lt(&self, other: &Rat) -> (b: bool)
        ensures
            b == rat_lt_v(self@, other@),
    {
        proof {
            use_type_invariant(self);
            use_type_invariant(other);
        }
        let an = self.num;
        let ad = self.den;
        let bn = other.num;
        let bd = other.den;
        if an <= 0 && bn > 0 {
            proof {
                assert(an * bd <= 0 && bn * ad > 0) by (nonlinear_arith)
                    requires
                        an <= 0,
                        bn > 0,
                        ad > 0,
                        bd > 0,
                ;
            }
            true
        } else if an >= 0 && bn <= 0 {
            proof {
                assert(an * bd >= 0 && bn * ad <= 0) by (nonlinear_arith)
                    requires
                        an >= 0,
                        bn <= 0,
                        ad > 0,
                        bd > 0,
                ;
            }
            false
        } else if an > 0 {
            // both strictly positive
            cf_lt(an as u128, ad as u128, bn as u128, bd as u128)
        } else {
            // both strictly negative: compare the magnitudes, flipped
            let ma = (-an) as u128;
            let mb = (-bn) as u128;
            let r = cf_lt(mb, bd as u128, ma, ad as u128);
            proof {
                assert((mb as int * ad < ma as int * bd) == (an * bd < bn * ad))
                    by (nonlinear_arith)
                    requires
                        ma as int == -an,
                        mb as int == -bn,
                        ad > 0,
                        bd > 0,
                ;
            }
            r
        }
    }

    /// Whether this rational is at most `other`.
    pub fn le(&self, other: &Rat) -> (b: bool)
        ensures
            b == rat_le_v(self@, other@),
    {
        !other.lt(self)
    }

    /// Whether this rational has the same value as `other`, whatever the
    /// representations.
    pub fn eq_val(&self, other: &Rat) -> (b: bool)
        ensures
            b == rat_eq_v(self@, other@),
    {
        !self.lt(other) && !other.lt(self)
    }

    /// The exact square root, when the value has a rational one whose
    /// reduced parts are integer squares; `None` when the root is
    /// irrational.
    pub fn sqrt_exact(&self) -> (r: Option<Rat>)
        ensures
            opt_v(r) == rat_sqrt_v(self@),
    {
        proof {
            use_type_invariant(self);
            lemma_norm_ratio(self@.n, self@.d);
        }
        let ghost v = norm_pair(self@.n, self@.d);
        if self.num < 0 {
            proof {
                assert forall|k: int| !(0 <= k && #[trigger] (k * k) == v.n) by {
                    if 0 <= k {
                        assert(k * k >= 0) by (nonlinear_arith)
                            requires
                                0 <= k,
                        ;
                    }
                }
            }
            return None;
        }
        let red = rat_reduce(self.num, self.den);
        let mag = red.num as u128;
        let dm = red.den as u128;
        let rn = isqrt_u128(mag);
        let rd = isqrt_u128(dm);
        let sq_n = rn.checked_mul(rn);
        let sq_d = rd.checked_mul(rd);
        proof {
            assert(rn * rn <= mag && rd * rd <= dm);
        }
        if sq_n != Some(mag) {
            proof {
                assert forall|k: int| !(0 <= k && #[trigger] (k * k) == v.n) by {
                    if 0 <= k && k * k == v.n {
                        assert(k == rn) by (nonlinear_arith)
                            requires
                                0 <= k,
                                0 <= rn as int,
                                k * k == mag as int,
                                rn as int * rn as int <= mag as int,
                                (mag as int) < (rn as int + 1) * (rn as int + 1),
                        ;
                    }
                }
            }
            return None;
        }
        if sq_d != Some(dm) {
            proof {
                assert forall|k: int| !(0 <= k && #[trigger] (k * k) == v.d) by {
                    if 0 <= k && k * k == v.d {
                        assert(k == rd) by (nonlinear_arith)
                            requires
                                0 <= k,
                                0 <= rd as int,
                                k * k == dm as int,
                                rd as int * rd as int <= dm as int,
                                (dm as int) < (rd as int + 1) * (rd as int + 1),
                        ;
                    }
                }
            }
            return None;
        }
        proof {
            lemma_sqrt_unique(v.n, rn as int);
            lemma_sqrt_unique(v.d, rd as int);
            assert(rn <= mag && rd <= dm) by (nonlinear_arith)
                requires
                    rn as int * rn as int == mag as int,
                    rd as int * rd as int == dm as int,
                    rn >= 0,
                    rd >= 0,
            ;
            assert(rd >= 1) by (nonlinear_arith)
                requires
                    rd as int * rd as int == dm as int,
                    dm as int >= 1,
                    rd >= 0,
            ;
        }
        Some(Rat { num: rn as i128, den: rd as i128 })
    }

    /// The exact `e`-th power, or `None` when some partial product cannot
    /// be represented.
    pub fn pow_n(&self, e: u32) -> (r: Option<Rat>)
        ensures
            opt_v(r) == rat_pow_v(self@, e as nat),
    {
        let mut acc = Rat::from_int(1);
        let mut i: u32 = 0;
        while i < e
            invariant
                i <= e,
                rat_pow_v(self@, i as nat) == Some(acc@),
            decreases e - i,
        {
            acc = match acc.mul(self) {
                Some(v) => v,
                None => {
                    proof {
                        lemma_pow_none_mono(self@, (i + 1) as nat, e as nat);
                    }
                    return None;
                },
            };
            i = i + 1;
        }
        Some(acc)
    }
}

/// Compares `an / ad` with `cn / cd`, all parts nonnegative and the
/// denominators positive, by descending the shared continued fraction; no
/// intermediate product is formed, so nothing can overflow.
fn cf_lt(an: u128, ad: u128, cn: u128, cd: u128) -> (r: bool)
    requires
        ad > 0,
        cd > 0,
    ensures
        r == ((an as int * cd as int) < (cn as int * ad as int)),
    decreases ad + cd,
{
    let q1 = an / ad;
    let r1 = an % ad;
    let q2 = cn / cd;
    let r2 = cn % cd;
    proof {
        lemma_fundamental_div_mod(an as int, ad as int);
        lemma_fundamental_div_mod(cn as int, cd as int);
    }
    if q1 != q2 {
        proof {
            assert(((an as int * cd as int) < (cn as int * ad as int)) == (q1 < q2))
                by (nonlinear_arith)
                requires
                    an as int == ad as int * q1 as int + r1 as int,
                    cn as int == cd as int * q2 as int + r2 as int,
                    0 <= r1 as int && (r1 as int) < (ad as int),
                    0 <= r2 as int && (r2 as int) < (cd as int),
                    ad > 0,
                    cd > 0,
                    q1 != q2,
            ;
        }
        q1 < q2
    } else if r1 == 0 {
        proof {
            assert(((an as int * cd as int) < (cn as int * ad as int)) == (r2 as int > 0))
                by (nonlinear_arith)
                requires
                    an as int == ad as int * q1 as int + r1 as int,
                    cn as int == cd as int * q2 as int + r2 as int,
                    r1 == 0,
                    q1 == q2,
                    0 <= r2 as int && (r2 as int) < (cd as int),
                    ad > 0,
                    cd > 0,
            ;
        }
        r2 != 0
    } else if r2 == 0 {
        proof {
            assert(!((an as int * cd as int) < (cn as int * ad as int)))
                by (nonlinear_arith)
                requires
                    an as int == ad as int * q1 as int + r1 as int,
                    cn as int == cd as int * q2 as int + r2 as int,
                    r2 == 0,
                    q1 == q2,
                    0 < r1 as int && (r1 as int) < (ad as int),
                    ad > 0,
                    cd > 0,
            ;
        }
        false
    } else {
        let r = cf_lt(cd, r2, ad, r1);
        proof {
            assert(((cd as int * r1 as int) < (ad as int * r2 as int)) == ((an as int
                * cd as int) < (cn as int * ad as int))) by (nonlinear_arith)
                requires
                    an as int == ad as int * q1 as int + r1 as int,
                    cn as int == cd as int * q2 as int + r2 as int,
                    q1 == q2,
                    0 < r1 as int && (r1 as int) < (ad as int),
                    0 < r2 as int && (r2 as int) < (cd as int),
                    ad > 0,
                    cd > 0,
            ;
        }
        r
    }
}

/// The integer square root by bisection.
fn isqrt_u128(x: u128) -> (r: u128)
    ensures
        r as int * r as int <= x as int,
        (x as int) < (r as int + 1) * (r as int + 1),
{
    let mut lo: u128 = 0;
    let mut hi: u128 = 0xffff_ffff_ffff_ffff;
    proof {
        assert((hi as int + 1) * (hi as int + 1) > x as int);
    }
    while lo < hi
        invariant
            lo <= hi,
            hi <= 0xffff_ffff_ffff_ffff,
            lo as int * lo as int <= x as int,
            (x as int) < (hi as int + 1) * (hi as int + 1),
        decreases hi - lo,
    {
        let mid = lo + (hi - lo + 1) / 2;
        proof {
            assert(mid * mid <= 0xffff_ffff_ffff_ffff * 0xffff_ffff_ffff_ffffu128)
                by (nonlinear_arith)
                requires
                    mid <= 0xffff_ffff_ffff_ffffu128,
            ;
        }
        let m2 = mid * mid;
        if m2 <= x {
            lo = mid;
        } else {
            hi = mid - 1;
        }
    }
    lo
}

/// Euclid's algorithm on magnitudes.
fn gcd_u128(a0: u128, b0: u128) -> (g: u128)
    ensures
        g as nat == gcd_nat(a0 as nat, b0 as nat),
{
    let mut a = a0;
    let mut b = b0;
    while b != 0
        invariant
            gcd_nat(a as nat, b as nat) == gcd_nat(a0 as nat, b0 as nat),
        decreases b,
    {
        let t = a % b;
        a = b;
        b = t;
    }
    a
}

} // verus!
