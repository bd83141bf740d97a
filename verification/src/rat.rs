//! Exact rational scalars.
//!
//! A `Rat` holds a numerator and a positive denominator in `i64`.  Every
//! arithmetic operation computes the exact mathematical result, reduces it by
//! the greatest common divisor, and reports `None` when the reduced result
//! does not fit the field type, so no operation ever rounds.

use vstd::arithmetic::div_mod::{
    lemma_div_multiples_vanish, lemma_fundamental_div_mod, lemma_mod_multiples_basic,
};
use vstd::prelude::*;

verus! {

/// A rational value at the specification level: numerator and denominator.
pub type Q = (int, int);

pub open spec fn q_wf(a: Q) -> bool {
    a.1 >= 1
}

/// Equality of rational values by cross multiplication.
pub open spec fn q_eq(a: Q, b: Q) -> bool {
    a.0 * b.1 == b.0 * a.1
}

/// Order of rational values by cross multiplication (for positive denominators).
pub open spec fn q_le(a: Q, b: Q) -> bool {
    a.0 * b.1 <= b.0 * a.1
}

pub open spec fn q_add(a: Q, b: Q) -> Q {
    (a.0 * b.1 + b.0 * a.1, a.1 * b.1)
}

pub open spec fn q_sub(a: Q, b: Q) -> Q {
    (a.0 * b.1 - b.0 * a.1, a.1 * b.1)
}

pub open spec fn q_mul(a: Q, b: Q) -> Q {
    (a.0 * b.0, a.1 * b.1)
}

pub open spec fn q_neg(a: Q) -> Q {
    (-a.0, a.1)
}

/// The multiplicative inverse, with zero mapped to zero: the tolerant
/// reciprocal used for degenerate UV determinants.
pub open spec fn q_recip_or_zero(a: Q) -> Q {
    if a.0 == 0 {
        (0, 1)
    } else if a.0 > 0 {
        (a.1, a.0)
    } else {
        (-a.1, -a.0)
    }
}

pub open spec fn abs_i(a: int) -> int {
    if a < 0 {
        -a
    } else {
        a
    }
}

pub open spec fn gcd_n(a: nat, b: nat) -> nat
    decreases b,
{
    if b == 0 {
        a
    } else {
        gcd_n(b, a % b)
    }
}

pub open spec fn q_gcd(a: Q) -> int
    recommends
        q_wf(a),
{
    gcd_n(abs_i(a.0) as nat, a.1 as nat) as int
}

/// The reduced form of a rational value.
pub open spec fn q_norm(a: Q) -> Q
    recommends
        q_wf(a),
{
    (a.0 / q_gcd(a), a.1 / q_gcd(a))
}

/// Whether a value fits the `i64` fields of `Rat`.  The numerator range is
/// kept symmetric so that negation is always possible.
pub open spec fn fits_i64(a: Q) -> bool {
    &&& -0x7fff_ffff_ffff_ffff <= a.0 <= 0x7fff_ffff_ffff_ffff
    &&& 1 <= a.1 <= 0x7fff_ffff_ffff_ffff
}

/// The reduced form of `a` when it is representable, `None` otherwise.
/// This is exactly what each checked operation on `Rat` returns.
pub open spec fn q_chk(a: Q) -> Option<Q>
    recommends
        q_wf(a),
{
    if fits_i64(q_norm(a)) {
        Some(q_norm(a))
    } else {
        None
    }
}

/// An exact rational scalar.
#[derive(Clone, Copy, PartialEq, Eq, Structural, Debug)]
pub struct Rat {
    pub num: i64,
    pub den: i64,
}

impl View for Rat {
    type V = Q;

    open spec fn view(&self) -> Q {
        (self.num as int, self.den as int)
    }
}

pub open spec fn o_view(r: Option<Rat>) -> Option<Q> {
    match r {
        Some(x) => Some(x@),
        None => None,
    }
}

pub open spec fn o_wf(r: Option<Rat>) -> bool {
    r matches Some(x) ==> x.wf()
}

proof fn lemma_gcd_divides(a: nat, b: nat)
    requires
        b >= 1,
    ensures
        gcd_n(a, b) >= 1,
        (a as int) % (gcd_n(a, b) as int) == 0,
        (b as int) % (gcd_n(a, b) as int) == 0,
    decreases b,
{
    let g = gcd_n(a, b) as int;
    if a % b == 0 {
        assert(gcd_n(a % b, 0) == a % b);
        assert(gcd_n(a, b) == gcd_n(b, a % b));
        assert(gcd_n(b, 0nat) == b);
        assert(g == b);
        lemma_mod_multiples_basic(b as int, b as int);
        assert((b as int) % g == 0) by {
            assert((1 * (b as int)) % (b as int) == 0) by {
                lemma_mod_multiples_basic(1, b as int);
            }
            assert(1 * (b as int) == b as int);
        }
    } else {
        let r = a % b;
        assert(r >= 1);
        lemma_gcd_divides(b, r);
        assert(gcd_n(a, b) == gcd_n(b, r));
        assert((b as int) % g == 0);
        assert((r as int) % g == 0);
        lemma_fundamental_div_mod(b as int, g);
        lemma_fundamental_div_mod(r as int, g);
        let kb = (b as int) / g;
        let kr = (r as int) / g;
        assert(b as int == g * kb);
        assert(r as int == g * kr);
        lemma_fundamental_div_mod(a as int, b as int);
        let qab = (a as int) / (b as int);
        assert(a as int == (b as int) * qab + r);
        assert(a as int == g * (kb * qab + kr)) by (nonlinear_arith)
            requires
                a as int == (b as int) * qab + (r as int),
                b as int == g * kb,
                r as int == g * kr,
        ;
        lemma_mod_multiples_basic(kb * qab + kr, g);
        assert((g * (kb * qab + kr)) % g == 0) by {
            assert(g * (kb * qab + kr) == (kb * qab + kr) * g) by (nonlinear_arith);
        }
    }
}

/// The reduced form of a well-formed value is well formed, denotes the same
/// rational, and is no larger in magnitude in either field.
pub proof fn lemma_norm_props(a: Q)
    requires
        q_wf(a),
    ensures
        q_wf(q_norm(a)),
        q_eq(q_norm(a), a),
        abs_i(q_norm(a).0) <= abs_i(a.0),
        q_norm(a).1 <= a.1,
        q_gcd(a) >= 1,
        a.0 == q_norm(a).0 * q_gcd(a),
        a.1 == q_norm(a).1 * q_gcd(a),
{
    let g = q_gcd(a);
    lemma_gcd_divides(abs_i(a.0) as nat, a.1 as nat);
    assert(g >= 1);
    lemma_fundamental_div_mod(abs_i(a.0), g);
    lemma_fundamental_div_mod(a.1, g);
    let ka = abs_i(a.0) / g;
    let kd = a.1 / g;
    assert(abs_i(a.0) == g * ka);
    assert(a.1 == g * kd);
    // division of an exact multiple is exact, for either sign
    assert((g * ka) / g == ka) by {
        lemma_div_multiples_vanish(ka, g);
    }
    assert((g * (-ka)) / g == -ka) by {
        lemma_div_multiples_vanish(-ka, g);
    }
    if a.0 >= 0 {
        assert(a.0 == g * ka);
        assert(a.0 / g == ka);
    } else {
        assert(a.0 == -(g * ka));
        assert(g * (-ka) == -(g * ka)) by (nonlinear_arith);
        assert(a.0 / g == -ka);
    }
    assert((g * kd) / g == kd) by {
        lemma_div_multiples_vanish(kd, g);
    }
    assert(a.1 / g == kd);
    assert(kd >= 1) by (nonlinear_arith)
        requires
            a.1 == g * kd,
            a.1 >= 1,
            g >= 1,
    ;
    assert(ka >= 0) by (nonlinear_arith)
        requires
            abs_i(a.0) == g * ka,
            abs_i(a.0) >= 0,
            g >= 1,
    ;
    assert(q_eq(q_norm(a), a)) by (nonlinear_arith)
        requires
            a.0 == (a.0 / g) * g,
            a.1 == (a.1 / g) * g,
            q_norm(a) == ((a.0 / g), (a.1 / g)),
    ;
    assert(abs_i(q_norm(a).0) <= abs_i(a.0)) by (nonlinear_arith)
        requires
            abs_i(a.0) == g * ka,
            ka >= 0,
            g >= 1,
            abs_i(q_norm(a).0) == ka,
    ;
    assert(q_norm(a).1 <= a.1) by (nonlinear_arith)
        requires
            a.1 == g * kd,
            kd >= 1,
            g >= 1,
            q_norm(a).1 == kd,
    ;
}

/// A well-formed value that already fits is always representable after
/// reduction, and the stored value denotes the same rational.
pub proof fn lemma_fits_chk(a: Q)
    requires
        q_wf(a),
        fits_i64(a),
    ensures
        q_chk(a) matches Some(n) && q_eq(n, a) && q_wf(n),
{
    lemma_norm_props(a);
}

fn gcd_u128(a0: u128, b0: u128) -> (g: u128)
    ensures
        g as nat == gcd_n(a0 as nat, b0 as nat),
{
    let mut a: u128 = a0;
    let mut b: u128 = b0;
    while b != 0
        invariant
            gcd_n(a as nat, b as nat) == gcd_n(a0 as nat, b0 as nat),
        decreases b,
    {
        let t: u128 = a % b;
        a = b;
        b = t;
    }
    a
}

/// Builds the reduced `Rat` denoting `n / d`, or `None` when the reduced
/// value does not fit `i64`.
fn rat_make(n: i128, d: i128) -> (r: Option<Rat>)
    requires
        1 <= d,
        -0x7fff_ffff_ffff_ffff_ffff_ffff_ffff_ffff <= n,
    ensures
        o_view(r) == q_chk((n as int, d as int)),
        o_wf(r),
{
    let ghost a: Q = (n as int, d as int);
    proof {
        lemma_norm_props(a);
    }
    let neg: bool = n < 0;
    let na: u128 = if neg {
        (-n) as u128
    } else {
        n as u128
    };
    let dd: u128 = d as u128;
    assert(na as int == abs_i(a.0));
    let g: u128 = gcd_u128(na, dd);
    assert(g as int == q_gcd(a));
    assert(g >= 1);
    let rn: u128 = na / g;
    let rd: u128 = dd / g;
    proof {
        // the u128 quotients are the reduced fields, up to sign
        assert(rn as int == abs_i(a.0) / (g as int));
        assert(rd as int == a.1 / (g as int));
        if a.0 >= 0 {
            assert(rn as int == q_norm(a).0);
        } else {
            let n0 = q_norm(a).0;
            assert(a.0 == n0 * (g as int));
            assert(abs_i(a.0) == (g as int) * (-n0)) by (nonlinear_arith)
                requires
                    a.0 == n0 * (g as int),
                    a.0 < 0,
                    abs_i(a.0) == -a.0,
            ;
            lemma_div_multiples_vanish(-n0, g as int);
            assert(abs_i(a.0) / (g as int) == -n0);
        }
        assert(rd as int == q_norm(a).1);
        assert(abs_i(q_norm(a).0) == rn as int);
    }
    if rn <= 0x7fff_ffff_ffff_ffff && rd <= 0x7fff_ffff_ffff_ffff {
        let num: i64 = if neg {
            -(rn as i64)
        } else {
            rn as i64
        };
        let den: i64 = rd as i64;
        assert(fits_i64(q_norm(a)));
        Some(Rat { num, den })
    } else {
        assert(!fits_i64(q_norm(a)));
        None
    }
}

proof fn lemma_mul_bound_64(x: int, y: int)
    by (nonlinear_arith)
    requires
        -0x7fff_ffff_ffff_ffff <= x <= 0x7fff_ffff_ffff_ffff,
        -0x7fff_ffff_ffff_ffff <= y <= 0x7fff_ffff_ffff_ffff,
    ensures
        -0x3fff_ffff_ffff_ffff_0000_0000_0000_0001 <= x * y
            <= 0x3fff_ffff_ffff_ffff_0000_0000_0000_0001,
        x >= 1 && y >= 1 ==> x * y >= 1,
{
}

impl Rat {
    /// A value the fields can carry: positive denominator, numerator in the
    /// symmetric `i64` range.
    pub open spec fn wf(self) -> bool {
        &&& self.den >= 1
        &&& self.num > i64::MIN
    }

    /// Relates the fields to the `Q` they denote.
    pub open spec fn is_q(self, a: Q) -> bool {
        q_eq(self@, a)
    }

    /// The rational `num / den` in reduced form; `None` when `den` is zero
    /// or the reduced value does not fit.
    pub fn new(num: i64, den: i64) -> (r: Option<Rat>)
        ensures
            den == 0 ==> r is None,
            den != 0 ==> o_view(r) == q_chk(
                if den < 0 {
                    (-(num as int), -(den as int))
                } else {
                    (num as int, den as int)
                },
            ),
            o_wf(r),
    {
        if den == 0 {
            None
        } else if den < 0 {
            rat_make(-(num as i128), -(den as i128))
        } else {
            rat_make(num as i128, den as i128)
        }
    }

    /// The integer `n` as a rational.
    pub fn from_int(n: i64) -> (r: Rat)
        requires
            n > i64::MIN,
        ensures
            r@ == (n as int, 1int),
            r.wf(),
    {
        Rat { num: n, den: 1 }
    }

    pub fn zero() -> (r: Rat)
        ensures
            r@ == (0int, 1int),
            r.wf(),
    {
        Rat { num: 0, den: 1 }
    }

    pub fn one() -> (r: Rat)
        ensures
            r@ == (1int, 1int),
            r.wf(),
    {
        Rat { num: 1, den: 1 }
    }

    /// Exact sum, reduced; `None` on overflow of the reduced result.
    pub fn add(self, other: Rat) -> (r: Option<Rat>)
        requires
            self.wf(),
            other.wf(),
        ensures
            o_view(r) == q_chk(q_add(self@, other@)),
            o_wf(r),
    {
        proof {
            lemma_mul_bound_64(self.num as int, other.den as int);
            lemma_mul_bound_64(other.num as int, self.den as int);
            lemma_mul_bound_64(self.den as int, other.den as int);
        }
        let n: i128 = (self.num as i128) * (other.den as i128) + (other.num as i128) * (self.den
            as i128);
        let d: i128 = (self.den as i128) * (other.den as i128);
        rat_make(n, d)
    }

    /// Exact difference, reduced; `None` on overflow of the reduced result.
    pub fn sub(self, other: Rat) -> (r: Option<Rat>)
        requires
            self.wf(),
            other.wf(),
        ensures
            o_view(r) == q_chk(q_sub(self@, other@)),
            o_wf(r),
    {
        proof {
            lemma_mul_bound_64(self.num as int, other.den as int);
            lemma_mul_bound_64(other.num as int, self.den as int);
            lemma_mul_bound_64(self.den as int, other.den as int);
        }
        let n: i128 = (self.num as i128) * (other.den as i128) - (other.num as i128) * (self.den
            as i128);
        let d: i128 = (self.den as i128) * (other.den as i128);
        rat_make(n, d)
    }

    /// Exact product, reduced; `None` on overflow of the reduced result.
    pub fn mul(self, other: Rat) -> (r: Option<Rat>)
        requires
            self.wf(),
            other.wf(),
        ensures
            o_view(r) == q_chk(q_mul(self@, other@)),
            o_wf(r),
    {
        proof {
            lemma_mul_bound_64(self.num as int, other.num as int);
            lemma_mul_bound_64(self.den as int, other.den as int);
        }
        let n: i128 = (self.num as i128) * (other.num as i128);
        let d: i128 = (self.den as i128) * (other.den as i128);
        rat_make(n, d)
    }

    /// Exact negation; never overflows thanks to the symmetric range.
    pub fn neg(self) -> (r: Rat)
        requires
            self.wf(),
        ensures
            r@ == q_neg(self@),
            r.wf(),
    {
        Rat { num: -self.num, den: self.den }
    }

    /// Exact halving, reduced; `None` on overflow of the reduced result.
    pub fn half(self) -> (r: Option<Rat>)
        requires
            self.wf(),
        ensures
            o_view(r) == q_chk((self@.0, 2 * self@.1)),
            o_wf(r),
    {
        rat_make(self.num as i128, 2 * (self.den as i128))
    }

    /// The reciprocal, with zero mapped to zero; exact and total.
    pub fn recip_or_zero(self) -> (r: Rat)
        requires
            self.wf(),
        ensures
            r@ == q_recip_or_zero(self@),
            r.wf(),
    {
        if self.num == 0 {
            Rat { num: 0, den: 1 }
        } else if self.num > 0 {
            Rat { num: self.den, den: self.num }
        } else {
            Rat { num: -self.den, den: -self.num }
        }
    }

    /// Value equality: `true` exactly when the two scalars denote the same
    /// rational, whatever their representations.
    pub fn eq_val(self, other: Rat) -> (r: bool)
        requires
            self.wf(),
            other.wf(),
        ensures
            r == q_eq(self@, other@),
    {
        proof {
            lemma_mul_bound_64(self.num as int, other.den as int);
            lemma_mul_bound_64(other.num as int, self.den as int);
        }
        (self.num as i128) * (other.den as i128) == (other.num as i128) * (self.den as i128)
    }

    /// Value order: `true` exactly when `self <= other` as rationals.
    pub fn le_val(self, other: Rat) -> (r: bool)
        requires
            self.wf(),
            other.wf(),
        ensures
            r == q_le(self@, other@),
    {
        proof {
            lemma_mul_bound_64(self.num as int, other.den as int);
            lemma_mul_bound_64(other.num as int, self.den as int);
        }
        (self.num as i128) * (other.den as i128) <= (other.num as i128) * (self.den as i128)
    }

    /// Whether the value is strictly negative.
    pub fn is_neg(self) -> (r: bool)
        requires
            self.wf(),
        ensures
            r == (self@.0 < 0),
    {
        self.num < 0
    }
}

} // verus!
