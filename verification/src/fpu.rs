//! Rounded binary32 arithmetic, supplied by the caller.
//!
//! The kernels are written against whatever arithmetic they are handed: an
//! [`Fpu`] wraps one function that evaluates any [`Op`] on two values. All that
//! is asked of it is that it is defined everywhere and that equal operands give
//! equal results, so each kernel's contract names the exact sequence of roundings
//! it performs. On hardware the wrapped function moves the bits to and from `f32`.
use crate::nums::{ONE, ZERO};
use crate::plain::{self, num, Plain};
use vstd::prelude::*;

verus! {

broadcast use crate::plain::group_by_rank;

/// A rounded operation. Those of one operand ignore the second.
#[derive(Clone, Copy, Debug, PartialEq, Eq, Structural)]
pub enum Op {
    Add,
    Subtract,
    Multiply,
    Divide,
    Power,
    SquareRoot,
    Exponential,
    Logarithm,
    Sine,
    Cosine,
    Tangent,
}

/// The same number, but that the negative zero may have become the other.
pub open spec fn same_number(r: Plain, x: Plain) -> bool {
    if x.is_zero() && x.negative() {
        r.is_zero()
    } else {
        r == x
    }
}

/// An arithmetic unit.
pub struct Fpu<A> {
    pub alu: A,
}

impl<A: Fn(Op, Plain, Plain) -> Plain> Fpu<A> {
    /// Every operation is defined on every pair of operands, with one result.
    pub open spec fn valid(&self) -> bool {
        &&& forall|op: Op, a: Plain, b: Plain| #[trigger] call_requires(self.alu, (op, a, b))
        &&& forall|op: Op, a: Plain, b: Plain, r: Plain, s: Plain| #[trigger]
            call_ensures(self.alu, (op, a, b), r) && #[trigger] call_ensures(
                self.alu,
                (op, a, b),
                s,
            ) ==> r == s
    }

    /// Zero is nothing and one is neutral, as IEEE arithmetic has it, also where it flushes
    /// subnormal results: a number times one, and a number that a zero is added to or taken
    /// from, is itself, but that the negative zero may become the other; none of a number is a
    /// zero of its sign; and a number taken from zero is its negative.
    #[verifier::opaque]
    pub open spec fn keeps_units(&self) -> bool {
        &&& forall|x: Plain| x.is_number() ==> #[trigger] self.spec_mul(x, num(ONE)) == x
        &&& forall|x: Plain|
            x.is_number() ==> (#[trigger] self.spec_mul(x, num(ZERO))).is_zero() && self.spec_mul(
                x,
                num(ZERO),
            ).negative() == x.negative()
        &&& forall|x: Plain| x.is_number() ==> (#[trigger] self.spec_mul(num(ZERO), x)).is_zero()
        &&& forall|x: Plain, z: Plain|
            x.is_number() && z.is_zero() ==> same_number(#[trigger] self.spec_add(x, z), x)
        &&& forall|x: Plain, z: Plain|
            x.is_number() && z.is_zero() ==> same_number(#[trigger] self.spec_add(z, x), x)
        &&& forall|x: Plain, z: Plain|
            x.is_number() && z.is_zero() ==> same_number(#[trigger] self.spec_sub(x, z), x)
        &&& forall|x: Plain| x.is_normal() ==> #[trigger] self.spec_sub(num(ZERO), x) == x.neg()
    }

    /// A number as a factor of one and of zero.
    pub proof fn lemma_units_multiply(&self, x: Plain)
        requires
            self.keeps_units(),
            x.is_number(),
        ensures
            self.spec_mul(x, num(ONE)) == x,
            self.spec_mul(x, num(ZERO)).is_zero(),
            self.spec_mul(x, num(ZERO)).negative() == x.negative(),
            self.spec_mul(num(ZERO), x).is_zero(),
    {
        reveal(Fpu::keeps_units);
    }

    /// A number beside a zero.
    pub proof fn lemma_zero_adds(&self, x: Plain, z: Plain)
        requires
            self.keeps_units(),
            x.is_number(),
            z.is_zero(),
        ensures
            same_number(self.spec_add(x, z), x),
            same_number(self.spec_add(z, x), x),
            same_number(self.spec_sub(x, z), x),
    {
        reveal(Fpu::keeps_units);
    }

    /// A number taken from zero.
    pub proof fn lemma_from_zero(&self, x: Plain)
        requires
            self.keeps_units(),
            x.is_number(),
        ensures
            self.spec_sub(num(ZERO), x).mag() == x.mag(),
    {
        reveal(Fpu::keeps_units);
    }

    /// Results are the exact ones, rounded: on finite operands a result lies on the same side
    /// of every number as the exact result does, two results are ordered as the exact ones are,
    /// and exact results that differ in sign alone are rounded to values that do. IEEE
    /// arithmetic does so when it rounds to nearest, also where it flushes subnormal results.
    #[verifier::opaque]
    pub open spec fn rounds(&self) -> bool {
        &&& forall|a: Plain, b: Plain, r: Plain|
            #![trigger self.spec_add(a, b), r.is_number()]
            a.is_finite() && b.is_finite() && r.is_number() ==> {
                &&& r.scaled() <= a.scaled() + b.scaled() ==> r.at_most(self.spec_add(a, b))
                &&& a.scaled() + b.scaled() <= r.scaled() ==> self.spec_add(a, b).at_most(r)
            }
        &&& forall|a: Plain, b: Plain, r: Plain|
            #![trigger self.spec_sub(a, b), r.is_number()]
            a.is_finite() && b.is_finite() && r.is_number() ==> {
                &&& r.scaled() <= a.scaled() - b.scaled() ==> r.at_most(self.spec_sub(a, b))
                &&& a.scaled() - b.scaled() <= r.scaled() ==> self.spec_sub(a, b).at_most(r)
            }
        &&& forall|a: Plain, b: Plain, r: Plain|
            #![trigger self.spec_mul(a, b), r.is_number()]
            a.is_finite() && b.is_finite() && r.is_number() ==> {
                let exact = a.scaled() * b.scaled();
                &&& r.scaled() * plain::unit() <= exact ==> r.at_most(self.spec_mul(a, b))
                &&& exact <= r.scaled() * plain::unit() ==> self.spec_mul(a, b).at_most(r)
            }
        &&& forall|a: Plain, b: Plain, r: Plain|
            #![trigger self.spec_div(a, b), r.is_number()]
            a.is_finite() && b.is_finite() && b.scaled() > 0 && r.is_number() ==> {
                let exact = a.scaled() * plain::unit();
                &&& r.scaled() * b.scaled() <= exact ==> r.at_most(self.spec_div(a, b))
                &&& exact <= r.scaled() * b.scaled() ==> self.spec_div(a, b).at_most(r)
            }
        &&& self.keeps_order()
        &&& forall|a: Plain, b: Plain|
            a.is_finite() && b.is_finite() ==> (#[trigger] self.spec_add(a.neg(), b.neg())).rank()
                == -self.spec_add(a, b).rank()
        &&& forall|a: Plain, b: Plain|
            a.is_finite() && b.is_finite() ==> (#[trigger] self.spec_add(a, b.neg())).rank()
                == self.spec_sub(a, b).rank()
        &&& forall|a: Plain, b: Plain|
            a.is_finite() && b.is_finite() ==> (#[trigger] self.spec_sub(a, b)).rank()
                == -self.spec_sub(b, a).rank()
        &&& forall|a: Plain, b: Plain|
            a.is_finite() && b.is_finite() ==> (#[trigger] self.spec_mul(a.neg(), b)).rank()
                == -self.spec_mul(a, b).rank()
        &&& forall|a: Plain|
            a.is_finite() ==> #[trigger] self.spec_mul(a.neg(), a.neg()) == self.spec_mul(a, a)
        &&& forall|a: Plain, b: Plain|
            a.is_finite() && b.is_finite() && b.scaled() != 0 ==> (#[trigger] self.spec_div(
                a.neg(),
                b,
            )).rank() == -self.spec_div(a, b).rank()
    }

    /// Two results of one operation are ordered as the exact ones are.
    pub open spec fn keeps_order(&self) -> bool {
        &&& forall|a: Plain, b: Plain, c: Plain, d: Plain|
            #![trigger self.spec_add(a, b), self.spec_add(c, d)]
            a.is_finite() && b.is_finite() && c.is_finite() && d.is_finite() && a.scaled()
                + b.scaled() <= c.scaled() + d.scaled() ==> self.spec_add(a, b).at_most(
                self.spec_add(c, d),
            )
        &&& forall|a: Plain, b: Plain, c: Plain, d: Plain|
            #![trigger self.spec_sub(a, b), self.spec_sub(c, d)]
            a.is_finite() && b.is_finite() && c.is_finite() && d.is_finite() && a.scaled()
                - b.scaled() <= c.scaled() - d.scaled() ==> self.spec_sub(a, b).at_most(
                self.spec_sub(c, d),
            )
        &&& forall|a: Plain, b: Plain, c: Plain, d: Plain|
            #![trigger self.spec_mul(a, b), self.spec_mul(c, d)]
            a.is_finite() && b.is_finite() && c.is_finite() && d.is_finite() && a.scaled()
                * b.scaled() <= c.scaled() * d.scaled() ==> self.spec_mul(a, b).at_most(
                self.spec_mul(c, d),
            )
        &&& forall|a: Plain, b: Plain, c: Plain, d: Plain|
            #![trigger self.spec_div(a, b), self.spec_div(c, d)]
            a.is_finite() && b.is_finite() && c.is_finite() && d.is_finite() && b.scaled() > 0
                && d.scaled() > 0 && a.scaled() * d.scaled() <= c.scaled() * b.scaled()
                ==> self.spec_div(a, b).at_most(self.spec_div(c, d))
    }

    /// A sum beside a number.
    pub proof fn lemma_add_side(&self, a: Plain, b: Plain, r: Plain)
        requires
            self.rounds(),
            a.is_finite(),
            b.is_finite(),
            r.is_number(),
        ensures
            r.scaled() <= a.scaled() + b.scaled() ==> r.at_most(self.spec_add(a, b)),
            a.scaled() + b.scaled() <= r.scaled() ==> self.spec_add(a, b).at_most(r),
            a.scaled() + b.scaled() == r.scaled() ==> self.spec_add(a, b).equals(r),
    {
        reveal(Fpu::rounds);
        Plain::lemma_rank_orders(r, self.spec_add(a, b));
    }

    /// A difference beside a number.
    pub proof fn lemma_sub_side(&self, a: Plain, b: Plain, r: Plain)
        requires
            self.rounds(),
            a.is_finite(),
            b.is_finite(),
            r.is_number(),
        ensures
            r.scaled() <= a.scaled() - b.scaled() ==> r.at_most(self.spec_sub(a, b)),
            a.scaled() - b.scaled() <= r.scaled() ==> self.spec_sub(a, b).at_most(r),
            a.scaled() - b.scaled() == r.scaled() ==> self.spec_sub(a, b).equals(r),
    {
        reveal(Fpu::rounds);
        Plain::lemma_rank_orders(r, self.spec_sub(a, b));
    }

    /// A product beside a number.
    pub proof fn lemma_mul_side(&self, a: Plain, b: Plain, r: Plain)
        requires
            self.rounds(),
            a.is_finite(),
            b.is_finite(),
            r.is_number(),
        ensures
            ({
                let exact = a.scaled() * b.scaled();
                let at = r.scaled() * plain::unit();
                &&& at <= exact ==> r.at_most(self.spec_mul(a, b))
                &&& exact <= at ==> self.spec_mul(a, b).at_most(r)
                &&& at == exact ==> self.spec_mul(a, b).equals(r)
            }),
    {
        reveal(Fpu::rounds);
        Plain::lemma_rank_orders(r, self.spec_mul(a, b));
    }

    /// A quotient beside a number.
    pub proof fn lemma_div_side(&self, a: Plain, b: Plain, r: Plain)
        requires
            self.rounds(),
            a.is_finite(),
            b.is_finite(),
            b.scaled() > 0,
            r.is_number(),
        ensures
            ({
                let exact = a.scaled() * plain::unit();
                let at = r.scaled() * b.scaled();
                &&& at <= exact ==> r.at_most(self.spec_div(a, b))
                &&& exact <= at ==> self.spec_div(a, b).at_most(r)
                &&& at == exact ==> self.spec_div(a, b).equals(r)
            }),
    {
        reveal(Fpu::rounds);
        Plain::lemma_rank_orders(r, self.spec_div(a, b));
    }

    /// Two sums are ordered as the exact ones are.
    pub proof fn lemma_add_order(&self, a: Plain, b: Plain, c: Plain, d: Plain)
        requires
            self.rounds(),
            a.is_finite() && b.is_finite() && c.is_finite() && d.is_finite(),
            a.scaled() + b.scaled() <= c.scaled() + d.scaled(),
        ensures
            self.spec_add(a, b).at_most(self.spec_add(c, d)),
    {
        reveal(Fpu::rounds);
    }

    /// Two differences are ordered as the exact ones are.
    pub proof fn lemma_sub_order(&self, a: Plain, b: Plain, c: Plain, d: Plain)
        requires
            self.rounds(),
            a.is_finite() && b.is_finite() && c.is_finite() && d.is_finite(),
            a.scaled() - b.scaled() <= c.scaled() - d.scaled(),
        ensures
            self.spec_sub(a, b).at_most(self.spec_sub(c, d)),
    {
        reveal(Fpu::rounds);
    }

    /// Two products are ordered as the exact ones are.
    pub proof fn lemma_mul_order(&self, a: Plain, b: Plain, c: Plain, d: Plain)
        requires
            self.rounds(),
            a.is_finite() && b.is_finite() && c.is_finite() && d.is_finite(),
            a.scaled() * b.scaled() <= c.scaled() * d.scaled(),
        ensures
            self.spec_mul(a, b).at_most(self.spec_mul(c, d)),
    {
        reveal(Fpu::rounds);
    }

    /// Two quotients are ordered as the exact ones are.
    pub proof fn lemma_div_order(&self, a: Plain, b: Plain, c: Plain, d: Plain)
        requires
            self.rounds(),
            a.is_finite() && b.is_finite() && c.is_finite() && d.is_finite(),
            b.scaled() > 0,
            d.scaled() > 0,
            a.scaled() * d.scaled() <= c.scaled() * b.scaled(),
        ensures
            self.spec_div(a, b).at_most(self.spec_div(c, d)),
    {
        reveal(Fpu::rounds);
    }

    /// A factor that is not negative keeps the order of what it multiplies.
    pub proof fn lemma_scaling_rises(&self, a: Plain, b: Plain, c: Plain)
        requires
            self.rounds(),
            a.is_finite() && b.is_finite() && c.is_finite(),
            a.at_most(b),
            c.scaled() >= 0,
        ensures
            self.spec_mul(a, c).at_most(self.spec_mul(b, c)),
            self.spec_mul(c, a).at_most(self.spec_mul(c, b)),
    {
        let (x, y, z) = (a.scaled(), b.scaled(), c.scaled());
        assert(x * z <= y * z && z * x <= z * y) by (nonlinear_arith)
            requires
                x <= y,
                0 <= z,
        ;
        self.lemma_mul_order(a, c, b, c);
        self.lemma_mul_order(c, a, c, b);
    }

    /// A sum is no larger than the sizes of its parts together.
    pub proof fn lemma_add_within(&self, a: Plain, b: Plain, x: int, y: int, r: Plain)
        requires
            self.rounds(),
            a.is_finite() && b.is_finite(),
            -x <= a.scaled() <= x,
            -y <= b.scaled() <= y,
            r.is_number(),
            x + y <= r.scaled(),
        ensures
            self.spec_add(a, b).is_finite(),
            self.spec_sub(a, b).is_finite(),
            -r.scaled() <= self.spec_add(a, b).scaled() <= r.scaled(),
            -r.scaled() <= self.spec_sub(a, b).scaled() <= r.scaled(),
    {
        plain::lemma_neg_scaled(r);
        self.lemma_add_side(a, b, r);
        self.lemma_add_side(a, b, r.neg());
        self.lemma_sub_side(a, b, r);
        self.lemma_sub_side(a, b, r.neg());
        plain::lemma_between_finite(r.neg(), self.spec_add(a, b), r);
        plain::lemma_between_finite(r.neg(), self.spec_sub(a, b), r);
    }

    /// A product is no larger than the product of the sizes of its factors.
    pub proof fn lemma_mul_within(&self, a: Plain, b: Plain, x: int, y: int, r: Plain)
        requires
            self.rounds(),
            a.is_finite() && b.is_finite(),
            -x <= a.scaled() <= x,
            -y <= b.scaled() <= y,
            r.is_number(),
            x * y <= r.scaled() * plain::unit(),
        ensures
            self.spec_mul(a, b).is_finite(),
            -r.scaled() <= self.spec_mul(a, b).scaled() <= r.scaled(),
    {
        plain::lemma_neg_scaled(r);
        let (s, t, u, k) = (a.scaled(), b.scaled(), plain::unit(), r.scaled());
        assert(-(x * y) <= s * t <= x * y) by (nonlinear_arith)
            requires
                -x <= s <= x,
                -y <= t <= y,
        ;
        assert((-k) * u == -(k * u)) by (nonlinear_arith);
        self.lemma_mul_side(a, b, r);
        self.lemma_mul_side(a, b, r.neg());
        plain::lemma_between_finite(r.neg(), self.spec_mul(a, b), r);
    }

    /// A quotient is no larger than the size of what is divided over the divisor.
    pub proof fn lemma_div_within(&self, a: Plain, b: Plain, x: int, r: Plain)
        requires
            self.rounds(),
            a.is_finite() && b.is_finite(),
            -x <= a.scaled() <= x,
            b.scaled() > 0,
            r.is_number(),
            x * plain::unit() <= r.scaled() * b.scaled(),
        ensures
            self.spec_div(a, b).is_finite(),
            -r.scaled() <= self.spec_div(a, b).scaled() <= r.scaled(),
    {
        plain::lemma_neg_scaled(r);
        plain::lemma_small_values();
        let (s, t, u, k) = (a.scaled(), b.scaled(), plain::unit(), r.scaled());
        assert(-(x * u) <= s * u <= x * u) by (nonlinear_arith)
            requires
                -x <= s <= x,
                u > 0,
        ;
        assert((-k) * t == -(k * t)) by (nonlinear_arith);
        self.lemma_div_side(a, b, r);
        self.lemma_div_side(a, b, r.neg());
        plain::lemma_between_finite(r.neg(), self.spec_div(a, b), r);
    }

    /// None of a finite value is nothing.
    pub proof fn lemma_none_of(&self, x: Plain, z: Plain)
        requires
            self.rounds(),
            x.is_finite(),
            z.is_zero(),
        ensures
            self.spec_mul(x, z).is_zero(),
            self.spec_mul(z, x).is_zero(),
    {
        plain::lemma_zero_scaled(z);
        plain::lemma_zero_scaled(num(ZERO));
        let u = plain::unit();
        let s = x.scaled();
        assert(s * 0 == 0 && 0 * s == 0 && 0 * u == 0) by (nonlinear_arith);
        self.lemma_mul_side(x, z, num(ZERO));
        self.lemma_mul_side(z, x, num(ZERO));
    }

    /// A number times one.
    pub proof fn lemma_all_of(&self, x: Plain)
        requires
            self.rounds(),
            x.is_number(),
        ensures
            self.spec_mul(x, num(ONE)).equals(x),
            self.spec_mul(num(ONE), x).equals(x),
    {
        plain::lemma_small_values();
        let (s, u) = (x.scaled(), plain::unit());
        assert(s * u == u * s) by (nonlinear_arith);
        self.lemma_mul_side(x, num(ONE), x);
        self.lemma_mul_side(num(ONE), x, x);
    }

    /// A number with nothing added or taken off.
    pub proof fn lemma_nothing_added(&self, x: Plain, z: Plain)
        requires
            self.rounds(),
            x.is_number(),
            z.is_zero(),
        ensures
            self.spec_add(x, z).equals(x),
            self.spec_add(z, x).equals(x),
            self.spec_sub(x, z).equals(x),
    {
        plain::lemma_zero_scaled(z);
        self.lemma_add_side(x, z, x);
        self.lemma_add_side(z, x, x);
        self.lemma_sub_side(x, z, x);
    }

    /// Differences of two values taken either way are negatives of each other.
    pub proof fn lemma_sub_turns(&self, a: Plain, b: Plain)
        requires
            self.rounds(),
            a.is_finite(),
            b.is_finite(),
        ensures
            self.spec_sub(a, b).rank() == -self.spec_sub(b, a).rank(),
    {
        reveal(Fpu::rounds);
    }

    /// A product turns over with a factor.
    pub proof fn lemma_mul_turns(&self, a: Plain, b: Plain)
        requires
            self.rounds(),
            a.is_finite(),
            b.is_finite(),
        ensures
            self.spec_mul(a.neg(), b).rank() == -self.spec_mul(a, b).rank(),
            self.spec_mul(b, a.neg()).rank() == -self.spec_mul(a, b).rank(),
    {
        reveal(Fpu::rounds);
        let n = a.neg();
        let (s, t) = (n.scaled(), b.scaled());
        assert(s * t == t * s) by (nonlinear_arith);
        self.lemma_mul_order(n, b, b, n);
        self.lemma_mul_order(b, n, n, b);
    }

    /// A sum turns over with its parts.
    pub proof fn lemma_add_opposite(&self, a: Plain, b: Plain, c: Plain, d: Plain)
        requires
            self.rounds(),
            a.is_finite() && b.is_finite() && c.is_finite() && d.is_finite(),
            c.scaled() == -a.scaled(),
            d.scaled() == -b.scaled(),
        ensures
            self.spec_add(c, d).rank() == -self.spec_add(a, b).rank(),
    {
        assert(self.spec_add(a.neg(), b.neg()).rank() == -self.spec_add(a, b).rank()) by {
            reveal(Fpu::rounds);
        }
        plain::lemma_neg_scaled(a);
        plain::lemma_neg_scaled(b);
        self.lemma_add_order(a.neg(), b.neg(), c, d);
        self.lemma_add_order(c, d, a.neg(), b.neg());
    }

    /// To add a negative is to take off, and to take one off is to add.
    pub proof fn lemma_negative_added(&self, a: Plain, c: Plain, n: Plain)
        requires
            self.rounds(),
            a.is_finite() && c.is_finite() && n.is_finite(),
            n.scaled() == -c.scaled(),
        ensures
            self.spec_add(a, n).rank() == self.spec_sub(a, c).rank(),
            self.spec_sub(a, n).rank() == self.spec_add(a, c).rank(),
    {
        plain::lemma_neg_scaled(c);
        plain::lemma_neg_scaled(n);
        assert(self.spec_add(a, c.neg()).rank() == self.spec_sub(a, c).rank()) by {
            reveal(Fpu::rounds);
        }
        assert(self.spec_add(a, n.neg()).rank() == self.spec_sub(a, n).rank()) by {
            reveal(Fpu::rounds);
        }
        self.lemma_add_order(a, n, a, c.neg());
        self.lemma_add_order(a, c.neg(), a, n);
        self.lemma_add_order(a, n.neg(), a, c);
        self.lemma_add_order(a, c, a, n.neg());
    }

    /// A product turns over with one factor.
    pub proof fn lemma_mul_opposite(&self, a: Plain, b: Plain, c: Plain, d: Plain)
        requires
            self.rounds(),
            a.is_finite() && b.is_finite() && c.is_finite() && d.is_finite(),
            c.scaled() == -a.scaled(),
            d.scaled() == b.scaled(),
        ensures
            self.spec_mul(c, d).rank() == -self.spec_mul(a, b).rank(),
            self.spec_mul(d, c).rank() == -self.spec_mul(b, a).rank(),
    {
        self.lemma_mul_turns(a, b);
        plain::lemma_neg_scaled(a);
        let n = a.neg();
        let (s, t) = (n.scaled(), b.scaled());
        let r = a.scaled();
        assert(s * t == t * s && r * t == t * r) by (nonlinear_arith);
        self.lemma_mul_order(n, b, c, d);
        self.lemma_mul_order(c, d, n, b);
        self.lemma_mul_order(n, b, d, c);
        self.lemma_mul_order(d, c, n, b);
        self.lemma_mul_order(a, b, b, a);
        self.lemma_mul_order(b, a, a, b);
    }

    /// A value and its negative have one square.
    pub proof fn lemma_one_square(&self, a: Plain)
        requires
            self.rounds(),
            a.is_finite(),
        ensures
            self.spec_mul(a.neg(), a.neg()) == self.spec_mul(a, a),
    {
        reveal(Fpu::rounds);
    }

    /// A quotient turns over with the value that is divided.
    pub proof fn lemma_div_turns(&self, a: Plain, b: Plain)
        requires
            self.rounds(),
            a.is_finite(),
            b.is_finite(),
            b.scaled() != 0,
        ensures
            self.spec_div(a.neg(), b).rank() == -self.spec_div(a, b).rank(),
    {
        reveal(Fpu::rounds);
    }

    /// A sum that is off the exact one by no more than `e`, on the scale of values.
    pub open spec fn adds_within(&self, a: Plain, b: Plain, e: nat) -> bool {
        let exact = a.scaled() + b.scaled();
        exact - e <= self.spec_add(a, b).scaled() <= exact + e
    }

    /// The result of an operation.
    pub open spec fn value(&self, op: Op, a: Plain, b: Plain) -> Plain {
        choose|r: Plain| call_ensures(self.alu, (op, a, b), r)
    }

    pub open spec fn spec_add(&self, a: Plain, b: Plain) -> Plain {
        self.value(Op::Add, a, b)
    }

    /// Some parts added up, from the first on.
    pub open spec fn total(&self, parts: Seq<Plain>) -> Plain
        decreases parts.len(),
    {
        if parts.len() <= 1 {
            parts[0]
        } else {
            self.spec_add(self.total(parts.drop_last()), parts.last())
        }
    }

    /// The total of up to seven parts, written out.
    pub proof fn lemma_total(&self, s: Seq<Plain>)
        ensures
            ({
                let two = self.spec_add(s[0], s[1]);
                let three = self.spec_add(two, s[2]);
                let four = self.spec_add(three, s[3]);
                let five = self.spec_add(four, s[4]);
                let six = self.spec_add(five, s[5]);
                &&& s.len() == 2 ==> self.total(s) == two
                &&& s.len() == 3 ==> self.total(s) == three
                &&& s.len() == 6 ==> self.total(s) == six
                &&& s.len() == 7 ==> self.total(s) == self.spec_add(six, s[6])
            }),
    {
        reveal_with_fuel(Fpu::total, 7);
    }

    pub open spec fn spec_sub(&self, a: Plain, b: Plain) -> Plain {
        self.value(Op::Subtract, a, b)
    }

    pub open spec fn spec_mul(&self, a: Plain, b: Plain) -> Plain {
        self.value(Op::Multiply, a, b)
    }

    pub open spec fn spec_div(&self, a: Plain, b: Plain) -> Plain {
        self.value(Op::Divide, a, b)
    }

    pub open spec fn spec_pow(&self, a: Plain, b: Plain) -> Plain {
        self.value(Op::Power, a, b)
    }

    pub open spec fn spec_sqrt(&self, a: Plain) -> Plain {
        self.value(Op::SquareRoot, a, Plain { bits: 0 })
    }

    pub open spec fn spec_exp(&self, a: Plain) -> Plain {
        self.value(Op::Exponential, a, Plain { bits: 0 })
    }

    pub open spec fn spec_ln(&self, a: Plain) -> Plain {
        self.value(Op::Logarithm, a, Plain { bits: 0 })
    }

    pub open spec fn spec_sin(&self, a: Plain) -> Plain {
        self.value(Op::Sine, a, Plain { bits: 0 })
    }

    pub open spec fn spec_cos(&self, a: Plain) -> Plain {
        self.value(Op::Cosine, a, Plain { bits: 0 })
    }

    pub open spec fn spec_tan(&self, a: Plain) -> Plain {
        self.value(Op::Tangent, a, Plain { bits: 0 })
    }

    /// `a + b`.
    #[verifier::when_used_as_spec(spec_add)]
    pub fn add(&self, a: Plain, b: Plain) -> (r: Plain)
        requires
            self.valid(),
        ensures
            r == self.add(a, b),
    {
        (self.alu)(Op::Add, a, b)
    }

    /// `a - b`.
    #[verifier::when_used_as_spec(spec_sub)]
    pub fn sub(&self, a: Plain, b: Plain) -> (r: Plain)
        requires
            self.valid(),
        ensures
            r == self.sub(a, b),
    {
        (self.alu)(Op::Subtract, a, b)
    }

    /// `a * b`.
    #[verifier::when_used_as_spec(spec_mul)]
    pub fn mul(&self, a: Plain, b: Plain) -> (r: Plain)
        requires
            self.valid(),
        ensures
            r == self.mul(a, b),
    {
        (self.alu)(Op::Multiply, a, b)
    }

    /// `a / b`.
    #[verifier::when_used_as_spec(spec_div)]
    pub fn div(&self, a: Plain, b: Plain) -> (r: Plain)
        requires
            self.valid(),
        ensures
            r == self.div(a, b),
    {
        (self.alu)(Op::Divide, a, b)
    }

    /// `a` to the power `b`.
    #[verifier::when_used_as_spec(spec_pow)]
    pub fn pow(&self, a: Plain, b: Plain) -> (r: Plain)
        requires
            self.valid(),
        ensures
            r == self.pow(a, b),
    {
        (self.alu)(Op::Power, a, b)
    }

    /// The square root of `a`.
    #[verifier::when_used_as_spec(spec_sqrt)]
    pub fn sqrt(&self, a: Plain) -> (r: Plain)
        requires
            self.valid(),
        ensures
            r == self.sqrt(a),
    {
        (self.alu)(Op::SquareRoot, a, Plain { bits: 0 })
    }

    /// `e` to the power `a`.
    #[verifier::when_used_as_spec(spec_exp)]
    pub fn exp(&self, a: Plain) -> (r: Plain)
        requires
            self.valid(),
        ensures
            r == self.exp(a),
    {
        (self.alu)(Op::Exponential, a, Plain { bits: 0 })
    }

    /// The natural logarithm of `a`.
    #[verifier::when_used_as_spec(spec_ln)]
    pub fn ln(&self, a: Plain) -> (r: Plain)
        requires
            self.valid(),
        ensures
            r == self.ln(a),
    {
        (self.alu)(Op::Logarithm, a, Plain { bits: 0 })
    }

    /// The sine of `a` radians.
    #[verifier::when_used_as_spec(spec_sin)]
    pub fn sin(&self, a: Plain) -> (r: Plain)
        requires
            self.valid(),
        ensures
            r == self.sin(a),
    {
        (self.alu)(Op::Sine, a, Plain { bits: 0 })
    }

    /// The cosine of `a` radians.
    #[verifier::when_used_as_spec(spec_cos)]
    pub fn cos(&self, a: Plain) -> (r: Plain)
        requires
            self.valid(),
        ensures
            r == self.cos(a),
    {
        (self.alu)(Op::Cosine, a, Plain { bits: 0 })
    }

    /// The tangent of `a` radians.
    #[verifier::when_used_as_spec(spec_tan)]
    pub fn tan(&self, a: Plain) -> (r: Plain)
        requires
            self.valid(),
        ensures
            r == self.tan(a),
    {
        (self.alu)(Op::Tangent, a, Plain { bits: 0 })
    }
}

} // verus!
