//! The order of amounts by their value.

use crate::models::amount::{digits_value, well_formed, Amount};
use vstd::prelude::*;

verus! {

/// Ten to the power of `e`.
pub open spec fn pow10(e: nat) -> nat
    decreases e,
{
    if e == 0 {
        1
    } else {
        10 * pow10((e - 1) as nat)
    }
}

/// Powers of ten are positive, and the power of a sum is the product of the
/// powers.
pub proof fn lemma_pow10(a: nat, b: nat)
    ensures
        pow10(a) > 0,
        pow10(a + b) == pow10(a) * pow10(b),
    decreases a,
{
    if a == 0 {
        assert(pow10(0 + b) == 1 * pow10(b));
    } else {
        lemma_pow10((a - 1) as nat, b);
        assert(pow10(a + b) == 10 * pow10((a + b - 1) as nat));
        assert(10 * (pow10((a - 1) as nat) * pow10(b)) == (10 * pow10((a - 1) as nat)) * pow10(b))
            by (nonlinear_arith);
    }
}

/// The digits with zeros put before and behind them, so that `whole` digits
/// stand before the point and `frac` behind it.
pub open spec fn aligned(digits: Seq<u8>, scale: nat, whole: nat, frac: nat) -> Seq<u8> {
    Seq::new(
        whole + frac,
        |p: int|
            {
                let j = p - (whole - (digits.len() - scale));
                if 0 <= j < digits.len() {
                    digits[j]
                } else {
                    0u8
                }
            },
    )
}

/// The value of a numeral followed by another is the first value shifted by
/// the second's length, plus the second value, which is less than that shift.
pub proof fn lemma_value_concat(x: Seq<u8>, y: Seq<u8>)
    requires
        forall|i: int| 0 <= i < y.len() ==> #[trigger] y[i] < 10,
    ensures
        digits_value(x + y) == digits_value(x) * pow10(y.len()) + digits_value(y),
        digits_value(y) < pow10(y.len()),
    decreases y.len(),
{
    if y.len() == 0 {
        assert(x + y =~= x);
        assert(digits_value(x) * 1 == digits_value(x));
    } else {
        let front = y.drop_last();
        assert forall|i: int| 0 <= i < front.len() implies #[trigger] front[i] < 10 by {
            assert(front[i] == y[i]);
        }
        lemma_value_concat(x, front);
        assert((x + y).drop_last() =~= x + front);
        assert((x + y).last() == y.last());
        assert(y.last() == y[y.len() - 1]);
        let vx = digits_value(x);
        let vf = digits_value(front);
        let p = pow10(front.len());
        assert(pow10(y.len()) == 10 * p);
        assert((vx * p + vf) * 10 + y.last() == vx * (10 * p) + (vf * 10 + y.last()))
            by (nonlinear_arith);
    }
}

/// Zeros before a numeral leave its value; `trail` zeros behind it multiply
/// the value by ten to the power of `trail`.
pub proof fn lemma_aligned_value(digits: Seq<u8>, scale: nat, whole: nat, frac: nat)
    requires
        well_formed(digits, scale),
        whole >= digits.len() - scale,
        frac >= scale,
    ensures
        digits_value(aligned(digits, scale, whole, frac)) == digits_value(digits) * pow10(
            (frac - scale) as nat,
        ),
        forall|p: int|
            0 <= p < whole + frac ==> #[trigger] aligned(digits, scale, whole, frac)[p] < 10,
{
    let lead = (whole - (digits.len() - scale)) as nat;
    let trail = (frac - scale) as nat;
    let zeros_lead = Seq::new(lead, |i: int| 0u8);
    let zeros_trail = Seq::new(trail, |i: int| 0u8);
    let all = aligned(digits, scale, whole, frac);
    assert(all =~= (zeros_lead + digits) + zeros_trail);
    crate::models::amount::lemma_digits_value_zero(zeros_lead);
    crate::models::amount::lemma_digits_value_zero(zeros_trail);
    lemma_value_concat(zeros_lead, digits);
    lemma_value_concat(zeros_lead + digits, zeros_trail);
    assert(0 * pow10(digits.len()) == 0);
}

/// Of two numerals of one length that agree before a place and differ at
/// it, the one with the smaller digit there has the smaller value.
pub proof fn lemma_first_difference(x: Seq<u8>, y: Seq<u8>, p: int)
    requires
        x.len() == y.len(),
        0 <= p < x.len(),
        forall|i: int| 0 <= i < x.len() ==> #[trigger] x[i] < 10,
        forall|i: int| 0 <= i < y.len() ==> #[trigger] y[i] < 10,
        forall|i: int| 0 <= i < p ==> #[trigger] x[i] == y[i],
        x[p] < y[p],
    ensures
        digits_value(x) < digits_value(y),
{
    let rest = (x.len() - p - 1) as nat;
    let xh = x.take(p + 1);
    let yh = y.take(p + 1);
    let xt = x.skip(p + 1);
    let yt = y.skip(p + 1);
    assert(x =~= xh + xt);
    assert(y =~= yh + yt);
    lemma_value_concat(xh, xt);
    lemma_value_concat(yh, yt);
    assert(xh.drop_last() =~= yh.drop_last());
    assert(xh.last() == x[p]);
    assert(yh.last() == y[p]);
    let a = digits_value(xh);
    let b = digits_value(yh);
    let w = pow10(rest);
    assert(a + 1 <= b);
    assert((a + 1) * w <= b * w) by (nonlinear_arith)
        requires
            a + 1 <= b,
            w >= 0,
    ;
    assert((a + 1) * w == a * w + w) by (nonlinear_arith);
}

impl Amount {
    /// Whether this amount is less than `other`, by value: the mantissas are
    /// compared after each is scaled by the other's scale.
    pub open spec fn less_than(&self, other: &Amount) -> bool {
        self.mantissa() * pow10(other.scale()) < other.mantissa() * pow10(self.scale())
    }

    /// Whether the two amounts have the same value.
    pub open spec fn same_value(&self, other: &Amount) -> bool {
        self.mantissa() * pow10(other.scale()) == other.mantissa() * pow10(self.scale())
    }

    /// Whether this amount is at least `other`, by value.
    pub open spec fn at_least(&self, other: &Amount) -> bool {
        !self.less_than(other)
    }

    /// Of any two amounts one is at least the other.
    pub proof fn lemma_at_least_total(&self, other: &Amount)
        ensures
            self.at_least(other) || other.at_least(self),
    {
    }

    /// An amount that is at least a second, which is at least a third, is at
    /// least the third.
    pub proof fn lemma_at_least_transitive(&self, middle: &Amount, last: &Amount)
        requires
            self.at_least(middle),
            middle.at_least(last),
        ensures
            self.at_least(last),
    {
        let ma = self.mantissa();
        let mb = middle.mantissa();
        let mc = last.mantissa();
        let pa = pow10(self.scale());
        let pb = pow10(middle.scale());
        let pc = pow10(last.scale());
        lemma_pow10(self.scale(), 0);
        lemma_pow10(middle.scale(), 0);
        lemma_pow10(last.scale(), 0);
        assert(ma * pb >= mb * pa);
        assert(mb * pc >= mc * pb);
        assert((ma * pb) * pc >= (mb * pa) * pc) by (nonlinear_arith)
            requires
                ma * pb >= mb * pa,
                pc >= 0,
        ;
        assert((mb * pc) * pa >= (mc * pb) * pa) by (nonlinear_arith)
            requires
                mb * pc >= mc * pb,
                pa >= 0,
        ;
        assert((ma * pb) * pc == (ma * pc) * pb) by (nonlinear_arith);
        assert((mb * pa) * pc == (mb * pc) * pa) by (nonlinear_arith);
        assert((mc * pb) * pa == (mc * pa) * pb) by (nonlinear_arith);
        assert(ma * pc >= mc * pa) by (nonlinear_arith)
            requires
                (ma * pc) * pb >= (mc * pa) * pb,
                pb > 0,
        ;
    }

    /// The digit at place `p` of the whole part, the part padded with zeros
    /// in front to `whole` places.
    fn whole_digit(&self, p: usize, whole: usize) -> (d: u8)
        requires
            self.wf(),
            whole >= self.digits@.len() - self.scale,
            p < whole,
        ensures
            forall|frac: nat|
                frac >= self.scale ==> d == #[trigger] aligned(
                    self.digits@,
                    self.scale as nat,
                    whole as nat,
                    frac,
                )[p as int],
    {
        let own: usize = self.digits.len() - self.scale;
        let lead: usize = whole - own;
        if p < lead {
            0
        } else {
            self.digits[p - lead]
        }
    }

    /// The digit at place `q` behind the point, the part padded with zeros
    /// behind.
    fn frac_digit(&self, q: usize, whole: usize) -> (d: u8)
        requires
            self.wf(),
            whole >= self.digits@.len() - self.scale,
        ensures
            forall|frac: nat|
                frac >= self.scale && q < frac ==> d == #[trigger] aligned(
                    self.digits@,
                    self.scale as nat,
                    whole as nat,
                    frac,
                )[whole + q],
    {
        let own: usize = self.digits.len() - self.scale;
        if q < self.scale {
            self.digits[own + q]
        } else {
            0
        }
    }

    /// Whether this amount is less than `other`, by value.
    pub fn is_less_than(&self, other: &Amount) -> (less: bool)
        ensures
            less == self.less_than(other),
    {
        proof {
            use_type_invariant(self);
            use_type_invariant(other);
        }
        let own_whole: usize = self.digits.len() - self.scale;
        let other_whole: usize = other.digits.len() - other.scale;
        let whole: usize = if own_whole >= other_whole {
            own_whole
        } else {
            other_whole
        };
        let frac: usize = if self.scale >= other.scale {
            self.scale
        } else {
            other.scale
        };
        let ghost x = aligned(self.digits@, self.scale as nat, whole as nat, frac as nat);
        let ghost y = aligned(other.digits@, other.scale as nat, whole as nat, frac as nat);
        proof {
            lemma_aligned_value(self.digits@, self.scale as nat, whole as nat, frac as nat);
            lemma_aligned_value(other.digits@, other.scale as nat, whole as nat, frac as nat);
        }
        let mut p: usize = 0;
        while p < whole
            invariant
                p <= whole,
                self.wf(),
                other.wf(),
                whole >= self.digits@.len() - self.scale,
                whole >= other.digits@.len() - other.scale,
                frac >= self.scale,
                frac >= other.scale,
                frac <= self.scale + other.scale,
                x == aligned(self.digits@, self.scale as nat, whole as nat, frac as nat),
                y == aligned(other.digits@, other.scale as nat, whole as nat, frac as nat),
                forall|i: int| 0 <= i < whole + frac ==> #[trigger] x[i] < 10,
                forall|i: int| 0 <= i < whole + frac ==> #[trigger] y[i] < 10,
                forall|i: int| 0 <= i < p ==> #[trigger] x[i] == y[i],
            decreases whole - p,
        {
            let a: u8 = self.whole_digit(p, whole);
            let b: u8 = other.whole_digit(p, whole);
            assert(a == x[p as int]);
            assert(b == y[p as int]);
            if a != b {
                proof {
                    if a < b {
                        lemma_first_difference(x, y, p as int);
                    } else {
                        lemma_first_difference(y, x, p as int);
                    }
                    self.lemma_aligned_order(other, whole as nat, frac as nat);
                }
                return a < b;
            }
            p += 1;
        }
        let mut q: usize = 0;
        while q < frac
            invariant
                q <= frac,
                self.wf(),
                other.wf(),
                whole >= self.digits@.len() - self.scale,
                whole >= other.digits@.len() - other.scale,
                frac >= self.scale,
                frac >= other.scale,
                frac <= self.scale + other.scale,
                x == aligned(self.digits@, self.scale as nat, whole as nat, frac as nat),
                y == aligned(other.digits@, other.scale as nat, whole as nat, frac as nat),
                forall|i: int| 0 <= i < whole + frac ==> #[trigger] x[i] < 10,
                forall|i: int| 0 <= i < whole + frac ==> #[trigger] y[i] < 10,
                forall|i: int| 0 <= i < whole + q ==> #[trigger] x[i] == y[i],
            decreases frac - q,
        {
            let a: u8 = self.frac_digit(q, whole);
            let b: u8 = other.frac_digit(q, whole);
            assert(a == x[whole + q]);
            assert(b == y[whole + q]);
            if a != b {
                proof {
                    if a < b {
                        lemma_first_difference(x, y, whole + q);
                    } else {
                        lemma_first_difference(y, x, whole + q);
                    }
                    self.lemma_aligned_order(other, whole as nat, frac as nat);
                }
                return a < b;
            }
            q += 1;
        }
        proof {
            assert(x =~= y);
            self.lemma_aligned_order(other, whole as nat, frac as nat);
        }
        false
    }

    /// The order of two amounts is the order of their digits once both are
    /// aligned at the point.
    proof fn lemma_aligned_order(&self, other: &Amount, whole: nat, frac: nat)
        requires
            self.wf(),
            other.wf(),
            whole >= self.digits().len() - self.scale(),
            whole >= other.digits().len() - other.scale(),
            frac >= self.scale(),
            frac >= other.scale(),
            frac <= self.scale() + other.scale(),
        ensures
            self.less_than(other) <==> digits_value(
                aligned(self.digits(), self.scale(), whole, frac),
            ) < digits_value(aligned(other.digits(), other.scale(), whole, frac)),
            self.same_value(other) <==> digits_value(
                aligned(self.digits(), self.scale(), whole, frac),
            ) == digits_value(aligned(other.digits(), other.scale(), whole, frac)),
    {
        lemma_aligned_value(self.digits(), self.scale(), whole, frac);
        lemma_aligned_value(other.digits(), other.scale(), whole, frac);
        let ma = self.mantissa();
        let mb = other.mantissa();
        let ea = (frac - self.scale()) as nat;
        let eb = (frac - other.scale()) as nat;
        let k = (self.scale() + other.scale() - frac) as nat;
        lemma_pow10(ea, k);
        lemma_pow10(eb, k);
        lemma_pow10(k, 0);
        assert(ea + k == other.scale());
        assert(eb + k == self.scale());
        let pa = pow10(ea);
        let pb = pow10(eb);
        let pk = pow10(k);
        assert(ma * (pa * pk) == (ma * pa) * pk) by (nonlinear_arith);
        assert(mb * (pb * pk) == (mb * pb) * pk) by (nonlinear_arith);
        let u = ma * pa;
        let v = mb * pb;
        assert(u < v <==> u * pk < v * pk) by (nonlinear_arith)
            requires
                pk > 0,
        ;
        assert(u == v <==> u * pk == v * pk) by (nonlinear_arith)
            requires
                pk > 0,
        ;
    }
}

} // verus!
