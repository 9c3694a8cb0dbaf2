//! Numerals in a radix, and the change of a numeral from one radix to
//! another that keeps its leading zeros.

use vstd::prelude::*;

verus! {

/// The number that the digits spell in radix `base`, the most significant
/// digit first.
pub open spec fn radix_value(digits: Seq<nat>, base: nat) -> nat
    decreases digits.len(),
{
    if digits.len() == 0 {
        0
    } else {
        radix_value(digits.drop_last(), base) * base + digits.last()
    }
}

/// The digits of `n` in radix `base`, the most significant first and not
/// zero; zero has no digits.
pub open spec fn radix_digits(n: nat, base: nat) -> Seq<nat>
    decreases n,
    via radix_digits_decreases
{
    if n == 0 || base < 2 {
        Seq::empty()
    } else {
        radix_digits(n / base, base).push(n % base)
    }
}

#[via_fn]
proof fn radix_digits_decreases(n: nat, base: nat) {
    if n > 0 && base >= 2 {
        assert(n / base < n) by (nonlinear_arith)
            requires
                n > 0,
                base >= 2,
        ;
    }
}

/// How many zeros lead the digits.
pub open spec fn leading_zeros(digits: Seq<nat>) -> nat
    decreases digits.len(),
{
    if digits.len() == 0 || digits[0] != 0 {
        0
    } else {
        1 + leading_zeros(digits.drop_first())
    }
}

/// `count` zeros.
pub open spec fn zeros(count: nat) -> Seq<nat> {
    Seq::new(count, |i: int| 0nat)
}

/// Whether each digit is less than `base`.
pub open spec fn in_radix(digits: Seq<nat>, base: nat) -> bool {
    forall|i: int| 0 <= i < digits.len() ==> #[trigger] digits[i] < base
}

/// The numeral in radix `to` of the number that `digits` spell in radix
/// `from`, behind as many zeros as lead `digits`.
pub open spec fn convert(digits: Seq<nat>, from: nat, to: nat) -> Seq<nat> {
    zeros(leading_zeros(digits)) + radix_digits(radix_value(digits, from), to)
}

/// The digits of a number spell it, each is less than the radix, and the
/// first is not zero.
pub proof fn lemma_radix_digits(n: nat, base: nat)
    requires
        base >= 2,
    ensures
        radix_value(radix_digits(n, base), base) == n,
        in_radix(radix_digits(n, base), base),
        n > 0 ==> radix_digits(n, base).len() > 0 && radix_digits(n, base)[0] != 0,
        n == 0 ==> radix_digits(n, base).len() == 0,
    decreases n,
{
    if n > 0 {
        let front = radix_digits(n / base, base);
        let all = radix_digits(n, base);
        assert(n / base < n) by (nonlinear_arith)
            requires
                n > 0,
                base >= 2,
        ;
        lemma_radix_digits(n / base, base);
        assert(all.drop_last() =~= front);
        assert(all.last() == n % base);
        assert((n / base) * base + n % base == n) by (nonlinear_arith)
            requires
                base >= 2,
        ;
        assert(n % base < base) by (nonlinear_arith)
            requires
                base >= 2,
        ;
        assert forall|i: int| 0 <= i < all.len() implies #[trigger] all[i] < base by {
            if i < front.len() {
                assert(all[i] == front[i]);
            }
        }
        if n / base > 0 {
            assert(all[0] == front[0]);
        } else {
            assert(n % base == n) by (nonlinear_arith)
                requires
                    n / base == 0,
                    base >= 2,
            ;
        }
    }
}

/// Digits without a leading zero are the digits of the number they spell.
pub proof fn lemma_radix_value(digits: Seq<nat>, base: nat)
    requires
        base >= 2,
        in_radix(digits, base),
        digits.len() > 0 ==> digits[0] != 0,
    ensures
        radix_digits(radix_value(digits, base), base) == digits,
        digits.len() > 0 ==> radix_value(digits, base) > 0,
    decreases digits.len(),
{
    if digits.len() == 0 {
        assert(radix_digits(0, base) =~= digits);
    } else {
        let front = digits.drop_last();
        let last = digits.last();
        let high = radix_value(front, base);
        let n = radix_value(digits, base);
        assert(last == digits[digits.len() - 1]);
        assert(in_radix(front, base)) by {
            assert forall|i: int| 0 <= i < front.len() implies #[trigger] front[i] < base by {
                assert(front[i] == digits[i]);
            }
        }
        if front.len() > 0 {
            assert(front[0] == digits[0]);
        }
        lemma_radix_value(front, base);
        assert(n == high * base + last);
        assert(n / base == high && n % base == last) by (nonlinear_arith)
            requires
                n == high * base + last,
                last < base,
                base >= 2,
        ;
        if front.len() > 0 {
            assert(n > 0) by (nonlinear_arith)
                requires
                    n == high * base + last,
                    high > 0,
                    base >= 2,
            ;
        } else {
            assert(high == 0);
            assert(last == digits[0]);
        }
        assert(radix_digits(n, base) =~= radix_digits(high, base).push(last));
        assert(radix_digits(n, base) =~= digits);
    }
}

/// Zeros spell zero, and zeros before digits leave their value.
pub proof fn lemma_zeros_value(count: nat, digits: Seq<nat>, base: nat)
    ensures
        radix_value(zeros(count) + digits, base) == radix_value(digits, base),
    decreases digits.len(), count,
{
    let all = zeros(count) + digits;
    if digits.len() > 0 {
        lemma_zeros_value(count, digits.drop_last(), base);
        assert(all.drop_last() =~= zeros(count) + digits.drop_last());
        assert(all.last() == digits.last());
    } else if count > 0 {
        lemma_zeros_value((count - 1) as nat, digits, base);
        assert(all.drop_last() =~= zeros((count - 1) as nat) + digits);
        assert(all.last() == 0);
        assert(radix_value(all.drop_last(), base) * base == 0) by (nonlinear_arith)
            requires
                radix_value(all.drop_last(), base) == 0,
        ;
    } else {
        assert(all =~= digits);
    }
}

/// Digits are their leading zeros and what follows them, which does not
/// begin with a zero.
pub proof fn lemma_leading_zeros(digits: Seq<nat>)
    ensures
        leading_zeros(digits) <= digits.len(),
        digits == zeros(leading_zeros(digits)) + digits.skip(leading_zeros(digits) as int),
        leading_zeros(digits) < digits.len() ==> digits[leading_zeros(digits) as int] != 0,
    decreases digits.len(),
{
    if digits.len() == 0 || digits[0] != 0 {
        assert(digits =~= zeros(0) + digits.skip(0));
    } else {
        let rest = digits.drop_first();
        lemma_leading_zeros(rest);
        let z = leading_zeros(rest);
        assert(rest.skip(z as int) =~= digits.skip((z + 1) as int));
        assert(digits =~= zeros(z + 1) + digits.skip((z + 1) as int)) by {
            assert forall|i: int| 0 <= i < digits.len() implies digits[i] == (zeros(z + 1)
                + digits.skip((z + 1) as int))[i] by {
                if 0 < i {
                    assert(digits[i] == rest[i - 1]);
                    assert(rest[i - 1] == (zeros(z) + rest.skip(z as int))[i - 1]);
                }
            }
        }
        if z + 1 < digits.len() {
            assert(digits[(z + 1) as int] == rest[z as int]);
        }
    }
}

/// Zeros before digits that do not begin with a zero are the leading zeros
/// of the whole.
pub proof fn lemma_leading_zeros_of(count: nat, digits: Seq<nat>)
    requires
        digits.len() > 0 ==> digits[0] != 0,
    ensures
        leading_zeros(zeros(count) + digits) == count,
    decreases count,
{
    let all = zeros(count) + digits;
    if count > 0 {
        lemma_leading_zeros_of((count - 1) as nat, digits);
        assert(all.drop_first() =~= zeros((count - 1) as nat) + digits);
        assert(all[0] == 0);
    } else {
        assert(all =~= digits);
    }
}

/// A numeral changed to another radix and back is the numeral.
pub proof fn lemma_convert_back(digits: Seq<nat>, from: nat, to: nat)
    requires
        from >= 2,
        to >= 2,
        in_radix(digits, from),
    ensures
        in_radix(convert(digits, from, to), to),
        convert(convert(digits, from, to), to, from) == digits,
{
    let z = leading_zeros(digits);
    let n = radix_value(digits, from);
    let there = radix_digits(n, to);
    let changed = convert(digits, from, to);
    lemma_radix_digits(n, to);
    assert forall|i: int| 0 <= i < changed.len() implies #[trigger] changed[i] < to by {
        if i >= z {
            assert(changed[i] == there[i - z]);
        }
    }
    lemma_leading_zeros_of(z, there);
    lemma_zeros_value(z, there, to);
    assert(radix_value(changed, to) == n);
    lemma_leading_zeros(digits);
    let rest = digits.skip(z as int);
    lemma_zeros_value(z, rest, from);
    assert(radix_value(rest, from) == n);
    assert forall|i: int| 0 <= i < rest.len() implies #[trigger] rest[i] < from by {
        assert(rest[i] == digits[i + z as int]);
    }
    if rest.len() > 0 {
        assert(rest[0] == digits[z as int]);
    }
    lemma_radix_value(rest, from);
    assert(convert(changed, to, from) =~= zeros(z) + rest);
}

} // verus!
