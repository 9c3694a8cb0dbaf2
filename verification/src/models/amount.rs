//! Non-negative decimal amounts of arbitrary precision, as the ledger
//! store's numeric columns hold them.

use crate::text::{digit_char, push_digit};
use vstd::prelude::*;
use vstd::string::is_ascii_spec_bytes;

pub mod order;

// The quotient is computed by the decimal arithmetic of `bigdecimal`.
use bigdecimal::BigDecimal;
use std::str::FromStr;

verus! {

/// The text of the quotient of two amounts, each given by its text, as
/// `bigdecimal` computes and prints it: exact where the division ends
/// within a hundred digits, rounded there where it does not.
pub uninterp spec fn quotient_text(numerator: Seq<char>, denominator: Seq<char>) -> Seq<char>;

/// `bigdecimal::BigDecimal`: reads both texts with `from_str`, divides the
/// first number by the second with `/` and prints the quotient with
/// `to_string`. Both texts follow the grammar, which `from_str` accepts, and
/// the divisor is not zero, so that neither the reading nor the division
/// panics. The claim is that the text is a function of the two texts.
#[verifier::external_body]
fn decimal_quotient(numerator: &str, denominator: &str) -> (quotient: String)
    requires
        is_decimal_text(numerator@),
        is_decimal_text(denominator@),
        !is_zero_text(denominator@),
    ensures
        quotient@ == quotient_text(numerator@, denominator@),
{
    let dividend = BigDecimal::from_str(numerator).unwrap();
    let divisor = BigDecimal::from_str(denominator).unwrap();
    (dividend / divisor).to_string()
}

/// Whether `c` is a decimal digit.
pub open spec fn is_digit(c: char) -> bool {
    '0' <= c <= '9'
}

/// Whether `s` is one or more decimal digits.
pub open spec fn is_digits(s: Seq<char>) -> bool {
    s.len() > 0 && forall|i: int| 0 <= i < s.len() ==> is_digit(#[trigger] s[i])
}

/// The grammar of an amount's text: one or more digits, which a point and
/// one or more digits may follow. No sign, no exponent.
pub open spec fn is_decimal_text(text: Seq<char>) -> bool {
    is_digits(text) || exists|k: int|
        0 < k < text.len() - 1 && #[trigger] text[k] == '.' && is_digits(text.take(k))
            && is_digits(text.skip(k + 1))
}

/// Whether `digits` are decimal digits of which the last `scale` stand
/// behind the point and at least one stands before it.
pub open spec fn well_formed(digits: Seq<u8>, scale: nat) -> bool {
    scale < digits.len() && forall|i: int| 0 <= i < digits.len() ==> #[trigger] digits[i] < 10
}

/// The text of the digits with the point before the last `scale` of them.
pub open spec fn decimal_text(digits: Seq<u8>, scale: nat) -> Seq<char> {
    let whole = digits.len() - scale;
    if scale == 0 {
        Seq::new(digits.len(), |i: int| digit_char(digits[i] as nat))
    } else {
        Seq::new(
            digits.len() + 1,
            |i: int|
                if i < whole {
                    digit_char(digits[i] as nat)
                } else if i == whole {
                    '.'
                } else {
                    digit_char(digits[i - 1] as nat)
                },
        )
    }
}

/// The number that the digits spell, read as one numeral.
pub open spec fn digits_value(digits: Seq<u8>) -> nat
    decreases digits.len(),
{
    if digits.len() == 0 {
        0
    } else {
        digits_value(digits.drop_last()) * 10 + digits.last() as nat
    }
}

/// Digits spell zero exactly if each of them is zero.
pub proof fn lemma_digits_value_zero(digits: Seq<u8>)
    ensures
        digits_value(digits) == 0 <==> forall|i: int|
            0 <= i < digits.len() ==> #[trigger] digits[i] == 0,
    decreases digits.len(),
{
    if digits.len() > 0 {
        let front = digits.drop_last();
        lemma_digits_value_zero(front);
        if digits_value(digits) == 0 {
            assert forall|i: int| 0 <= i < digits.len() implies #[trigger] digits[i] == 0 by {
                if i < front.len() {
                    assert(front[i] == digits[i]);
                }
            }
        } else {
            if forall|i: int| 0 <= i < digits.len() ==> #[trigger] digits[i] == 0 {
                assert forall|i: int| 0 <= i < front.len() implies #[trigger] front[i] == 0 by {
                    assert(front[i] == digits[i]);
                }
                assert(digits.last() == digits[digits.len() - 1]);
            }
        }
    }
}

/// Whether a text that follows the grammar spells zero: it holds no digit
/// but `0`.
pub open spec fn is_zero_text(text: Seq<char>) -> bool {
    forall|i: int| 0 <= i < text.len() ==> #[trigger] text[i] == '0' || text[i] == '.'
}

/// The text of well-formed digits spells zero exactly if the digits do.
pub proof fn lemma_zero_text(digits: Seq<u8>, scale: nat)
    requires
        well_formed(digits, scale),
    ensures
        is_zero_text(decimal_text(digits, scale)) <==> digits_value(digits) == 0,
{
    let text = decimal_text(digits, scale);
    let whole = digits.len() - scale;
    lemma_digits_value_zero(digits);
    assert forall|i: int| 0 <= i < digits.len() implies (#[trigger] digit_char(digits[i] as nat)
        == '0' <==> digits[i] == 0) && digit_char(digits[i] as nat) != '.' by {
        lemma_digit_char(digits[i] as nat);
    }
    if is_zero_text(text) {
        assert forall|i: int| 0 <= i < digits.len() implies #[trigger] digits[i] == 0 by {
            if scale == 0 || i < whole {
                assert(text[i] == digit_char(digits[i] as nat));
            } else {
                assert(text[i + 1] == digit_char(digits[i] as nat));
            }
        }
    }
    if digits_value(digits) == 0 {
        assert forall|i: int| 0 <= i < text.len() implies #[trigger] text[i] == '0' || text[i]
            == '.' by {
            if scale == 0 || i < whole {
                assert(text[i] == digit_char(digits[i] as nat));
            } else if i > whole {
                assert(text[i] == digit_char(digits[i - 1] as nat));
            }
        }
    }
}

/// The character of a digit value is the digit, and no other value has it.
pub proof fn lemma_digit_char(d: nat)
    requires
        d < 10,
    ensures
        is_digit(digit_char(d)),
        digit_char(d) as int == 48 + d,
{
}

/// A text follows the grammar exactly if it is not empty, holds digits and
/// at most one point, and begins and ends with a digit.
pub proof fn lemma_decimal_text_shape(text: Seq<char>)
    ensures
        is_decimal_text(text) <==> {
            &&& text.len() > 0
            &&& forall|i: int| 0 <= i < text.len() ==> is_digit(#[trigger] text[i]) || text[i] == '.'
            &&& forall|i: int, j: int|
                0 <= i < text.len() && 0 <= j < text.len() && #[trigger] text[i] == '.'
                    && #[trigger] text[j] == '.' ==> i == j
            &&& is_digit(text[0])
            &&& is_digit(text[text.len() - 1])
        },
{
    let shape = {
        &&& text.len() > 0
        &&& forall|i: int| 0 <= i < text.len() ==> is_digit(#[trigger] text[i]) || text[i] == '.'
        &&& forall|i: int, j: int|
            0 <= i < text.len() && 0 <= j < text.len() && #[trigger] text[i] == '.'
                && #[trigger] text[j] == '.' ==> i == j
        &&& is_digit(text[0])
        &&& is_digit(text[text.len() - 1])
    };
    if is_decimal_text(text) {
        if !is_digits(text) {
            let k = choose|k: int|
                0 < k < text.len() - 1 && #[trigger] text[k] == '.' && is_digits(text.take(k))
                    && is_digits(text.skip(k + 1));
            let head = text.take(k);
            let tail = text.skip(k + 1);
            assert forall|i: int| 0 <= i < text.len() && i != k implies is_digit(
                #[trigger] text[i],
            ) by {
                if i < k {
                    assert(head[i] == text[i]);
                } else {
                    assert(tail[i - k - 1] == text[i]);
                }
            }
            assert(shape);
        }
    }
    if shape {
        if exists|k: int| 0 <= k < text.len() && text[k] == '.' {
            let k = choose|k: int| 0 <= k < text.len() && text[k] == '.';
            let head = text.take(k);
            let tail = text.skip(k + 1);
            assert forall|i: int| 0 <= i < head.len() implies is_digit(#[trigger] head[i]) by {
                assert(head[i] == text[i]);
            }
            assert forall|i: int| 0 <= i < tail.len() implies is_digit(#[trigger] tail[i]) by {
                assert(tail[i] == text[i + k + 1]);
            }
            assert(is_decimal_text(text));
        } else {
            assert(is_digits(text));
        }
    }
}

/// The text of well-formed digits follows the grammar.
pub proof fn lemma_decimal_text_is_decimal(digits: Seq<u8>, scale: nat)
    requires
        well_formed(digits, scale),
    ensures
        is_decimal_text(decimal_text(digits, scale)),
{
    let text = decimal_text(digits, scale);
    let whole = digits.len() - scale;
    assert forall|i: int| 0 <= i < digits.len() implies is_digit(
        #[trigger] digit_char(digits[i] as nat),
    ) by {
        lemma_digit_char(digits[i] as nat);
    }
    if scale == 0 {
        assert(is_digits(text));
    } else {
        assert(text[whole] == '.');
        assert forall|i: int| 0 <= i < text.len() && i != whole implies is_digit(
            #[trigger] text[i],
        ) by {
            if i < whole {
                assert(text[i] == digit_char(digits[i] as nat));
            } else {
                assert(text[i] == digit_char(digits[i - 1] as nat));
            }
        }
        lemma_decimal_text_shape(text);
    }
}

/// A non-negative decimal number of arbitrary precision: its digits and how
/// many of them stand behind the point.
#[derive(Debug)]
pub struct Amount {
    digits: Vec<u8>,
    scale: usize,
}

impl Amount {
    /// Every amount holds decimal digits, at least one of them before the
    /// point.
    #[verifier::type_invariant]
    pub closed spec fn wf(&self) -> bool {
        well_formed(self.digits@, self.scale as nat)
    }

    /// The digits, the most significant first, each as its value.
    pub closed spec fn digits(&self) -> Seq<u8> {
        self.digits@
    }

    /// How many of the digits stand behind the point.
    pub closed spec fn scale(&self) -> nat {
        self.scale as nat
    }

    /// The digits read as one numeral: the amount is this number divided by
    /// ten to the power of the scale.
    pub open spec fn mantissa(&self) -> nat {
        digits_value(self.digits())
    }

    /// The amount as text.
    pub open spec fn text(&self) -> Seq<char> {
        decimal_text(self.digits(), self.scale())
    }

    /// The amount that `text` spells: `None` where the text does not follow
    /// the grammar.
    pub fn parse(text: &str) -> (parsed: Option<Amount>)
        ensures
            parsed.is_some() <==> is_decimal_text(text@),
            parsed.is_some() ==> parsed.unwrap().wf() && parsed.unwrap().text() == text@,
    {
        proof {
            lemma_decimal_text_shape(text@);
        }
        if !text.is_ascii() {
            return None;
        }
        let bytes = text.as_bytes();
        let n: usize = bytes.len();
        proof {
            is_ascii_spec_bytes(text);
        }
        let mut digits: Vec<u8> = Vec::new();
        let mut point: Option<usize> = None;
        let mut i: usize = 0;
        while i < n
            invariant
                i <= n,
                n == text@.len(),
                bytes@.len() == n,
                forall|j: int| 0 <= j < n ==> #[trigger] bytes@[j] == text@[j] as u8,
                forall|j: int| 0 <= j < n ==> '\0' <= #[trigger] text@[j] <= '\u{7f}',
                forall|j: int| 0 <= j < digits@.len() ==> #[trigger] digits@[j] < 10,
                match point {
                    None => {
                        &&& digits@.len() == i
                        &&& forall|j: int|
                            0 <= j < i ==> #[trigger] text@[j] == digit_char(digits@[j] as nat)
                    },
                    Some(k) => {
                        &&& 0 < k < i
                        &&& digits@.len() == i - 1
                        &&& text@[k as int] == '.'
                        &&& forall|j: int|
                            0 <= j < k ==> #[trigger] text@[j] == digit_char(digits@[j] as nat)
                        &&& forall|j: int|
                            k < j < i ==> #[trigger] text@[j] == digit_char(digits@[j - 1] as nat)
                    },
                },
            decreases n - i,
        {
            let b: u8 = bytes[i];
            if b == 46 {
                if point.is_some() || i == 0 {
                    proof {
                        lemma_decimal_text_shape(text@);
                        assert(text@[i as int] == '.');
                        if i == 0 {
                            assert(!is_digit(text@[0]));
                        }
                    }
                    return None;
                }
                point = Some(i);
            } else if 48 <= b && b <= 57 {
                proof {
                    lemma_digit_char((b - 48) as nat);
                }
                digits.push(b - 48);
            } else {
                proof {
                    lemma_decimal_text_shape(text@);
                    assert(!is_digit(text@[i as int]) && text@[i as int] != '.');
                }
                return None;
            }
            i += 1;
        }
        proof {
            lemma_decimal_text_shape(text@);
            assert forall|j: int| 0 <= j < digits@.len() implies is_digit(
                #[trigger] digit_char(digits@[j] as nat),
            ) by {
                lemma_digit_char(digits@[j] as nat);
            }
        }
        match point {
            None => {
                if n == 0 {
                    return None;
                }
                assert(text@ =~= decimal_text(digits@, 0));
                Some(Amount { digits, scale: 0 })
            },
            Some(k) => {
                if k + 1 == n {
                    proof {
                        assert(!is_digit(text@[n - 1]));
                    }
                    return None;
                }
                assert(text@ =~= decimal_text(digits@, (n - 1 - k) as nat));
                Some(Amount { digits, scale: n - 1 - k })
            },
        }
    }

    /// The amount as text: the digits, with a point before the last `scale`
    /// of them where there are any.
    pub fn to_text(&self) -> (text: String)
        ensures
            text@ == self.text(),
            is_decimal_text(text@),
    {
        proof {
            use_type_invariant(self);
            lemma_decimal_text_is_decimal(self.digits@, self.scale as nat);
            reveal_strlit(".");
        }
        let n: usize = self.digits.len();
        let whole: usize = n - self.scale;
        let mut text = String::new();
        let mut i: usize = 0;
        while i < n
            invariant
                i <= n,
                n == self.digits@.len(),
                whole == n - self.scale,
                well_formed(self.digits@, self.scale as nat),
                "."@ == seq!['.'],
                text@ == self.text().take(if i <= whole { i as int } else { i + 1 }),
            decreases n - i,
        {
            if i == whole {
                text.append(".");
            }
            push_digit(&mut text, self.digits[i]);
            i += 1;
            assert(text@ =~= self.text().take(if i <= whole { i as int } else { i + 1 }));
        }
        assert(text@ =~= self.text());
        text
    }

    /// Whether the amount is zero.
    pub fn is_zero(&self) -> (zero: bool)
        ensures
            zero == (self.mantissa() == 0),
    {
        proof {
            use_type_invariant(self);
        }
        let n: usize = self.digits.len();
        let mut i: usize = 0;
        while i < n
            invariant
                i <= n,
                n == self.digits@.len(),
                forall|j: int| 0 <= j < i ==> #[trigger] self.digits@[j] == 0,
            decreases n - i,
        {
            if self.digits[i] != 0 {
                proof {
                    lemma_digits_value_zero(self.digits@);
                }
                return false;
            }
            i += 1;
        }
        proof {
            lemma_digits_value_zero(self.digits@);
        }
        true
    }

    /// The text of this amount divided by `divisor`.
    pub fn quotient(&self, divisor: &Amount) -> (quotient: String)
        requires
            divisor.mantissa() != 0,
        ensures
            quotient@ == quotient_text(self.text(), divisor.text()),
    {
        proof {
            use_type_invariant(divisor);
            lemma_zero_text(divisor.digits@, divisor.scale as nat);
        }
        let numerator = self.to_text();
        let denominator = divisor.to_text();
        decimal_quotient(numerator.as_str(), denominator.as_str())
    }

    /// What `wf` says, over the digits and the scale.
    pub proof fn lemma_wf(&self)
        ensures
            self.wf() <==> well_formed(self.digits(), self.scale()),
    {
    }
}

impl Clone for Amount {
    fn clone(&self) -> (copy: Amount)
        ensures
            copy.digits() == self.digits(),
            copy.scale() == self.scale(),
    {
        proof {
            use_type_invariant(self);
        }
        let digits = self.digits.clone();
        assert(digits@ =~= self.digits@);
        Amount { digits, scale: self.scale }
    }
}

} // verus!
