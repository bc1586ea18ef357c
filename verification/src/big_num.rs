//! Token amounts of any size, held as their decimal digits.

use vstd::prelude::*;

use crate::text::{decimal, decimal_digit};

verus! {

/// The number that the digit values `digits` stand for, most significant first.
pub open spec fn digits_value(digits: Seq<u8>) -> nat
    decreases digits.len(),
{
    if digits.len() == 0 {
        0
    } else {
        digits_value(digits.drop_last()) * 10 + digits.last() as nat
    }
}

/// At least one digit, each below 10, and no leading zero but in `0` itself.
pub open spec fn canonical_digits(digits: Seq<u8>) -> bool {
    &&& digits.len() >= 1
    &&& forall|i: int| 0 <= i < digits.len() ==> digits[i] < 10
    &&& digits.len() > 1 ==> digits[0] != 0
}

/// The digit values of the decimal text of `n`, without leading zeros.
pub open spec fn decimal_digits(n: nat) -> Seq<u8>
    decreases n,
{
    if n < 10 {
        seq![n as u8]
    } else {
        decimal_digits(n / 10).push((n % 10) as u8)
    }
}

/// Whether `text` is one or more decimal digits and nothing else.
pub open spec fn is_decimal_text(text: Seq<char>) -> bool {
    &&& text.len() >= 1
    &&& forall|i: int| 0 <= i < text.len() ==> 48 <= #[trigger] (text[i] as int) <= 57
}

/// The number that decimal text stands for (leading zeros allowed).
pub open spec fn decimal_text_value(text: Seq<char>) -> nat
    decreases text.len(),
{
    if text.len() == 0 {
        0
    } else {
        decimal_text_value(text.drop_last()) * 10 + (text.last() as int - 48) as nat
    }
}

proof fn lemma_decimal_digits(n: nat)
    ensures
        canonical_digits(decimal_digits(n)),
        digits_value(decimal_digits(n)) == n,
        n >= 1 ==> decimal_digits(n)[0] != 0,
        decimal(n) == decimal_digits(n).map_values(|d: u8| decimal_digit(d as int)),
    decreases n,
{
    if n >= 10 {
        lemma_decimal_digits(n / 10);
        let s = decimal_digits(n);
        let t = decimal_digits(n / 10);
        assert(s.drop_last() =~= t);
        assert(s[0] == t[0]);
        assert(s.last() == (n % 10) as u8);
        assert(digits_value(s) == digits_value(t) * 10 + s.last() as nat);
        assert(s.last() as nat == n % 10);
        assert(decimal(n) =~= s.map_values(|d: u8| decimal_digit(d as int)));
    } else {
        let s = decimal_digits(n);
        assert(s =~= seq![n as u8]);
        assert(s.drop_last() =~= Seq::<u8>::empty());
        assert(digits_value(s) == digits_value(s.drop_last()) * 10 + s.last() as nat);
        assert(s.last() as nat == n);
        assert(decimal(n) =~= decimal_digits(n).map_values(|d: u8| decimal_digit(d as int)));
    }
}

/// The decimal text of every number is decimal text, and reads back as the
/// number: `parse` of the text that `to_string` gives returns the amount.
pub proof fn lemma_decimal_text_roundtrip(n: nat)
    ensures
        is_decimal_text(decimal(n)),
        decimal_text_value(decimal(n)) == n,
    decreases n,
{
    let text = decimal(n);
    if n >= 10 {
        lemma_decimal_text_roundtrip(n / 10);
        assert(text.drop_last() =~= decimal(n / 10));
        assert(text.last() as int == n % 10 + 48);
        assert(decimal_text_value(text) == decimal_text_value(text.drop_last()) * 10 + (
        text.last() as int - 48) as nat);
        assert forall|i: int| 0 <= i < text.len() implies 48 <= #[trigger] (text[i] as int) <= 57 by {
            if i < text.len() - 1 {
                assert(text[i] == decimal(n / 10)[i]);
            }
        }
    } else {
        assert(text =~= seq![decimal_digit(n as int)]);
        assert(text.drop_last() =~= Seq::<char>::empty());
        assert(text.last() as int == n + 48);
        assert(decimal_text_value(text) == decimal_text_value(text.drop_last()) * 10 + (
        text.last() as int - 48) as nat);
    }
}

proof fn lemma_leading_digit(digits: Seq<u8>)
    requires
        digits.len() >= 1,
        digits[0] != 0,
    ensures
        digits_value(digits) >= 1,
    decreases digits.len(),
{
    if digits.len() > 1 {
        assert(digits.drop_last()[0] == digits[0]);
        lemma_leading_digit(digits.drop_last());
    }
}

proof fn lemma_canonical_is_decimal(digits: Seq<u8>)
    requires
        canonical_digits(digits),
    ensures
        digits == decimal_digits(digits_value(digits)),
    decreases digits.len(),
{
    if digits.len() > 1 {
        let t = digits.drop_last();
        assert(t[0] == digits[0]);
        lemma_leading_digit(t);
        lemma_canonical_is_decimal(t);
        let v = digits_value(digits);
        assert(v / 10 == digits_value(t));
        assert(v % 10 == digits.last());
        assert(digits =~= decimal_digits(v));
    } else {
        assert(digits.drop_last() =~= Seq::<u8>::empty());
        let d = digits[0];
        assert(digits_value(digits) == digits_value(digits.drop_last()) * 10 + digits.last() as nat);
        assert(digits_value(digits) == d as nat);
        assert(d < 10);
        assert(decimal_digits(d as nat) == seq![(d as nat) as u8]);
        assert(digits =~= decimal_digits(digits_value(digits)));
    }
}

fn push_digits(out: &mut Vec<u8>, n: u64)
    ensures
        final(out)@ == old(out)@ + decimal_digits(n as nat),
    decreases n,
{
    if n >= 10 {
        push_digits(out, n / 10);
    }
    out.push((n % 10) as u8);
    proof {
        if n >= 10 {
            assert(old(out)@ + decimal_digits(n as nat) =~= old(out)@ + decimal_digits(
                (n / 10) as nat,
            ) + seq![(n % 10) as u8]);
        } else {
            assert(decimal_digits(n as nat) =~= seq![(n % 10) as u8]);
        }
    }
}

fn digit_of(c: char) -> (d: Option<u8>)
    ensures
        d is Some <==> 48 <= c as int <= 57,
        d matches Some(v) ==> v == c as int - 48,
{
    match c {
        '0' => Some(0),
        '1' => Some(1),
        '2' => Some(2),
        '3' => Some(3),
        '4' => Some(4),
        '5' => Some(5),
        '6' => Some(6),
        '7' => Some(7),
        '8' => Some(8),
        '9' => Some(9),
        _ => None,
    }
}

fn digit_char(d: u8) -> (c: char)
    requires
        d < 10,
    ensures
        c == decimal_digit(d as int),
{
    match d {
        0 => '0',
        1 => '1',
        2 => '2',
        3 => '3',
        4 => '4',
        5 => '5',
        6 => '6',
        7 => '7',
        8 => '8',
        _ => '9',
    }
}

/// An amount of tokens of any size, in the token's smallest unit.
#[derive(Debug, PartialEq, Eq, Hash)]
pub struct BigNum {
    digits: Vec<u8>,
}

impl Clone for BigNum {
    fn clone(&self) -> (copy: Self)
        ensures
            copy.value() == self.value(),
    {
        proof {
            use_type_invariant(self);
        }
        let digits = self.digits.clone();
        assert(digits@ =~= self.digits@);
        BigNum { digits }
    }
}

impl BigNum {
    /// The digits are decimal, with no leading zero.
    #[verifier::type_invariant]
    spec fn canonical(self) -> bool {
        canonical_digits(self.digits@)
    }

    /// The amount.
    pub closed spec fn value(self) -> nat {
        digits_value(self.digits@)
    }

    /// The amount `n`.
    pub fn from_u64(n: u64) -> (amount: BigNum)
        ensures
            amount.value() == n,
    {
        let mut digits: Vec<u8> = Vec::new();
        push_digits(&mut digits, n);
        proof {
            assert(digits@ =~= decimal_digits(n as nat));
            lemma_decimal_digits(n as nat);
        }
        BigNum { digits }
    }

    /// Reads an amount from decimal text: one or more digits and nothing
    /// else, leading zeros allowed.
    pub fn parse(text: &str) -> (amount: Option<BigNum>)
        ensures
            amount is Some <==> is_decimal_text(text@),
            amount matches Some(a) ==> a.value() == decimal_text_value(text@),
    {
        let n = text.unicode_len();
        let mut digits: Vec<u8> = Vec::new();
        let mut i: usize = 0;
        while i < n
            invariant
                0 <= i <= n,
                n == text@.len(),
                forall|j: int| 0 <= j < i ==> 48 <= #[trigger] (text@[j] as int) <= 57,
                digits@.len() == 0 || canonical_digits(digits@),
                digits@.len() > 0 ==> digits@[0] != 0,
                digits_value(digits@) == decimal_text_value(text@.take(i as int)),
            decreases n - i,
        {
            let c = text.get_char(i);
            let d = match digit_of(c) {
                Some(d) => d,
                None => {
                    return None;
                },
            };
            let ghost before = digits@;
            if digits.len() > 0 || d != 0 {
                digits.push(d);
                assert(digits@.drop_last() =~= before);
            }
            i = i + 1;
            assert(text@.take(i as int).drop_last() =~= text@.take(i - 1));
        }
        assert(text@.take(n as int) =~= text@);
        if n == 0 {
            return None;
        }
        if digits.len() == 0 {
            digits.push(0);
            assert(digits_value(digits@) == digits_value(digits@.drop_last()) * 10 + 0);
            assert(digits@.drop_last() =~= Seq::<u8>::empty());
        }
        Some(BigNum { digits })
    }

    /// The decimal text of the amount, without leading zeros.
    pub fn to_string(&self) -> (text: String)
        ensures
            text@ == decimal(self.value()),
    {
        proof {
            use_type_invariant(self);
            lemma_canonical_is_decimal(self.digits@);
            lemma_decimal_digits(self.value());
        }
        let ghost chars = self.digits@.map_values(|d: u8| decimal_digit(d as int));
        let mut text = String::new();
        let mut i: usize = 0;
        while i < self.digits.len()
            invariant
                0 <= i <= self.digits@.len(),
                canonical_digits(self.digits@),
                chars == self.digits@.map_values(|d: u8| decimal_digit(d as int)),
                text@ == chars.take(i as int),
            decreases self.digits@.len() - i,
        {
            text.push(digit_char(self.digits[i]));
            i = i + 1;
            assert(text@ =~= chars.take(i as int));
        }
        assert(chars.take(self.digits@.len() as int) =~= chars);
        text
    }
}

} // verus!
