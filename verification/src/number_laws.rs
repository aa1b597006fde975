//! What denotes a number, said by how numbers are put together.
use vstd::prelude::*;

use crate::number::{
    has_mantissa, is_decimal, is_exponent, is_float, is_sign, lower, mantissa_length, spells,
    unsigned,
};
use crate::text::{leading, lemma_leading, lemma_leading_is, Class};

verus! {

/// Whether `s` is nothing but decimal digits.
pub open spec fn all_digits(s: Seq<char>) -> bool {
    forall|i: int| 0 <= i < s.len() ==> '0' <= #[trigger] s[i] <= '9'
}

/// Whether `s` is a sign or nothing.
pub open spec fn is_sign_or_nothing(s: Seq<char>) -> bool {
    s.len() == 0 || (s.len() == 1 && (s[0] == '+' || s[0] == '-'))
}

/// A decimal number: maybe a sign, digits, maybe a point and digits behind it, and maybe the letter
/// e with an exponent. Nothing limits how many digits there are.
pub struct Numeral {
    pub sign: Seq<char>,
    pub whole: Seq<char>,
    pub point: bool,
    pub fraction: Seq<char>,
    pub scaled: bool,
    pub letter: char,
    pub exponent_sign: Seq<char>,
    pub exponent: Seq<char>,
}

impl Numeral {
    /// The digits are digits, there is one at least in front of the exponent, one at least in the
    /// exponent if there is one, and none behind a point that is not there.
    pub open spec fn wf(self) -> bool {
        &&& is_sign_or_nothing(self.sign)
        &&& all_digits(self.whole)
        &&& all_digits(self.fraction)
        &&& self.whole.len() + self.fraction.len() > 0
        &&& !self.point ==> self.fraction.len() == 0
        &&& self.scaled ==> {
            &&& self.letter == 'e' || self.letter == 'E'
            &&& is_sign_or_nothing(self.exponent_sign)
            &&& all_digits(self.exponent)
            &&& self.exponent.len() > 0
        }
    }

    /// The exponent as it is written.
    pub open spec fn exponent_text(self) -> Seq<char> {
        if self.scaled {
            seq![self.letter] + (self.exponent_sign + self.exponent)
        } else {
            seq![]
        }
    }

    /// The number without its sign as it is written.
    pub open spec fn body(self) -> Seq<char> {
        if self.point {
            self.whole + (seq!['.'] + (self.fraction + self.exponent_text()))
        } else {
            self.whole + self.exponent_text()
        }
    }

    /// The number as it is written.
    pub open spec fn text(self) -> Seq<char> {
        self.sign + self.body()
    }
}

/// Whether `s` is a decimal number.
pub open spec fn is_numeral(s: Seq<char>) -> bool {
    exists|numeral: Numeral| #[trigger] numeral.wf() && numeral.text() == s
}

/// Whether each letter of `s` is the one of `small` or the one of `large`.
pub open spec fn is_word(s: Seq<char>, small: Seq<char>, large: Seq<char>) -> bool {
    s.len() == small.len() && forall|i: int|
        0 <= i < s.len() ==> #[trigger] s[i] == small[i] || s[i] == large[i]
}

/// Whether `s` is one of the three words for what is no decimal number, in letters of any case.
pub open spec fn is_special_word(s: Seq<char>) -> bool {
    ||| is_word(s, seq!['i', 'n', 'f'], seq!['I', 'N', 'F'])
    ||| is_word(
        s,
        seq!['i', 'n', 'f', 'i', 'n', 'i', 't', 'y'],
        seq!['I', 'N', 'F', 'I', 'N', 'I', 'T', 'Y'],
    )
    ||| is_word(s, seq!['n', 'a', 'n'], seq!['N', 'A', 'N'])
}

/// Whether `s` is such a word behind a sign or nothing.
pub open spec fn is_special(s: Seq<char>) -> bool {
    ||| is_special_word(s)
    ||| s.len() > 0 && (s[0] == '+' || s[0] == '-') && is_special_word(s.skip(1))
}

proof fn lemma_digits(s: Seq<char>, rest: Seq<char>)
    requires
        all_digits(s),
        rest.len() > 0 ==> !('0' <= rest[0] <= '9'),
    ensures
        leading(s + rest, Class::Digit) == s.len(),
        (s + rest).skip(s.len() as int) == rest,
{
    let all = s + rest;
    assert forall|i: int| 0 <= i < s.len() implies Class::Digit.has(#[trigger] all[i]) by {
        assert(all[i] == s[i]);
    }
    if rest.len() > 0 {
        assert(all[s.len() as int] == rest[0]);
    }
    lemma_leading_is(all, Class::Digit, s.len() as int);
    assert(all.skip(s.len() as int) =~= rest);
}

proof fn lemma_unsigned(sign: Seq<char>, body: Seq<char>)
    requires
        is_sign_or_nothing(sign),
        body.len() > 0,
        !(body[0] == '+' || body[0] == '-'),
    ensures
        unsigned(sign + body) == body,
{
    let all = sign + body;
    if sign.len() == 0 {
        assert(all =~= body);
    } else {
        assert(all[0] == sign[0]);
        assert(all.skip(1) =~= body);
    }
}

/// Every decimal number denotes a number: a run of digits of any length, with or without a sign in
/// front, with or without a point and a run of digits of any length behind it, and with or without
/// an exponent.
pub proof fn law_numerals_are_numbers(numeral: Numeral)
    requires
        numeral.wf(),
    ensures
        is_float(numeral.text()),
{
    let body = numeral.body();
    let tail = numeral.exponent_text();
    let whole = numeral.whole;
    if numeral.scaled {
        let digits = numeral.exponent;
        lemma_digits(digits, seq![]);
        assert(digits + seq![] =~= digits);
        assert(tail.skip(1) =~= numeral.exponent_sign + digits);
        lemma_unsigned(numeral.exponent_sign, digits);
        assert(lower(tail[0]) == 'e');
        assert(is_exponent(tail));
    }
    if numeral.point {
        let behind = numeral.fraction + tail;
        lemma_digits(whole, seq!['.'] + behind);
        lemma_digits(numeral.fraction, tail);
        assert(body[whole.len() as int] == '.');
        assert(body.skip(whole.len() as int + 1) =~= behind);
        assert(mantissa_length(body) == whole.len() + 1 + numeral.fraction.len());
        assert(body.skip(mantissa_length(body) as int) =~= tail);
    } else {
        lemma_digits(whole, tail);
        if tail.len() > 0 {
            assert(body[whole.len() as int] == tail[0]);
        }
        assert(mantissa_length(body) == whole.len());
    }
    assert(is_decimal(body));
    if whole.len() > 0 {
        assert(body[0] == whole[0]);
    } else {
        assert(body[0] == '.');
    }
    lemma_unsigned(numeral.sign, body);
}

proof fn lemma_lower(c: char, small: char, large: char)
    requires
        'a' <= small <= 'z',
        small as u32 == large as u32 + 32,
    ensures
        lower(c) == small <==> c == small || c == large,
{
}

proof fn lemma_spelled(s: Seq<char>, small: Seq<char>, large: Seq<char>)
    requires
        small.len() == large.len(),
        forall|i: int| 0 <= i < small.len() ==> 'a' <= #[trigger] small[i] <= 'z',
        forall|i: int|
            0 <= i < small.len() ==> (#[trigger] small[i]) as u32 == large[i] as u32 + 32,
    ensures
        spells(s, small) <==> is_word(s, small, large),
{
    if s.len() == small.len() {
        assert forall|i: int| 0 <= i < s.len() implies (lower(#[trigger] s[i]) == small[i] <==> s[i]
            == small[i] || s[i] == large[i]) by {
            lemma_lower(s[i], small[i], large[i]);
        }
    }
}

proof fn lemma_special(s: Seq<char>)
    ensures
        is_special_word(s) <==> {
            ||| spells(s, seq!['i', 'n', 'f'])
            ||| spells(s, seq!['i', 'n', 'f', 'i', 'n', 'i', 't', 'y'])
            ||| spells(s, seq!['n', 'a', 'n'])
        },
        is_special_word(s) ==> s.len() > 0 && !is_sign(s[0]),
{
    lemma_spelled(s, seq!['i', 'n', 'f'], seq!['I', 'N', 'F']);
    lemma_spelled(
        s,
        seq!['i', 'n', 'f', 'i', 'n', 'i', 't', 'y'],
        seq!['I', 'N', 'F', 'I', 'N', 'I', 'T', 'Y'],
    );
    lemma_spelled(s, seq!['n', 'a', 'n'], seq!['N', 'A', 'N']);
    if is_special_word(s) {
        assert(s[0] == 'i' || s[0] == 'I' || s[0] == 'n' || s[0] == 'N');
    }
}

/// The sign of `s` or nothing.
spec fn sign_of(s: Seq<char>) -> Seq<char> {
    if s.len() > 0 && is_sign(s[0]) {
        s.take(1)
    } else {
        seq![]
    }
}

proof fn lemma_sign_of(s: Seq<char>)
    ensures
        is_sign_or_nothing(sign_of(s)),
        s == sign_of(s) + unsigned(s),
{
    assert(s =~= sign_of(s) + unsigned(s));
}

proof fn lemma_taken_digits(s: Seq<char>, count: int)
    requires
        0 <= count <= leading(s, Class::Digit),
    ensures
        count <= s.len(),
        all_digits(s.take(count)),
{
    lemma_leading(s, Class::Digit);
    assert forall|i: int| 0 <= i < s.take(count).len() implies '0' <= #[trigger] s.take(count)[i]
        <= '9' by {
        assert(Class::Digit.has(s[i]));
    }
}

/// What denotes a decimal number is one.
proof fn lemma_decimal_is_numeral(s: Seq<char>)
    requires
        is_decimal(unsigned(s)),
    ensures
        is_numeral(s),
{
    let body = unsigned(s);
    let count = leading(body, Class::Digit) as int;
    lemma_leading(body, Class::Digit);
    let whole = body.take(count);
    lemma_taken_digits(body, count);
    let point = count < body.len() && body[count] == '.';
    let behind = body.skip(count + 1);
    lemma_leading(behind, Class::Digit);
    let places = leading(behind, Class::Digit) as int;
    let fraction = if point {
        behind.take(places)
    } else {
        seq![]
    };
    if point {
        lemma_taken_digits(behind, places);
    }
    let tail = body.skip(mantissa_length(body) as int);
    let scaled = tail.len() > 0;
    let signed = tail.skip(1);
    let numeral = Numeral {
        sign: sign_of(s),
        whole,
        point,
        fraction,
        scaled,
        letter: if scaled {
            tail[0]
        } else {
            'e'
        },
        exponent_sign: sign_of(signed),
        exponent: unsigned(signed),
    };
    lemma_sign_of(s);
    lemma_sign_of(signed);
    if scaled {
        lemma_lower(tail[0], 'e', 'E');
        let digits = unsigned(signed);
        lemma_taken_digits(digits, digits.len() as int);
        assert(digits.take(digits.len() as int) =~= digits);
        assert(tail =~= seq![tail[0]] + signed);
    }
    assert(numeral.exponent_text() =~= tail);
    if point {
        assert(behind =~= fraction + tail);
        assert(body =~= whole + (seq!['.'] + behind));
    } else {
        assert(body =~= whole + tail);
    }
    assert(has_mantissa(body));
    assert(numeral.wf());
    assert(numeral.text() == s);
}

/// What denotes a number is exactly the decimal numbers, infinity and what is called no number.
pub proof fn law_numbers_are_numerals(s: Seq<char>)
    ensures
        is_float(s) <==> is_numeral(s) || is_special(s),
{
    let body = unsigned(s);
    lemma_special(s);
    lemma_special(body);
    if s.len() > 0 {
        lemma_special(s.skip(1));
    }
    if is_decimal(body) {
        lemma_decimal_is_numeral(s);
    }
    if is_numeral(s) {
        let numeral = choose|numeral: Numeral| #[trigger] numeral.wf() && numeral.text() == s;
        law_numerals_are_numbers(numeral);
    }
}

} // verus!
