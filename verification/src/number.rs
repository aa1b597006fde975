//! The notation of floating-point numbers.
use vstd::prelude::*;

use crate::text::{count_leading, leading, Class};

verus! {

/// The lower case letter of an ASCII letter; any other character is its own.
pub open spec fn lower(c: char) -> char {
    if 'A' <= c <= 'Z' {
        (c as u32 + 32) as char
    } else {
        c
    }
}

/// Whether `s` spells `word`, whatever the case of its ASCII letters.
pub open spec fn spells(s: Seq<char>, word: Seq<char>) -> bool {
    s.len() == word.len() && forall|i: int| 0 <= i < s.len() ==> lower(#[trigger] s[i]) == word[i]
}

pub open spec fn is_sign(c: char) -> bool {
    c == '+' || c == '-'
}

/// `s` without the sign that it starts with, if it starts with one.
pub open spec fn unsigned(s: Seq<char>) -> Seq<char> {
    if s.len() > 0 && is_sign(s[0]) {
        s.skip(1)
    } else {
        s
    }
}

/// How many characters the digits and the point take up at the start of `s`.
pub open spec fn mantissa_length(s: Seq<char>) -> nat {
    let whole = leading(s, Class::Digit);
    if whole < s.len() && s[whole as int] == '.' {
        whole + 1 + leading(s.skip(whole as int + 1), Class::Digit)
    } else {
        whole
    }
}

/// Whether `s` starts with at least one digit, with or without a point before, among or after
/// the digits.
pub open spec fn has_mantissa(s: Seq<char>) -> bool {
    let whole = leading(s, Class::Digit);
    whole > 0 || (whole < s.len() && s[whole as int] == '.' && leading(
        s.skip(whole as int + 1),
        Class::Digit,
    ) > 0)
}

/// Whether `s` is the letter e, maybe a sign, and then digits, at least one.
pub open spec fn is_exponent(s: Seq<char>) -> bool {
    &&& s.len() > 0
    &&& lower(s[0]) == 'e'
    &&& unsigned(s.skip(1)).len() > 0
    &&& leading(unsigned(s.skip(1)), Class::Digit) == unsigned(s.skip(1)).len()
}

/// Whether `s` is digits with at most one point, and maybe an exponent.
pub open spec fn is_decimal(s: Seq<char>) -> bool {
    let rest = s.skip(mantissa_length(s) as int);
    has_mantissa(s) && (rest.len() == 0 || is_exponent(rest))
}

/// Whether `s` denotes a floating-point number: maybe a sign, and then a decimal number,
/// infinity, or no number.
pub open spec fn is_float(s: Seq<char>) -> bool {
    let rest = unsigned(s);
    ||| spells(rest, seq!['i', 'n', 'f'])
    ||| spells(rest, seq!['i', 'n', 'f', 'i', 'n', 'i', 't', 'y'])
    ||| spells(rest, seq!['n', 'a', 'n'])
    ||| is_decimal(rest)
}

fn to_lower(c: char) -> (l: char)
    ensures
        l == lower(c),
{
    if 'A' <= c && c <= 'Z' {
        (c as u8 + 32) as char
    } else {
        c
    }
}

/// Whether `chars[from..to]` spells `word`, whatever the case of its ASCII letters.
fn check_spells(chars: &[char], from: usize, to: usize, word: &[char]) -> (yes: bool)
    requires
        from <= to <= chars@.len(),
    ensures
        yes == spells(chars@.subrange(from as int, to as int), word@),
{
    let ghost s = chars@.subrange(from as int, to as int);
    if to - from != word.len() {
        return false;
    }
    let mut i: usize = 0;
    while i < word.len()
        invariant
            from <= to <= chars@.len(),
            s == chars@.subrange(from as int, to as int),
            s.len() == word@.len(),
            i <= word@.len(),
            forall|j: int| 0 <= j < i ==> lower(#[trigger] s[j]) == word@[j],
        decreases word@.len() - i,
    {
        assert(s[i as int] == chars@[from + i]);
        if to_lower(chars[from + i]) != word[i] {
            return false;
        }
        i += 1;
    }
    true
}

/// Skips the sign that `chars[from..to]` starts with, if it starts with one.
fn skip_sign(chars: &[char], from: usize, to: usize) -> (at: usize)
    requires
        from <= to <= chars@.len(),
    ensures
        from <= at <= to,
        chars@.subrange(at as int, to as int) == unsigned(
            chars@.subrange(from as int, to as int),
        ),
{
    let ghost s = chars@.subrange(from as int, to as int);
    if from < to && (chars[from] == '+' || chars[from] == '-') {
        assert(s[0] == chars@[from as int]);
        assert(s.skip(1) =~= chars@.subrange(from + 1, to as int));
        from + 1
    } else {
        if from < to {
            assert(s[0] == chars@[from as int]);
        }
        from
    }
}

/// Whether `chars[from..to]` is an exponent.
fn check_exponent(chars: &[char], from: usize, to: usize) -> (yes: bool)
    requires
        from <= to <= chars@.len(),
    ensures
        yes == is_exponent(chars@.subrange(from as int, to as int)),
{
    let ghost s = chars@.subrange(from as int, to as int);
    if from == to {
        return false;
    }
    assert(s[0] == chars@[from as int]);
    if to_lower(chars[from]) != 'e' {
        return false;
    }
    assert(s.skip(1) =~= chars@.subrange(from + 1, to as int));
    let at = skip_sign(chars, from + 1, to);
    at < to && count_leading(chars, at, to, Class::Digit) == to - at
}

/// Whether `chars[from..to]` is a decimal number.
fn check_decimal(chars: &[char], from: usize, to: usize) -> (yes: bool)
    requires
        from <= to <= chars@.len(),
    ensures
        yes == is_decimal(chars@.subrange(from as int, to as int)),
{
    let ghost s = chars@.subrange(from as int, to as int);
    let whole = count_leading(chars, from, to, Class::Digit);
    let point = from + whole;
    let mut end = point;
    let mut digits = whole > 0;
    if point < to {
        assert(s[whole as int] == chars@[point as int]);
        if chars[point] == '.' {
            assert(s.skip(whole + 1) =~= chars@.subrange(point + 1, to as int));
            let fraction = count_leading(chars, point + 1, to, Class::Digit);
            end = point + 1 + fraction;
            digits = digits || fraction > 0;
        }
    }
    assert(s.skip(mantissa_length(s) as int) =~= chars@.subrange(end as int, to as int));
    digits && (end == to || check_exponent(chars, end, to))
}

/// Whether `chars[from..to]` denotes a floating-point number.
pub fn check_float(chars: &[char], from: usize, to: usize) -> (yes: bool)
    requires
        from <= to <= chars@.len(),
    ensures
        yes == is_float(chars@.subrange(from as int, to as int)),
{
    let at = skip_sign(chars, from, to);
    let inf = ['i', 'n', 'f'];
    let infinity = ['i', 'n', 'f', 'i', 'n', 'i', 't', 'y'];
    let nan = ['n', 'a', 'n'];
    assert(inf@ =~= seq!['i', 'n', 'f']);
    assert(infinity@ =~= seq!['i', 'n', 'f', 'i', 'n', 'i', 't', 'y']);
    assert(nan@ =~= seq!['n', 'a', 'n']);
    check_spells(chars, at, to, &inf) || check_spells(chars, at, to, &infinity) || check_spells(
        chars,
        at,
        to,
        &nan,
    ) || check_decimal(chars, at, to)
}

} // verus!
