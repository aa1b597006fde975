//! What holds of reading the output of the colorimeter program.
use vstd::prelude::*;

use crate::number::{
    is_decimal, is_exponent, is_float, is_sign, lower, mantissa_length, spells, unsigned,
};
use crate::spotread::{first_result, result_prefix, text_result, values, MeterError, Tristimulus};
use crate::text::{
    is_space, leading, lemma_leading, lemma_leading_is, lemma_trim_end, lemma_trim_end_is, lines,
    trim, trim_end, trim_start, words, Class,
};

verus! {

/// Text in front that ends in a newline adds its lines in front.
pub proof fn law_lines_of_joined_text(before: Seq<char>, after: Seq<char>)
    requires
        before.len() == 0 || before.last() == '\n',
    ensures
        lines(before + after) == lines(before) + lines(after),
    decreases before.len(),
{
    let whole = before + after;
    if before.len() == 0 {
        assert(whole =~= after);
        assert(lines(before) + lines(after) =~= lines(after));
    } else {
        lemma_leading(before, Class::InLine);
        let length = leading(before, Class::InLine) as int;
        assert(length < before.len()) by {
            if length == before.len() {
                assert(Class::InLine.has(before[before.len() - 1]));
            }
        }
        assert forall|i: int| 0 <= i < length implies Class::InLine.has(#[trigger] whole[i]) by {
            assert(whole[i] == before[i]);
        }
        assert(whole[length] == before[length]);
        lemma_leading_is(whole, Class::InLine, length);
        let rest = before.skip(length + 1);
        assert(whole.take(length) =~= before.take(length));
        assert(whole.skip(length + 1) =~= rest + after);
        if rest.len() > 0 {
            assert(rest.last() == before.last());
        }
        law_lines_of_joined_text(rest, after);
        assert(seq![before.take(length)] + (lines(rest) + lines(after)) =~= (seq![
            before.take(length),
        ] + lines(rest)) + lines(after));
    }
}

proof fn lemma_first_result_joined(before: Seq<Seq<char>>, after: Seq<Seq<char>>)
    requires
        first_result(before) is None,
    ensures
        first_result(before + after) == first_result(after),
    decreases before.len(),
{
    if before.len() == 0 {
        assert(before + after =~= after);
    } else {
        assert((before + after)[0] == before[0]);
        assert((before + after).skip(1) =~= before.skip(1) + after);
        lemma_first_result_joined(before.skip(1), after);
    }
}

/// A word in front of white space, or by itself, is the first word.
pub proof fn lemma_first_word(word: Seq<char>, rest: Seq<char>)
    requires
        word.len() > 0,
        forall|i: int| 0 <= i < word.len() ==> !is_space(#[trigger] word[i]),
        rest.len() > 0 ==> is_space(rest[0]),
    ensures
        words(word + rest) == seq![word] + words(rest),
{
    let s = word + rest;
    assert(s[0] == word[0]);
    lemma_leading_is(s, Class::Space, 0);
    assert(s.skip(0) =~= s);
    assert forall|i: int| 0 <= i < word.len() implies Class::Ink.has(#[trigger] s[i]) by {
        assert(s[i] == word[i]);
    }
    if rest.len() > 0 {
        assert(s[word.len() as int] == rest[0]);
    }
    lemma_leading_is(s, Class::Ink, word.len() as int);
    assert(s.take(word.len() as int) =~= word);
    assert(s.skip(word.len() as int) =~= rest);
}

/// White space in front makes no difference to the words.
proof fn lemma_space_before_words(s: Seq<char>)
    requires
        s.len() > 0,
        is_space(s[0]),
    ensures
        words(s) == words(s.skip(1)),
{
    let rest = s.skip(1);
    lemma_leading(rest, Class::Space);
    let count = leading(rest, Class::Space) as int;
    assert(s.skip(1 + count) =~= rest.skip(count));
}

/// White space behind makes no difference to the words.
proof fn lemma_space_after_words(s: Seq<char>)
    requires
        s.len() > 0,
        is_space(s.last()),
    ensures
        words(s) == words(s.drop_last()),
    decreases s.len(),
{
    let init = s.drop_last();
    lemma_leading(s, Class::Space);
    let spaces = leading(s, Class::Space) as int;
    if spaces == s.len() {
        assert forall|i: int| 0 <= i < init.len() implies Class::Space.has(#[trigger] init[i]) by {
            assert(init[i] == s[i]);
        }
        lemma_leading_is(init, Class::Space, init.len() as int);
        assert(words(s) =~= seq![]);
        assert(words(init) =~= seq![]);
    } else {
        assert(spaces < init.len());
        assert forall|i: int| 0 <= i < spaces implies Class::Space.has(#[trigger] init[i]) by {
            assert(init[i] == s[i]);
        }
        assert(init[spaces] == s[spaces]);
        lemma_leading_is(init, Class::Space, spaces);
        let rest = s.skip(spaces);
        let rest_init = init.skip(spaces);
        assert(rest_init =~= rest.drop_last());
        assert(rest.last() == s.last());
        lemma_leading(rest, Class::Ink);
        let length = leading(rest, Class::Ink) as int;
        assert(length < rest.len()) by {
            if length == rest.len() {
                assert(Class::Ink.has(rest[rest.len() - 1]));
            }
        }
        assert(rest[0] == s[spaces]);
        assert(length > 0);
        assert forall|i: int| 0 <= i < length implies Class::Ink.has(#[trigger] rest_init[i]) by {
            assert(rest_init[i] == rest[i]);
        }
        if length < rest_init.len() {
            assert(rest_init[length] == rest[length]);
        }
        lemma_leading_is(rest_init, Class::Ink, length);
        assert(rest_init.take(length) =~= rest.take(length));
        let tail = rest.skip(length);
        assert(tail.last() == rest.last());
        assert(tail.drop_last() =~= rest_init.skip(length));
        lemma_space_after_words(tail);
    }
}

/// Trimming makes no difference to the words.
pub proof fn law_trim_keeps_words(s: Seq<char>)
    ensures
        words(trim(s)) == words(s),
{
    lemma_trim_start_keeps_words(s);
    lemma_trim_end_keeps_words(trim_start(s, Class::Space));
}

proof fn lemma_trim_start_keeps_words(s: Seq<char>)
    ensures
        words(trim_start(s, Class::Space)) == words(s),
    decreases s.len(),
{
    if s.len() > 0 && is_space(s[0]) {
        lemma_space_before_words(s);
        lemma_trim_start_keeps_words(s.skip(1));
        lemma_leading(s.skip(1), Class::Space);
        assert(trim_start(s, Class::Space) =~= trim_start(s.skip(1), Class::Space));
    } else {
        assert(trim_start(s, Class::Space) =~= s);
    }
}

proof fn lemma_trim_end_keeps_words(s: Seq<char>)
    ensures
        words(trim_end(s, Class::Space)) == words(s),
    decreases s.len(),
{
    if s.len() > 0 && is_space(s.last()) {
        lemma_space_after_words(s);
        lemma_trim_end_keeps_words(s.drop_last());
    }
}

/// The characters that the notation of a number is made of.
pub open spec fn is_number_char(c: char) -> bool {
    ||| 'a' <= c <= 'z'
    ||| 'A' <= c <= 'Z'
    ||| '0' <= c <= '9'
    ||| c == '.'
    ||| is_sign(c)
}

/// What denotes a number is made of letters, digits, points and signs, at least one of them.
pub proof fn law_number_chars(s: Seq<char>)
    requires
        is_float(s),
    ensures
        s.len() > 0,
        forall|i: int| 0 <= i < s.len() ==> is_number_char(#[trigger] s[i]),
{
    let rest = unsigned(s);
    lemma_unsigned_chars(s);
    if is_decimal(rest) {
        lemma_decimal_chars(rest);
    } else if spells(rest, seq!['i', 'n', 'f']) {
        lemma_spelled_chars(rest, seq!['i', 'n', 'f']);
    } else if spells(rest, seq!['i', 'n', 'f', 'i', 'n', 'i', 't', 'y']) {
        lemma_spelled_chars(rest, seq!['i', 'n', 'f', 'i', 'n', 'i', 't', 'y']);
    } else {
        lemma_spelled_chars(rest, seq!['n', 'a', 'n']);
    }
}

proof fn lemma_unsigned_chars(s: Seq<char>)
    ensures
        (forall|i: int| 0 <= i < unsigned(s).len() ==> is_number_char(#[trigger] unsigned(s)[i]))
            ==> (forall|i: int| 0 <= i < s.len() ==> is_number_char(#[trigger] s[i])),
        unsigned(s).len() <= s.len(),
{
    let rest = unsigned(s);
    if forall|i: int| 0 <= i < rest.len() ==> is_number_char(#[trigger] rest[i]) {
        assert forall|i: int| 0 <= i < s.len() implies is_number_char(#[trigger] s[i]) by {
            if s.len() > 0 && is_sign(s[0]) {
                if i > 0 {
                    assert(rest[i - 1] == s[i]);
                }
            } else {
                assert(rest[i] == s[i]);
            }
        }
    }
}

proof fn lemma_spelled_chars(s: Seq<char>, word: Seq<char>)
    requires
        spells(s, word),
        forall|i: int| 0 <= i < word.len() ==> 'a' <= #[trigger] word[i] <= 'z',
    ensures
        forall|i: int| 0 <= i < s.len() ==> is_number_char(#[trigger] s[i]),
{
    assert forall|i: int| 0 <= i < s.len() implies is_number_char(#[trigger] s[i]) by {
        assert(lower(s[i]) == word[i]);
        assert('a' <= word[i] <= 'z');
    }
}

proof fn lemma_decimal_chars(s: Seq<char>)
    requires
        is_decimal(s),
    ensures
        s.len() > 0,
        forall|i: int| 0 <= i < s.len() ==> is_number_char(#[trigger] s[i]),
{
    let whole = leading(s, Class::Digit) as int;
    let length = mantissa_length(s) as int;
    let rest = s.skip(length);
    lemma_leading(s, Class::Digit);
    let fraction = s.skip(whole + 1);
    lemma_leading(fraction, Class::Digit);
    assert forall|i: int| 0 <= i < s.len() implies is_number_char(#[trigger] s[i]) by {
        if i < whole {
            assert(Class::Digit.has(s[i]));
        } else if i < length {
            if i > whole {
                assert(fraction[i - whole - 1] == s[i]);
                assert(Class::Digit.has(fraction[i - whole - 1]));
            }
        } else {
            assert(is_exponent(rest));
            assert(rest[i - length] == s[i]);
            if i > length {
                let signed = rest.skip(1);
                let digits = unsigned(signed);
                lemma_leading(digits, Class::Digit);
                assert forall|j: int| 0 <= j < digits.len() implies is_number_char(
                    #[trigger] digits[j],
                ) by {
                    assert(Class::Digit.has(digits[j]));
                }
                lemma_unsigned_chars(signed);
                assert(signed[i - length - 1] == s[i]);
            }
        }
    }
}

/// Whether `s` is nothing but white space.
pub open spec fn is_blank(s: Seq<char>) -> bool {
    forall|i: int| 0 <= i < s.len() ==> is_space(#[trigger] s[i])
}

/// A value as it stands on a line: white space, the value, and any number of commas.
pub struct Field {
    pub gap: Seq<char>,
    pub value: Seq<char>,
    pub commas: Seq<char>,
}

impl Field {
    /// The parts are what they are called.
    pub open spec fn wf(self) -> bool {
        &&& is_blank(self.gap)
        &&& is_float(self.value)
        &&& forall|i: int| 0 <= i < self.commas.len() ==> #[trigger] self.commas[i] == ','
    }

    /// The value with its commas.
    pub open spec fn word(self) -> Seq<char> {
        self.value + self.commas
    }
}

/// A line that reports three values.
pub open spec fn result_line(
    indent: Seq<char>,
    x: Field,
    y: Field,
    z: Field,
    tail: Seq<char>,
) -> Seq<char> {
    indent + (result_prefix() + (x.gap + (x.word() + (y.gap + (y.word() + (z.gap + (z.word()
        + tail)))))))
}

/// White space in front, however much, makes no difference to the words.
pub proof fn lemma_blank_before_words(blank: Seq<char>, s: Seq<char>)
    requires
        is_blank(blank),
    ensures
        words(blank + s) == words(s),
    decreases blank.len(),
{
    let whole = blank + s;
    if blank.len() == 0 {
        assert(whole =~= s);
    } else {
        assert(whole[0] == blank[0]);
        lemma_space_before_words(whole);
        assert(whole.skip(1) =~= blank.skip(1) + s);
        assert forall|i: int| 0 <= i < blank.skip(1).len() implies is_space(
            #[trigger] blank.skip(1)[i],
        ) by {
            assert(is_space(blank[i + 1]));
        }
        lemma_blank_before_words(blank.skip(1), s);
    }
}

/// The word of a field is the first one, and its value is the word without the commas.
proof fn lemma_field_word(field: Field, rest: Seq<char>)
    requires
        field.wf(),
        rest.len() > 0 ==> is_space(rest[0]),
    ensures
        words(field.gap + (field.word() + rest)) == seq![field.word()] + words(rest),
        trim_end(field.word(), Class::Comma) == field.value,
        field.word().len() > 0,
        !is_space(field.word()[0]),
{
    law_number_chars(field.value);
    let word = field.word();
    assert forall|i: int| 0 <= i < word.len() implies !is_space(#[trigger] word[i]) by {
        if i < field.value.len() {
            assert(word[i] == field.value[i]);
        } else {
            assert(word[i] == field.commas[i - field.value.len()]);
        }
    }
    lemma_blank_before_words(field.gap, word + rest);
    lemma_first_word(word, rest);
    let kept = field.value.len() as int;
    assert forall|i: int| kept <= i < word.len() implies Class::Comma.has(#[trigger] word[i]) by {
        assert(word[i] == field.commas[i - kept]);
    }
    assert(word[kept - 1] == field.value[kept - 1]);
    lemma_trim_end_is(word, Class::Comma, kept);
    assert(word.take(kept) =~= field.value);
}

/// The prefix makes three words.
pub proof fn lemma_prefix_words(rest: Seq<char>)
    ensures
        words(result_prefix() + rest).len() == 3 + words(rest).len(),
        words(result_prefix() + rest).skip(3) == words(rest),
{
    reveal_strlit("Result is XYZ: ");
    let w0 = seq!['R', 'e', 's', 'u', 'l', 't'];
    let w1 = seq!['i', 's'];
    let w2 = seq!['X', 'Y', 'Z', ':'];
    let s2 = w2 + (seq![' '] + rest);
    let s1 = w1 + (seq![' '] + s2);
    let s0 = w0 + (seq![' '] + s1);
    assert(result_prefix() + rest =~= s0);
    lemma_first_word(w2, seq![' '] + rest);
    lemma_first_word(w1, seq![' '] + s2);
    lemma_first_word(w0, seq![' '] + s1);
    lemma_space_before_words(seq![' '] + rest);
    lemma_space_before_words(seq![' '] + s2);
    lemma_space_before_words(seq![' '] + s1);
    assert((seq![' '] + rest).skip(1) =~= rest);
    assert((seq![' '] + s2).skip(1) =~= s2);
    assert((seq![' '] + s1).skip(1) =~= s1);
    assert(words(s0) =~= seq![w0, w1, w2] + words(rest));
    assert(words(s0).skip(3) =~= words(rest));
}

/// The values of a line that reports three values are those values.
proof fn lemma_result_values(
    indent: Seq<char>,
    x: Field,
    y: Field,
    z: Field,
    tail: Seq<char>,
)
    requires
        is_blank(indent),
        x.wf(),
        y.wf(),
        z.wf(),
        y.gap.len() > 0,
        z.gap.len() > 0,
        tail.len() > 0 ==> is_space(tail[0]),
    ensures
        values(result_line(indent, x, y, z, tail)) == seq![x.value, y.value, z.value],
{
    let from_z = z.gap + (z.word() + tail);
    let from_y = y.gap + (y.word() + from_z);
    let from_x = x.gap + (x.word() + from_y);
    let line = result_line(indent, x, y, z, tail);
    assert(from_z[0] == z.gap[0]);
    assert(from_y[0] == y.gap[0]);
    lemma_field_word(z, tail);
    lemma_field_word(y, from_z);
    lemma_field_word(x, from_y);
    lemma_prefix_words(from_x);
    lemma_blank_before_words(indent, result_prefix() + from_x);
    let found = words(line);
    let rest = found.skip(3);
    assert(rest =~= seq![x.word(), y.word(), z.word()] + words(tail));
    assert(found[3] == rest[0]);
    assert(found[4] == rest[1]);
    assert(found[5] == rest[2]);
    assert(values(line) =~= seq![x.value, y.value, z.value]);
}

/// A stretch of text without newlines, with nothing or a newline behind it, is the first line.
proof fn lemma_first_line(line: Seq<char>, after: Seq<char>)
    requires
        line.len() > 0,
        !line.contains('\n'),
        after.len() == 0 || after[0] == '\n',
    ensures
        lines(line + after).len() > 0,
        lines(line + after)[0] == line,
{
    let rest = line + after;
    assert forall|i: int| 0 <= i < line.len() implies Class::InLine.has(#[trigger] rest[i]) by {
        assert(rest[i] == line[i]);
        assert(line.contains(line[i]));
    }
    if after.len() > 0 {
        assert(rest[line.len() as int] == after[0]);
    }
    lemma_leading_is(rest, Class::InLine, line.len() as int);
    assert(rest.take(line.len() as int) =~= line);
}

/// A line that reports three values starts with the prefix once it is trimmed.
proof fn lemma_trimmed_result_line(
    indent: Seq<char>,
    x: Field,
    y: Field,
    z: Field,
    tail: Seq<char>,
)
    requires
        is_blank(indent),
        x.wf(),
    ensures
        result_line(indent, x, y, z, tail).len() > 0,
        result_prefix().is_prefix_of(trim(result_line(indent, x, y, z, tail))),
{
    let line = result_line(indent, x, y, z, tail);
    reveal_strlit("Result is XYZ: ");
    let margin = indent.len() as int;
    let rest = line.skip(margin);
    law_number_chars(x.value);
    assert(line[margin] == 'R');
    assert forall|i: int| 0 <= i < margin implies Class::Space.has(#[trigger] line[i]) by {
        assert(line[i] == indent[i]);
    }
    lemma_leading_is(line, Class::Space, margin);
    assert(trim_start(line, Class::Space) == rest);
    let start = result_prefix().len() as int;
    let ink = start + x.gap.len();
    assert(rest[ink] == x.value[0]);
    lemma_trim_end(rest, Class::Space);
    let kept = trim_end(rest, Class::Space).len() as int;
    assert(kept > ink) by {
        if kept <= ink {
            assert(Class::Space.has(rest[ink]));
        }
    }
    assert(result_prefix() =~= trim(line).subrange(0, start));
}

/// Three numbers that are reported after the prefix are read as they are written, provided that no
/// earlier line reports a result. It makes no difference how far the line is indented, how much
/// white space stands in front of each number, how many commas stand behind it, what follows
/// after white space on the line, and what comes on later lines.
pub proof fn law_reported_values_are_read(
    before: Seq<char>,
    indent: Seq<char>,
    x: Field,
    y: Field,
    z: Field,
    tail: Seq<char>,
    after: Seq<char>,
)
    requires
        before.len() == 0 || before.last() == '\n',
        first_result(lines(before)) is None,
        is_blank(indent),
        x.wf(),
        y.wf(),
        z.wf(),
        y.gap.len() > 0,
        z.gap.len() > 0,
        tail.len() > 0 ==> is_space(tail[0]),
        !result_line(indent, x, y, z, tail).contains('\n'),
        after.len() == 0 || after[0] == '\n',
    ensures
        text_result(before + (result_line(indent, x, y, z, tail) + after)) == Ok::<
            Option<Tristimulus>,
            MeterError,
        >(Some((x.value, y.value, z.value))),
{
    let line = result_line(indent, x, y, z, tail);
    let rest = line + after;
    law_lines_of_joined_text(before, rest);
    lemma_first_result_joined(lines(before), lines(rest));
    lemma_trimmed_result_line(indent, x, y, z, tail);
    lemma_first_line(line, after);
    assert(first_result(lines(rest)) == Some(trim(line)));
    law_trim_keeps_words(line);
    lemma_result_values(indent, x, y, z, tail);
    assert(values(trim(line)) =~= values(line));
}

} // verus!
