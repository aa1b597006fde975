//! What text from the colorimeter says, told by how the text is put together.
use vstd::prelude::*;
use vstd::utf8::{decode_utf8, valid_utf8};

use crate::number::is_float;
use crate::number_laws::{
    is_numeral, is_special, law_numbers_are_numerals, law_numerals_are_numbers, Numeral,
};
use crate::spotread::{
    first_result, output_result, reads_as, result_prefix, text_result, values, MeterError, Reading,
    Tristimulus,
};
use crate::spotread_laws::{
    is_blank, law_number_chars, law_trim_keeps_words, lemma_blank_before_words, lemma_first_word,
    lemma_prefix_words,
};
use crate::text::{
    is_space, leading, lemma_leading, lemma_leading_is, lemma_trim_end, lemma_trim_end_is, lines,
    stretches, trim, trim_end, trim_start, words, Class,
};

verus! {

/// White space is what Unicode gives that property, and each class of characters is what it is
/// called.
pub proof fn law_classes_of_characters(c: char)
    ensures
        ({
            let n = c as u32;
            Class::Space.has(c) <==> {
                ||| 9 <= n <= 13
                ||| n == 0x20
                ||| n == 0x85
                ||| n == 0xa0
                ||| n == 0x1680
                ||| 0x2000 <= n <= 0x200a
                ||| n == 0x2028
                ||| n == 0x2029
                ||| n == 0x202f
                ||| n == 0x205f
                ||| n == 0x3000
            }
        }),
        Class::Space.has(c) == is_space(c),
        Class::Ink.has(c) == !is_space(c),
        Class::InLine.has(c) <==> c != '\n',
        Class::Digit.has(c) <==> 48 <= c as u32 <= 57,
        Class::Comma.has(c) <==> c == ',',
{
}

/// The stretches between positions are the text between them.
pub proof fn law_stretches_are_between_positions(
    s: Seq<char>,
    ranges: Seq<(usize, usize)>,
    i: int,
)
    requires
        0 <= i < ranges.len(),
    ensures
        stretches(s, ranges).len() == ranges.len(),
        stretches(s, ranges)[i] == s.subrange(ranges[i].0 as int, ranges[i].1 as int),
{
}

/// Characters of a class in front of one that is not of it, or of nothing, are what the text starts
/// with of that class, and without them the text starts with what follows; characters of a class
/// behind one that is not of it, or behind nothing, are cut off its end.
pub proof fn law_margins_are_cut(class: Class, margin: Seq<char>, rest: Seq<char>)
    requires
        forall|i: int| 0 <= i < margin.len() ==> class.has(#[trigger] margin[i]),
    ensures
        rest.len() == 0 || !class.has(rest[0]) ==> leading(margin + rest, class) == margin.len()
            && trim_start(margin + rest, class) == rest,
        rest.len() == 0 || !class.has(rest.last()) ==> trim_end(rest + margin, class) == rest,
{
    let before = margin + rest;
    let after = rest + margin;
    if rest.len() == 0 || !class.has(rest[0]) {
        assert forall|i: int| 0 <= i < margin.len() implies class.has(#[trigger] before[i]) by {
            assert(before[i] == margin[i]);
        }
        if rest.len() > 0 {
            assert(before[margin.len() as int] == rest[0]);
        }
        lemma_leading_is(before, class, margin.len() as int);
        assert(before.skip(margin.len() as int) =~= rest);
    }
    if rest.len() == 0 || !class.has(rest.last()) {
        let kept = rest.len() as int;
        assert forall|i: int| kept <= i < after.len() implies class.has(#[trigger] after[i]) by {
            assert(after[i] == margin[i - kept]);
        }
        if kept > 0 {
            assert(after[kept - 1] == rest.last());
        }
        lemma_trim_end_is(after, class, kept);
        assert(after.take(kept) =~= rest);
    }
}

/// Trimming takes the white space off both ends, all of it, and nothing else.
pub proof fn law_trim_leaves_the_core(left: Seq<char>, core: Seq<char>, right: Seq<char>)
    requires
        is_blank(left),
        is_blank(right),
        core.len() > 0 ==> !is_space(core[0]) && !is_space(core.last()),
    ensures
        trim(left + (core + right)) == core,
{
    if core.len() > 0 {
        assert((core + right)[0] == core[0]);
        law_margins_are_cut(Class::Space, left, core + right);
        law_margins_are_cut(Class::Space, right, core);
    } else {
        let all = left + (core + right);
        assert forall|i: int| 0 <= i < all.len() implies Class::Space.has(#[trigger] all[i]) by {
            if i < left.len() {
                assert(all[i] == left[i]);
            } else {
                assert(all[i] == right[i - left.len()]);
            }
        }
        law_margins_are_cut(Class::Space, all, seq![]);
        assert(all + seq![] =~= all);
        assert(core =~= seq![]);
    }
}

/// The words of text are the stretches between white space: each stretch, of any length, in front
/// of white space or the end is a word, in order, and white space alone makes none.
pub proof fn law_words_are_between_spaces(gap: Seq<char>, word: Seq<char>, rest: Seq<char>)
    requires
        is_blank(gap),
    ensures
        words(gap) == Seq::<Seq<char>>::empty(),
        word.len() > 0 && (forall|i: int| 0 <= i < word.len() ==> !is_space(#[trigger] word[i]))
            && (rest.len() > 0 ==> is_space(rest[0])) ==> words(gap + (word + rest)) == seq![word]
            + words(rest),
{
    lemma_blank_before_words(gap, seq![]);
    assert(gap + seq![] =~= gap);
    assert(words(seq![]) =~= seq![]);
    if word.len() > 0 && (forall|i: int| 0 <= i < word.len() ==> !is_space(#[trigger] word[i])) && (
    rest.len() > 0 ==> is_space(rest[0])) {
        lemma_blank_before_words(gap, word + rest);
        lemma_first_word(word, rest);
    }
}

/// The lines of text are the stretches between newlines: each stretch in front of a newline is a
/// line, be it empty or not, and so is what is left at the end, unless it is empty.
pub proof fn law_lines_are_between_newlines(line: Seq<char>, rest: Seq<char>)
    requires
        !line.contains('\n'),
    ensures
        lines(line + (seq!['\n'] + rest)) == seq![line] + lines(rest),
        line.len() > 0 ==> lines(line) == seq![line],
        lines(Seq::<char>::empty()) == Seq::<Seq<char>>::empty(),
{
    let all = line + (seq!['\n'] + rest);
    let length = line.len() as int;
    assert forall|i: int| 0 <= i < length implies Class::InLine.has(#[trigger] line[i]) by {
        assert(line.contains(line[i]));
    }
    assert forall|i: int| 0 <= i < length implies Class::InLine.has(#[trigger] all[i]) by {
        assert(all[i] == line[i]);
    }
    assert(all[length] == '\n');
    lemma_leading_is(all, Class::InLine, length);
    assert(all.take(length) =~= line);
    assert(all.skip(length + 1) =~= rest);
    lemma_leading_is(line, Class::InLine, length);
}

/// How a line that reports a result starts.
pub open spec fn announcement() -> Seq<char> {
    seq!['R', 'e', 's', 'u', 'l', 't', ' ', 'i', 's', ' ', 'X', 'Y', 'Z', ':', ' ']
}

proof fn lemma_announcement()
    ensures
        result_prefix() == announcement(),
{
    reveal_strlit("Result is XYZ: ");
    assert(result_prefix() =~= announcement());
}

/// Whether the line has the announcement at `at`, nothing but white space before it, and something
/// else than white space at `ink`, behind it.
pub open spec fn reports_at(line: Seq<char>, at: int, ink: int) -> bool {
    &&& 0 <= at
    &&& at + 15 <= ink < line.len()
    &&& is_blank(line.take(at))
    &&& line.subrange(at, at + 15) == announcement()
    &&& !is_space(line[ink])
}

/// Whether the line reports something.
pub open spec fn reports(line: Seq<char>) -> bool {
    exists|at: int, ink: int| reports_at(line, at, ink)
}

/// A line that starts with the announcement once it is trimmed reports something.
proof fn lemma_prefixed_line_reports(line: Seq<char>)
    requires
        result_prefix().is_prefix_of(trim(line)),
    ensures
        reports(line),
{
    lemma_announcement();
    lemma_leading(line, Class::Space);
    let at = leading(line, Class::Space) as int;
    let rest = line.skip(at);
    lemma_trim_end(rest, Class::Space);
    let kept = trim_end(rest, Class::Space);
    let count = kept.len() as int;
    assert(kept == rest.take(count));
    assert(announcement() == kept.subrange(0, 15));
    assert(kept[14] == announcement()[14]);
    assert(count > 15) by {
        if count == 15 {
            assert(kept.last() == ' ');
        }
    }
    assert(line.subrange(at, at + 15) =~= kept.subrange(0, 15));
    assert forall|i: int| 0 <= i < line.take(at).len() implies is_space(
        #[trigger] line.take(at)[i],
    ) by {
        assert(Class::Space.has(line[i]));
    }
    assert(line[at + count - 1] == kept.last());
    assert(reports_at(line, at, at + count - 1));
}

/// Without text nothing is reported. A line that reports nothing makes no difference to what the
/// lines after it say, and says nothing by itself.
pub proof fn law_other_lines_are_skipped(line: Seq<char>, rest: Seq<char>)
    requires
        !line.contains('\n'),
        !reports(line),
    ensures
        text_result(Seq::<char>::empty()) == Ok::<Option<Tristimulus>, MeterError>(None),
        text_result(line + (seq!['\n'] + rest)) == text_result(rest),
        text_result(line) == Ok::<Option<Tristimulus>, MeterError>(None),
{
    law_lines_are_between_newlines(line, rest);
    if result_prefix().is_prefix_of(trim(line)) {
        lemma_prefixed_line_reports(line);
    }
    let all = lines(line + (seq!['\n'] + rest));
    assert(all.skip(1) =~= lines(rest));
    assert(all[0] == line);
    assert(lines(Seq::<char>::empty()) =~= seq![]);
    if line.len() > 0 {
        assert(seq![line].skip(1) =~= seq![]);
    } else {
        assert(line =~= Seq::<char>::empty());
    }
}

/// A word on a line that reports something: white space, what the word is without the commas at its
/// end, and these commas.
pub struct Entry {
    pub gap: Seq<char>,
    pub value: Seq<char>,
    pub commas: Seq<char>,
}

impl Entry {
    /// The parts are what they are called, and there is a word.
    pub open spec fn wf(self) -> bool {
        &&& is_blank(self.gap)
        &&& forall|i: int| 0 <= i < self.value.len() ==> !is_space(#[trigger] self.value[i])
        &&& self.value.len() > 0 ==> self.value.last() != ','
        &&& forall|i: int| 0 <= i < self.commas.len() ==> #[trigger] self.commas[i] == ','
        &&& self.value.len() + self.commas.len() > 0
    }

    /// The word.
    pub open spec fn word(self) -> Seq<char> {
        self.value + self.commas
    }

    /// Whether the word is a number.
    pub open spec fn is_number(self) -> bool {
        is_numeral(self.value) || is_special(self.value)
    }
}

/// The words and then `tail`.
pub open spec fn entries_text(entries: Seq<Entry>, tail: Seq<char>) -> Seq<char>
    decreases entries.len(),
{
    if entries.len() == 0 {
        tail
    } else {
        entries[0].gap + (entries[0].word() + entries_text(entries.skip(1), tail))
    }
}

/// Each of them is one, and but for the first there is white space in front of it.
pub open spec fn entries_wf(entries: Seq<Entry>) -> bool {
    forall|i: int|
        0 <= i < entries.len() ==> (#[trigger] entries[i]).wf() && (i > 0 ==> entries[i].gap.len()
            > 0)
}

/// The words of the words are the words.
proof fn lemma_entries_words(entries: Seq<Entry>, tail: Seq<char>)
    requires
        entries_wf(entries),
        is_blank(tail),
    ensures
        words(entries_text(entries, tail)) == entries.map_values(|entry: Entry| entry.word()),
    decreases entries.len(),
{
    let all = entries.map_values(|entry: Entry| entry.word());
    if entries.len() == 0 {
        law_words_are_between_spaces(tail, seq![], seq![]);
        assert(all =~= seq![]);
    } else {
        let others = entries.skip(1);
        let rest = entries_text(others, tail);
        let first = entries[0];
        assert forall|i: int| 0 <= i < others.len() implies (#[trigger] others[i]).wf() && (i > 0
            ==> others[i].gap.len() > 0) by {
            assert(others[i] == entries[i + 1]);
        }
        lemma_entries_words(others, tail);
        if rest.len() > 0 {
            if others.len() > 0 {
                assert(others[0] == entries[1]);
                assert(rest[0] == others[0].gap[0]);
            }
            assert(is_space(rest[0]));
        }
        lemma_entry_word(first);
        law_words_are_between_spaces(first.gap, first.word(), rest);
        assert(all =~= seq![first.word()] + others.map_values(|entry: Entry| entry.word()));
    }
}

/// A word has no white space, and is its value once the commas at its end are cut off.
proof fn lemma_entry_word(entry: Entry)
    requires
        entry.wf(),
    ensures
        entry.word().len() > 0,
        forall|i: int| 0 <= i < entry.word().len() ==> !is_space(#[trigger] entry.word()[i]),
        trim_end(entry.word(), Class::Comma) == entry.value,
{
    let word = entry.word();
    assert forall|i: int| 0 <= i < word.len() implies !is_space(#[trigger] word[i]) by {
        if i < entry.value.len() {
            assert(word[i] == entry.value[i]);
        } else {
            assert(word[i] == entry.commas[i - entry.value.len()]);
        }
    }
    assert forall|i: int| 0 <= i < entry.commas.len() implies Class::Comma.has(
        #[trigger] entry.commas[i],
    ) by {
    }
    law_margins_are_cut(Class::Comma, entry.commas, entry.value);
}

/// A line with the announcement and something behind it starts with the announcement once it is
/// trimmed.
proof fn lemma_announced(indent: Seq<char>, body: Seq<char>, ink: int)
    requires
        is_blank(indent),
        0 <= ink < body.len(),
        !is_space(body[ink]),
    ensures
        result_prefix().is_prefix_of(trim(indent + (announcement() + body))),
{
    let rest = announcement() + body;
    let line = indent + rest;
    lemma_announcement();
    assert(rest[0] == 'R');
    law_margins_are_cut(Class::Space, indent, rest);
    lemma_trim_end(rest, Class::Space);
    let kept = trim_end(rest, Class::Space).len() as int;
    assert(rest[15 + ink] == body[ink]);
    assert(kept > 15 + ink) by {
        if kept <= 15 + ink {
            assert(Class::Space.has(rest[15 + ink]));
        }
    }
    assert(announcement() =~= trim(line).subrange(0, 15));
}

/// What a line that reports these words says: nothing that can be understood if one of the first
/// three is no number, or if there are fewer than three, and the first three otherwise.
pub open spec fn entries_say(entries: Seq<Entry>) -> Result<Option<Tristimulus>, MeterError> {
    if exists|i: int| 0 <= i < 3 && i < entries.len() && !(#[trigger] entries[i]).is_number() {
        Err(MeterError::InvalidValue)
    } else if entries.len() < 3 {
        Err(MeterError::MissingValue)
    } else {
        Ok(Some((entries[0].value, entries[1].value, entries[2].value)))
    }
}

/// A line with the announcement and one word or more behind it is read: its first three words,
/// without the commas at their ends, are the values if they are numbers, of whatever length and
/// notation, and are refused otherwise. It makes no difference how far the line is indented, how
/// much white space stands between the words and what comes on later lines.
pub proof fn law_result_line_is_read(
    indent: Seq<char>,
    entries: Seq<Entry>,
    tail: Seq<char>,
    after: Seq<char>,
)
    requires
        is_blank(indent),
        entries.len() > 0,
        entries_wf(entries),
        is_blank(tail),
        !(indent + (announcement() + entries_text(entries, tail))).contains('\n'),
        after.len() == 0 || after[0] == '\n',
    ensures
        text_result((indent + (announcement() + entries_text(entries, tail))) + after)
            == entries_say(entries),
{
    let body = entries_text(entries, tail);
    let line = indent + (announcement() + body);
    let first = entries[0];
    lemma_announcement();
    lemma_entry_word(first);
    assert(body[first.gap.len() as int] == first.word()[0]);
    lemma_announced(indent, body, first.gap.len() as int);
    // The line is the first one.
    if after.len() == 0 {
        assert(line + after =~= line);
        law_lines_are_between_newlines(line, seq![]);
    } else {
        let rest = after.skip(1);
        assert(line + after =~= line + (seq!['\n'] + rest));
        law_lines_are_between_newlines(line, rest);
    }
    assert(lines(line + after)[0] == line);
    assert(first_result(lines(line + after)) == Some(trim(line)));
    // Its words are three and then the entries.
    law_trim_keeps_words(line);
    lemma_blank_before_words(indent, announcement() + body);
    lemma_prefix_words(body);
    lemma_entries_words(entries, tail);
    let found = words(line);
    assert(found.skip(3) == entries.map_values(|entry: Entry| entry.word()));
    let read = values(trim(line));
    assert(read.len() == if entries.len() < 3 {
        entries.len() as int
    } else {
        3
    });
    assert forall|i: int| 0 <= i < read.len() implies #[trigger] read[i] == entries[i].value by {
        assert(found[i + 3] == found.skip(3)[i]);
        lemma_entry_word(entries[i]);
    }
    assert forall|i: int| 0 <= i < read.len() implies is_float(#[trigger] read[i])
        == entries[i].is_number() by {
        law_numbers_are_numerals(entries[i].value);
    }
    if exists|i: int| 0 <= i < 3 && i < entries.len() && !(#[trigger] entries[i]).is_number() {
        let i = choose|i: int|
            0 <= i < 3 && i < entries.len() && !(#[trigger] entries[i]).is_number();
        assert(!is_float(read[i]));
    }
}

/// Three decimal numbers behind the announcement, each of any length and notation, are read as they
/// are written, whatever follows on the line behind white space and on later lines.
pub proof fn law_three_numbers_are_read(
    x: Numeral,
    y: Numeral,
    z: Numeral,
    others: Seq<Entry>,
    after: Seq<char>,
)
    requires
        x.wf(),
        y.wf(),
        z.wf(),
        entries_wf(others),
        forall|i: int| 0 <= i < others.len() ==> (#[trigger] others[i]).gap.len() > 0,
        !entries_text(others, seq![]).contains('\n'),
        after.len() == 0 || after[0] == '\n',
    ensures
        text_result(
            (announcement() + (x.text() + (seq![' '] + (y.text() + (seq![' '] + (z.text()
                + entries_text(others, seq![]))))))) + after,
        ) == Ok::<Option<Tristimulus>, MeterError>(Some((x.text(), y.text(), z.text()))),
{
    let ex = Entry { gap: seq![], value: x.text(), commas: seq![] };
    let ey = Entry { gap: seq![' '], value: y.text(), commas: seq![] };
    let ez = Entry { gap: seq![' '], value: z.text(), commas: seq![] };
    let entries = seq![ex, ey, ez] + others;
    let tail = entries_text(others, seq![]);
    lemma_numeral_entry(x, ex);
    lemma_numeral_entry(y, ey);
    lemma_numeral_entry(z, ez);
    assert(entries_wf(entries)) by {
        assert forall|i: int| 0 <= i < entries.len() implies (#[trigger] entries[i]).wf() && (i > 0
            ==> entries[i].gap.len() > 0) by {
            if i >= 3 {
                assert(entries[i] == others[i - 3]);
            }
        }
    }
    assert(entries.skip(1) =~= seq![ey, ez] + others);
    assert(entries.skip(1).skip(1) =~= seq![ez] + others);
    assert(entries.skip(1).skip(1).skip(1) =~= others);
    let from_z = seq![' '] + (z.text() + tail);
    let from_y = seq![' '] + (y.text() + from_z);
    let body = x.text() + from_y;
    reveal_with_fuel(entries_text, 4);
    assert(ez.word() =~= z.text() && ey.word() =~= y.text() && ex.word() =~= x.text());
    assert(entries_text(entries, seq![]) =~= body);
    let line = announcement() + body;
    assert(Seq::<char>::empty() + line =~= line);
    assert(!line.contains('\n')) by {
        lemma_no_newline(z.text(), tail);
        lemma_no_newline(seq![' '], z.text() + tail);
        lemma_no_newline(y.text(), from_z);
        lemma_no_newline(seq![' '], y.text() + from_z);
        lemma_no_newline(x.text(), from_y);
        lemma_no_newline(announcement(), body);
    }
    law_result_line_is_read(seq![], entries, seq![], after);
    assert(entries[0] == ex && entries[1] == ey && entries[2] == ez);
}

/// A decimal number is a word and a number.
proof fn lemma_numeral_entry(numeral: Numeral, entry: Entry)
    requires
        numeral.wf(),
        entry.value == numeral.text(),
        entry.commas.len() == 0,
        is_blank(entry.gap),
    ensures
        entry.wf(),
        entry.is_number(),
        forall|i: int| 0 <= i < numeral.text().len() ==> #[trigger] numeral.text()[i] != '\n',
{
    law_numerals_are_numbers(numeral);
    law_number_chars(numeral.text());
}

proof fn lemma_no_newline(a: Seq<char>, b: Seq<char>)
    requires
        forall|i: int| 0 <= i < a.len() ==> #[trigger] a[i] != '\n',
        !b.contains('\n'),
    ensures
        !(a + b).contains('\n'),
{
    assert forall|i: int| 0 <= i < (a + b).len() implies #[trigger] (a + b)[i] != '\n' by {
        if i >= a.len() {
            assert(b.contains(b[i - a.len()]));
        }
    }
}

/// Output says what its text says if it is UTF-8, and cannot be understood otherwise.
pub proof fn law_output_says_what_its_text_says(output: Seq<u8>)
    ensures
        valid_utf8(output) ==> output_result(output) == text_result(decode_utf8(output)),
        !valid_utf8(output) ==> output_result(output) == Err::<Option<Tristimulus>, MeterError>(
            MeterError::NotUtf8,
        ),
{
}

/// A reading has the three values in order; reading nothing, and each error, is what it is.
pub proof fn law_outcome_is_the_result(
    reading: Reading,
    error: MeterError,
    result: Result<Option<Tristimulus>, MeterError>,
)
    ensures
        reads_as(Ok(Some(reading)), result) <==> result == Ok::<Option<Tristimulus>, MeterError>(
            Some((reading.x@, reading.y@, reading.z@)),
        ),
        reads_as(Ok(None), result) <==> result == Ok::<Option<Tristimulus>, MeterError>(None),
        reads_as(Err(error), result) <==> result == Err::<Option<Tristimulus>, MeterError>(error),
{
}

} // verus!
