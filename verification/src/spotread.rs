//! The output of the colorimeter program `spotread`.
use vstd::prelude::*;
use vstd::utf8::{decode_utf8, valid_utf8};

use crate::number::{check_float, is_float};
use crate::text::{
    count_leading, find_end, find_words, lines, starts_with, stretches, to_chars, trim, trim_end,
    trim_start, words, Class,
};

verus! {

/// A measured color: its tristimulus values, in the notation in which they were reported.
#[derive(Debug, PartialEq, Eq)]
pub struct Reading {
    pub x: String,
    pub y: String,
    pub z: String,
}

/// The tristimulus values of a color, in the notation in which they were reported.
pub type Tristimulus = (Seq<char>, Seq<char>, Seq<char>);

/// Why output cannot be understood.
#[derive(Clone, Copy, Debug, PartialEq, Eq)]
pub enum MeterError {
    /// It is not UTF-8.
    NotUtf8,
    /// One of the reported values is not a number.
    InvalidValue,
    /// A result has fewer than three values.
    MissingValue,
}

/// How a line that reports a result starts.
pub open spec fn result_prefix() -> Seq<char> {
    "Result is XYZ: "@
}

/// The first of the lines that reports a result, without the white space around it.
pub open spec fn first_result(lines: Seq<Seq<char>>) -> Option<Seq<char>>
    decreases lines.len(),
{
    if lines.len() == 0 {
        None
    } else if result_prefix().is_prefix_of(trim(lines[0])) {
        Some(trim(lines[0]))
    } else {
        first_result(lines.skip(1))
    }
}

/// The values that a line reports: the fourth to the sixth word, as far as they are there,
/// without the commas after them.
pub open spec fn values(line: Seq<char>) -> Seq<Seq<char>> {
    let found = words(line);
    let count = if found.len() <= 3 {
        0
    } else if found.len() >= 6 {
        3
    } else {
        (found.len() - 3) as nat
    };
    Seq::new(count, |i: int| trim_end(found[i + 3], Class::Comma))
}

/// What text from the colorimeter says: no result, three values, or nothing that can be
/// understood.
pub open spec fn text_result(text: Seq<char>) -> Result<Option<Tristimulus>, MeterError> {
    match first_result(lines(text)) {
        None => Ok(None),
        Some(line) => {
            let found = values(line);
            if exists|i: int| 0 <= i < found.len() && !is_float(#[trigger] found[i]) {
                Err(MeterError::InvalidValue)
            } else if found.len() < 3 {
                Err(MeterError::MissingValue)
            } else {
                Ok(Some((found[0], found[1], found[2])))
            }
        },
    }
}

/// What output of the colorimeter says.
pub open spec fn output_result(output: Seq<u8>) -> Result<Option<Tristimulus>, MeterError> {
    if valid_utf8(output) {
        text_result(decode_utf8(output))
    } else {
        Err(MeterError::NotUtf8)
    }
}

/// Whether the outcome of reading is `result`.
pub open spec fn reads_as(
    outcome: Result<Option<Reading>, MeterError>,
    result: Result<Option<Tristimulus>, MeterError>,
) -> bool {
    match outcome {
        Ok(Some(reading)) => result == Ok::<_, MeterError>(
            Some((reading.x@, reading.y@, reading.z@)),
        ),
        Ok(None) => result == Ok::<Option<Tristimulus>, MeterError>(None),
        Err(error) => result == Err::<Option<Tristimulus>, _>(error),
    }
}

/// Calls `String::from_utf8`.
/// Claimed: it succeeds exactly on valid UTF-8, with the text that the bytes encode.
#[verifier::external_body]
fn text_from_utf8(bytes: Vec<u8>) -> (text: Option<String>)
    ensures
        match text {
            Some(text) => valid_utf8(bytes@) && text@ == decode_utf8(bytes@),
            None => !valid_utf8(bytes@),
        },
{
    String::from_utf8(bytes).ok()
}

/// Finds the first line that reports a result, as positions in `chars`.
fn find_result(chars: &[char]) -> (found: Option<(usize, usize)>)
    ensures
        match found {
            Some((from, to)) => from <= to <= chars@.len() && first_result(lines(chars@)) == Some(
                chars@.subrange(from as int, to as int),
            ),
            None => first_result(lines(chars@)) is None,
        },
{
    let prefix = to_chars("Result is XYZ: ");
    let mut at: usize = 0;
    assert(chars@.skip(0) =~= chars@);
    while at < chars.len()
        invariant
            at <= chars@.len(),
            prefix@ == result_prefix(),
            first_result(lines(chars@)) == first_result(lines(chars@.skip(at as int))),
        decreases chars@.len() - at,
    {
        let ghost rest = chars@.skip(at as int);
        assert(rest =~= chars@.subrange(at as int, chars@.len() as int));
        let end = at + count_leading(chars, at, chars.len(), Class::InLine);
        let ghost line = chars@.subrange(at as int, end as int);
        proof {
            assert(rest.take(end - at) =~= line);
            assert(lines(rest)[0] =~= line);
        }
        let from = at + count_leading(chars, at, end, Class::Space);
        assert(trim_start(line, Class::Space) =~= chars@.subrange(from as int, end as int));
        let to = find_end(chars, from, end, Class::Space);
        if starts_with(chars, from, to, prefix.as_slice()) {
            return Some((from, to));
        }
        if end < chars.len() {
            assert(rest.skip(end - at + 1) =~= chars@.skip(end + 1));
            assert(lines(rest).skip(1) =~= lines(chars@.skip(end + 1)));
            at = end + 1;
        } else {
            assert(lines(rest).skip(1) =~= seq![]);
            assert(chars@.skip(end as int) =~= seq![]);
            at = end;
        }
    }
    assert(chars@.skip(at as int) =~= seq![]);
    None
}

/// Reads a result out of text from the colorimeter.
pub fn read_text(text: &str) -> (outcome: Result<Option<Reading>, MeterError>)
    ensures
        reads_as(outcome, text_result(text@)),
{
    let chars = to_chars(text);
    let (from, to) = match find_result(chars.as_slice()) {
        Some(range) => range,
        None => {
            return Ok(None);
        },
    };
    let ghost line = text@.subrange(from as int, to as int);
    let found = find_words(chars.as_slice(), from, to);
    let ghost expected = values(line);
    assert(stretches(chars@, found@) == words(line));

    let mut ranges: Vec<(usize, usize)> = Vec::new();
    let mut i: usize = 3;
    while i < found.len() && i < 6
        invariant
            3 <= i <= 6,
            i <= found@.len() || i == 3,
            ranges@.len() == i - 3,
            chars@ == text@,
            to <= chars@.len(),
            from <= to,
            line == text@.subrange(from as int, to as int),
            first_result(lines(text@)) == Some(line),
            stretches(chars@, found@) == words(line),
            expected == values(line),
            forall|j: int|
                0 <= j < found@.len() ==> from <= (#[trigger] found@[j]).0 < found@[j].1 <= to,
            forall|j: int|
                0 <= j < ranges@.len() ==> (#[trigger] ranges@[j]).0 <= ranges@[j].1 <= to
                    && text@.subrange(ranges@[j].0 as int, ranges@[j].1 as int) == expected[j],
            forall|j: int| 0 <= j < ranges@.len() ==> is_float(#[trigger] expected[j]),
        decreases 6 - i,
    {
        let (start, end) = found[i];
        let cut = find_end(chars.as_slice(), start, end, Class::Comma);
        assert(words(line)[i as int] == stretches(chars@, found@)[i as int]);
        assert(expected[i - 3] == text@.subrange(start as int, cut as int));
        if !check_float(chars.as_slice(), start, cut) {
            assert(!is_float(expected[i - 3]));
            return Err(MeterError::InvalidValue);
        }
        ranges.push((start, cut));
        i += 1;
    }
    assert(words(line).len() == found@.len());
    assert(ranges@.len() == expected.len());
    if ranges.len() < 3 {
        return Err(MeterError::MissingValue);
    }
    let (x, y, z) = (ranges[0], ranges[1], ranges[2]);
    Ok(
        Some(
            Reading {
                x: text.substring_char(x.0, x.1).to_owned(),
                y: text.substring_char(y.0, y.1).to_owned(),
                z: text.substring_char(z.0, z.1).to_owned(),
            },
        ),
    )
}

/// Reads a result out of output of the colorimeter.
pub fn read_output(output: Vec<u8>) -> (outcome: Result<Option<Reading>, MeterError>)
    ensures
        reads_as(outcome, output_result(output@)),
{
    match text_from_utf8(output) {
        Some(text) => read_text(text.as_str()),
        None => Err(MeterError::NotUtf8),
    }
}

} // verus!
