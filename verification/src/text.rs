//! Lines, words and margins of text.
use vstd::prelude::*;

verus! {

/// A class of characters.
#[derive(Clone, Copy, Debug, PartialEq, Eq)]
pub enum Class {
    /// What Unicode calls white space.
    Space,
    /// What is not white space.
    Ink,
    /// What can stand inside a line.
    InLine,
    /// The decimal digits.
    Digit,
    /// The comma.
    Comma,
}

/// The characters that Unicode calls white space.
pub open spec fn is_space(c: char) -> bool {
    ||| '\u{9}' <= c <= '\u{d}'
    ||| c == ' '
    ||| c == '\u{85}'
    ||| c == '\u{a0}'
    ||| c == '\u{1680}'
    ||| '\u{2000}' <= c <= '\u{200a}'
    ||| c == '\u{2028}'
    ||| c == '\u{2029}'
    ||| c == '\u{202f}'
    ||| c == '\u{205f}'
    ||| c == '\u{3000}'
}

impl Class {
    pub open spec fn has(self, c: char) -> bool {
        match self {
            Class::Space => is_space(c),
            Class::Ink => !is_space(c),
            Class::InLine => c != '\n',
            Class::Digit => '0' <= c <= '9',
            Class::Comma => c == ',',
        }
    }

    /// Whether `c` belongs to the class.
    pub fn contains(&self, c: char) -> (belongs: bool)
        ensures
            belongs == self.has(c),
    {
        let space = ('\u{9}' <= c && c <= '\u{d}') || c == ' ' || c == '\u{85}' || c == '\u{a0}'
            || c == '\u{1680}' || ('\u{2000}' <= c && c <= '\u{200a}') || c == '\u{2028}' || c
            == '\u{2029}' || c == '\u{202f}' || c == '\u{205f}' || c == '\u{3000}';
        match self {
            Class::Space => space,
            Class::Ink => !space,
            Class::InLine => c != '\n',
            Class::Digit => '0' <= c && c <= '9',
            Class::Comma => c == ',',
        }
    }
}

/// How many characters at the start of `s` belong to the class.
pub open spec fn leading(s: Seq<char>, class: Class) -> nat
    decreases s.len(),
{
    if s.len() > 0 && class.has(s[0]) {
        1 + leading(s.skip(1), class)
    } else {
        0
    }
}

/// `s` without the characters at its start that belong to the class.
pub open spec fn trim_start(s: Seq<char>, class: Class) -> Seq<char> {
    s.skip(leading(s, class) as int)
}

/// `s` without the characters at its end that belong to the class.
pub open spec fn trim_end(s: Seq<char>, class: Class) -> Seq<char>
    decreases s.len(),
{
    if s.len() > 0 && class.has(s.last()) {
        trim_end(s.drop_last(), class)
    } else {
        s
    }
}

/// `s` without the white space around it.
pub open spec fn trim(s: Seq<char>) -> Seq<char> {
    trim_end(trim_start(s, Class::Space), Class::Space)
}

/// The lines of `s`. The newline that ends a line is no part of it; the last line need not have
/// one.
pub open spec fn lines(s: Seq<char>) -> Seq<Seq<char>>
    decreases s.len(),
{
    if s.len() == 0 {
        seq![]
    } else {
        let length = leading(s, Class::InLine) as int;
        if length >= s.len() {
            seq![s]
        } else {
            seq![s.take(length)] + lines(s.skip(length + 1))
        }
    }
}

/// The words of `s`: the longest stretches without white space.
pub open spec fn words(s: Seq<char>) -> Seq<Seq<char>>
    decreases s.len(),
{
    let rest = trim_start(s, Class::Space);
    if rest.len() == 0 {
        seq![]
    } else {
        let length = leading(rest, Class::Ink) as int;
        proof {
            lemma_leading(s, Class::Space);
            lemma_leading(rest, Class::Ink);
        }
        seq![rest.take(length)] + words(rest.skip(length))
    }
}

/// The characters that `leading` counts belong to the class, and the next one does not.
pub proof fn lemma_leading(s: Seq<char>, class: Class)
    ensures
        leading(s, class) <= s.len(),
        forall|i: int| 0 <= i < leading(s, class) ==> class.has(#[trigger] s[i]),
        leading(s, class) < s.len() ==> !class.has(s[leading(s, class) as int]),
    decreases s.len(),
{
    if s.len() > 0 && class.has(s[0]) {
        let rest = s.skip(1);
        lemma_leading(rest, class);
        assert forall|i: int| 0 <= i < leading(s, class) implies class.has(#[trigger] s[i]) by {
            if i > 0 {
                assert(rest[i - 1] == s[i]);
            }
        }
    }
}

/// A count of characters that belong to the class, followed by one that does not or by the end,
/// is what `leading` counts.
pub proof fn lemma_leading_is(s: Seq<char>, class: Class, count: int)
    requires
        0 <= count <= s.len(),
        forall|i: int| 0 <= i < count ==> class.has(#[trigger] s[i]),
        count < s.len() ==> !class.has(s[count]),
    ensures
        leading(s, class) == count,
    decreases s.len(),
{
    if count > 0 {
        let rest = s.skip(1);
        assert(class.has(s[0]));
        assert forall|i: int| 0 <= i < count - 1 implies class.has(#[trigger] rest[i]) by {
            assert(rest[i] == s[i + 1]);
        }
        lemma_leading_is(rest, class, count - 1);
    }
}

/// What `trim_end` leaves is how `s` starts; what it cuts off belongs to the class, and what it
/// leaves does not end in the class.
pub proof fn lemma_trim_end(s: Seq<char>, class: Class)
    ensures
        trim_end(s, class).len() <= s.len(),
        trim_end(s, class) == s.take(trim_end(s, class).len() as int),
        forall|i: int| trim_end(s, class).len() <= i < s.len() ==> class.has(#[trigger] s[i]),
        trim_end(s, class).len() > 0 ==> !class.has(trim_end(s, class).last()),
    decreases s.len(),
{
    if s.len() > 0 && class.has(s.last()) {
        let init = s.drop_last();
        lemma_trim_end(init, class);
        let kept = trim_end(init, class).len() as int;
        assert(init.take(kept) =~= s.take(kept));
        assert forall|i: int| kept <= i < s.len() implies class.has(#[trigger] s[i]) by {
            if i < init.len() {
                assert(init[i] == s[i]);
            }
        }
    } else {
        assert(s.take(s.len() as int) =~= s);
    }
}

/// A cut after which everything belongs to the class, and before which something does not, is
/// where `trim_end` cuts.
pub proof fn lemma_trim_end_is(s: Seq<char>, class: Class, kept: int)
    requires
        0 <= kept <= s.len(),
        forall|i: int| kept <= i < s.len() ==> class.has(#[trigger] s[i]),
        kept > 0 ==> !class.has(s[kept - 1]),
    ensures
        trim_end(s, class) == s.take(kept),
    decreases s.len(),
{
    if kept < s.len() {
        let init = s.drop_last();
        assert(class.has(s[s.len() - 1]));
        assert forall|i: int| kept <= i < init.len() implies class.has(#[trigger] init[i]) by {
            assert(init[i] == s[i]);
        }
        lemma_trim_end_is(init, class, kept);
        assert(init.take(kept) =~= s.take(kept));
    } else {
        assert(s.take(kept) =~= s);
    }
}

/// Counts how many characters at the start of `chars[from..to]` belong to the class.
pub fn count_leading(chars: &[char], from: usize, to: usize, class: Class) -> (count: usize)
    requires
        from <= to <= chars@.len(),
    ensures
        count == leading(chars@.subrange(from as int, to as int), class),
        count <= to - from,
{
    let ghost s = chars@.subrange(from as int, to as int);
    let mut at: usize = from;
    while at < to && class.contains(chars[at])
        invariant
            from <= at <= to <= chars@.len(),
            s == chars@.subrange(from as int, to as int),
            forall|i: int| 0 <= i < at - from ==> class.has(#[trigger] s[i]),
        decreases to - at,
    {
        assert(s[at - from] == chars@[at as int]);
        at += 1;
    }
    proof {
        if at < to {
            assert(s[at - from] == chars@[at as int]);
        }
        lemma_leading_is(s, class, at - from);
    }
    at - from
}

/// Finds where `chars[from..to]` ends once the characters of the class are cut off its end.
pub fn find_end(chars: &[char], from: usize, to: usize, class: Class) -> (end: usize)
    requires
        from <= to <= chars@.len(),
    ensures
        from <= end <= to,
        chars@.subrange(from as int, end as int) == trim_end(
            chars@.subrange(from as int, to as int),
            class,
        ),
{
    let ghost s = chars@.subrange(from as int, to as int);
    let mut end: usize = to;
    while from < end && class.contains(chars[end - 1])
        invariant
            from <= end <= to <= chars@.len(),
            s == chars@.subrange(from as int, to as int),
            forall|i: int| end - from <= i < s.len() ==> class.has(#[trigger] s[i]),
        decreases end,
    {
        assert(s[end - 1 - from] == chars@[end - 1]);
        end -= 1;
    }
    proof {
        if from < end {
            assert(s[end - 1 - from] == chars@[end - 1]);
        }
        lemma_trim_end_is(s, class, end - from);
        assert(s.take(end - from) =~= chars@.subrange(from as int, end as int));
    }
    end
}

/// The stretches of `s` between the given positions.
pub open spec fn stretches(s: Seq<char>, ranges: Seq<(usize, usize)>) -> Seq<Seq<char>> {
    Seq::new(ranges.len(), |i: int| s.subrange(ranges[i].0 as int, ranges[i].1 as int))
}

/// Finds the words of `chars[from..to]`, as positions in `chars`.
pub fn find_words(chars: &[char], from: usize, to: usize) -> (ranges: Vec<(usize, usize)>)
    requires
        from <= to <= chars@.len(),
    ensures
        stretches(chars@, ranges@) == words(chars@.subrange(from as int, to as int)),
        forall|i: int|
            0 <= i < ranges@.len() ==> from <= (#[trigger] ranges@[i]).0 < ranges@[i].1 <= to,
{
    let ghost all = words(chars@.subrange(from as int, to as int));
    let mut ranges: Vec<(usize, usize)> = Vec::new();
    let mut at: usize = from;
    assert(stretches(chars@, ranges@) + all =~= all);
    loop
        invariant_except_break
            from <= at <= to <= chars@.len(),
            all == words(chars@.subrange(from as int, to as int)),
            all == stretches(chars@, ranges@) + words(chars@.subrange(at as int, to as int)),
            forall|i: int|
                0 <= i < ranges@.len() ==> from <= (#[trigger] ranges@[i]).0 < ranges@[i].1 <= to,
        ensures
            all == words(chars@.subrange(from as int, to as int)),
            all == stretches(chars@, ranges@),
            forall|i: int|
                0 <= i < ranges@.len() ==> from <= (#[trigger] ranges@[i]).0 < ranges@[i].1 <= to,
        decreases to - at,
    {
        let ghost rest = chars@.subrange(at as int, to as int);
        let start = at + count_leading(chars, at, to, Class::Space);
        proof {
            lemma_leading(rest, Class::Space);
            assert(trim_start(rest, Class::Space) =~= chars@.subrange(start as int, to as int));
        }
        if start == to {
            assert(words(rest) =~= seq![]);
            assert(stretches(chars@, ranges@) + words(rest) =~= stretches(chars@, ranges@));
            break;
        }
        let ghost ink = chars@.subrange(start as int, to as int);
        let end = start + count_leading(chars, start, to, Class::Ink);
        let ghost before = ranges@;
        ranges.push((start, end));
        proof {
            lemma_leading(ink, Class::Ink);
            assert(ink[0] == rest[start - at]);
            assert(ink.take(end - start) =~= chars@.subrange(start as int, end as int));
            assert(ink.skip(end - start) =~= chars@.subrange(end as int, to as int));
            assert(stretches(chars@, ranges@) =~= stretches(chars@, before).push(
                chars@.subrange(start as int, end as int),
            ));
            assert(stretches(chars@, before) + words(rest) =~= stretches(chars@, ranges@) + words(
                chars@.subrange(end as int, to as int),
            ));
        }
        at = end;
    }
    ranges
}

/// Whether `chars[from..to]` starts with `prefix`.
pub fn starts_with(chars: &[char], from: usize, to: usize, prefix: &[char]) -> (starts: bool)
    requires
        from <= to <= chars@.len(),
    ensures
        starts == prefix@.is_prefix_of(chars@.subrange(from as int, to as int)),
{
    let ghost s = chars@.subrange(from as int, to as int);
    if prefix.len() > to - from {
        return false;
    }
    let mut i: usize = 0;
    while i < prefix.len()
        invariant
            from <= to <= chars@.len(),
            s == chars@.subrange(from as int, to as int),
            prefix@.len() <= s.len(),
            i <= prefix@.len(),
            forall|j: int| 0 <= j < i ==> prefix@[j] == s[j],
        decreases prefix@.len() - i,
    {
        if prefix[i] != chars[from + i] {
            assert(prefix@[i as int] != s[i as int]);
            assert(s.subrange(0, prefix@.len() as int)[i as int] == s[i as int]);
            return false;
        }
        i += 1;
    }
    assert(prefix@ =~= s.subrange(0, prefix@.len() as int));
    true
}

/// Takes a text apart into its characters.
pub fn to_chars(text: &str) -> (chars: Vec<char>)
    ensures
        chars@ == text@,
{
    let mut chars: Vec<char> = Vec::new();
    for c in rest: text.chars()
        invariant
            rest.seq() == text@,
            chars@ == text@.take(rest.index()),
    {
        chars.push(c);
        assert(chars@ =~= text@.take(rest.index() + 1));
    }
    assert(text@.take(text@.len() as int) =~= text@);
    chars
}

} // verus!
