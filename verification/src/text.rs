//! Character-level operations on text, specified over `Seq<char>`.

use vstd::prelude::*;
use vstd::string::StrSliceExecFns;

verus! {

/// Whether `c` has the Unicode `White_Space` property.
pub uninterp spec fn white_space(c: char) -> bool;

/// Calls `char::is_whitespace`. The result is only given a name: which
/// characters count as white space is left to the standard library.
#[verifier::external_body]
pub(crate) fn is_white_space(c: char) -> (r: bool)
    ensures
        r == white_space(c),
{
    c.is_whitespace()
}

/// A set of characters that can be stripped from the ends of a text.
#[derive(Clone, Copy, Debug, PartialEq, Eq)]
pub enum CharClass {
    /// Unicode white space.
    Whitespace,
    /// The hyphen `-`.
    Hyphen,
}

/// Whether `c` belongs to `class`.
pub open spec fn in_class(class: CharClass, c: char) -> bool {
    match class {
        CharClass::Whitespace => white_space(c),
        CharClass::Hyphen => c == '-',
    }
}

/// One of the digits `0` to `9`.
pub open spec fn is_ascii_digit(c: char) -> bool {
    '0' <= c && c <= '9'
}

/// Number of characters at the start of `s` that belong to `class`.
pub open spec fn leading(s: Seq<char>, class: CharClass) -> nat
    decreases s.len(),
{
    if s.len() > 0 && in_class(class, s[0]) {
        1 + leading(s.drop_first(), class)
    } else {
        0
    }
}

/// Number of characters at the end of `s` that belong to `class`.
pub open spec fn trailing(s: Seq<char>, class: CharClass) -> nat
    decreases s.len(),
{
    if s.len() > 0 && in_class(class, s.last()) {
        1 + trailing(s.drop_last(), class)
    } else {
        0
    }
}

/// `s` without the characters of `class` at its start and at its end.
pub open spec fn trimmed(s: Seq<char>, class: CharClass) -> Seq<char> {
    let rest = s.skip(leading(s, class) as int);
    rest.take(rest.len() - trailing(rest, class))
}

/// Index of the last `c` in `s`, or `-1` when `s` holds none.
pub open spec fn last_index_of(s: Seq<char>, c: char) -> int
    decreases s.len(),
{
    if s.len() == 0 {
        -1
    } else if s.last() == c {
        s.len() - 1
    } else {
        last_index_of(s.drop_last(), c)
    }
}

/// Whether `s` begins with `prefix`.
pub open spec fn starts_with(s: Seq<char>, prefix: Seq<char>) -> bool {
    prefix.len() <= s.len() && s.take(prefix.len() as int) == prefix
}

/// `s` without `prefix` at its start, or `s` itself when it does not start with `prefix`.
pub open spec fn without_prefix(s: Seq<char>, prefix: Seq<char>) -> Seq<char> {
    if starts_with(s, prefix) {
        s.skip(prefix.len() as int)
    } else {
        s
    }
}

/// The pieces of `s` between occurrences of `sep`; always at least one piece.
pub open spec fn split_on(s: Seq<char>, sep: char) -> Seq<Seq<char>>
    decreases s.len(),
{
    let k = last_index_of(s, sep);
    if 0 <= k < s.len() {
        split_on(s.take(k), sep).push(s.skip(k + 1))
    } else {
        seq![s]
    }
}

/// The view of a text that may be absent.
pub open spec fn optional(text: Option<String>) -> Option<Seq<char>> {
    match text {
        Some(t) => Some(t@),
        None => None,
    }
}

/// The views of a sequence of texts.
pub open spec fn texts(v: Seq<String>) -> Seq<Seq<char>> {
    v.map_values(|t: String| t@)
}

/// `leading` is the length of the longest run of `class` at the start.
pub proof fn lemma_leading(s: Seq<char>, class: CharClass, k: int)
    requires
        0 <= k <= s.len(),
        forall|i: int| 0 <= i < k ==> in_class(class, s[i]),
        k < s.len() ==> !in_class(class, s[k]),
    ensures
        leading(s, class) == k,
    decreases k,
{
    if k > 0 {
        let rest = s.drop_first();
        assert forall|i: int| 0 <= i < k - 1 implies in_class(class, rest[i]) by {
            assert(rest[i] == s[i + 1]);
        }
        if k - 1 < rest.len() {
            assert(rest[k - 1] == s[k]);
        }
        lemma_leading(rest, class, k - 1);
    }
}

/// `trailing` is the length of the longest run of `class` at the end.
pub proof fn lemma_trailing(s: Seq<char>, class: CharClass, k: int)
    requires
        0 <= k <= s.len(),
        forall|i: int| s.len() - k <= i < s.len() ==> in_class(class, s[i]),
        k < s.len() ==> !in_class(class, s[s.len() - k - 1]),
    ensures
        trailing(s, class) == k,
    decreases k,
{
    if k > 0 {
        let rest = s.drop_last();
        assert forall|i: int| rest.len() - (k - 1) <= i < rest.len() implies in_class(
            class,
            rest[i],
        ) by {
            assert(rest[i] == s[i]);
        }
        if k - 1 < rest.len() {
            assert(rest[rest.len() - (k - 1) - 1] == s[s.len() - k - 1]);
        }
        lemma_trailing(rest, class, k - 1);
    }
}

/// `last_index_of` is the greatest index that holds `c`, or `-1`.
pub proof fn lemma_last_index_of(s: Seq<char>, c: char, k: int)
    requires
        -1 <= k < s.len(),
        forall|i: int| k < i < s.len() ==> s[i] != c,
        0 <= k ==> s[k] == c,
    ensures
        last_index_of(s, c) == k,
    decreases s.len(),
{
    if s.len() > 0 && k < s.len() - 1 {
        let rest = s.drop_last();
        assert forall|i: int| k < i < rest.len() implies rest[i] != c by {
            assert(rest[i] == s[i]);
        }
        if 0 <= k {
            assert(rest[k] == s[k]);
        }
        lemma_last_index_of(rest, c, k);
    }
}

/// The characters of `s`, in order, as a vector that can be indexed in constant time.
pub fn chars_of(s: &str) -> (chars: Vec<char>)
    ensures
        chars@ == s@,
{
    let mut chars: Vec<char> = Vec::new();
    for c in it: s.chars()
        invariant
            it.seq() == s@,
            chars@ == it.seq().take(it.index()),
    {
        chars.push(c);
    }
    chars
}

/// The text made of `chars[from..to]`.
pub fn text_of(chars: &Vec<char>, from: usize, to: usize) -> (text: String)
    requires
        from <= to <= chars.len(),
    ensures
        text@ == chars@.subrange(from as int, to as int),
{
    let mut text = String::new();
    let mut i: usize = from;
    while i < to
        invariant
            from <= i <= to <= chars.len(),
            text@ == chars@.subrange(from as int, i as int),
        decreases to - i,
    {
        push_char(&mut text, chars[i]);
        assert(chars@.subrange(from as int, i + 1) == chars@.subrange(from as int, i as int).push(
            chars@[i as int],
        ));
        i += 1;
    }
    text
}

/// Calls `String::push`, which appends one character to the end of the text.
#[verifier::external_body]
pub(crate) fn push_char(text: &mut String, c: char)
    ensures
        final(text)@ == old(text)@.push(c),
{
    text.push(c);
}

/// Whether `c` belongs to `class`.
pub fn in_char_class(class: CharClass, c: char) -> (r: bool)
    ensures
        r == in_class(class, c),
{
    match class {
        CharClass::Whitespace => is_white_space(c),
        CharClass::Hyphen => c == '-',
    }
}

/// Bounds of what is left of `chars[from..to]` once the characters of `class`
/// are stripped from both ends.
pub fn trim_bounds(chars: &Vec<char>, from: usize, to: usize, class: CharClass) -> (r: (
    usize,
    usize,
))
    requires
        from <= to <= chars.len(),
    ensures
        from <= r.0 <= r.1 <= to,
        chars@.subrange(r.0 as int, r.1 as int) == trimmed(
            chars@.subrange(from as int, to as int),
            class,
        ),
{
    let ghost s = chars@.subrange(from as int, to as int);
    let mut a: usize = from;
    while a < to && in_char_class(class, chars[a])
        invariant
            from <= a <= to <= chars.len(),
            forall|i: int| from <= i < a ==> in_class(class, chars@[i]),
        decreases to - a,
    {
        a += 1;
    }
    let mut b: usize = to;
    while b > a && in_char_class(class, chars[b - 1])
        invariant
            a <= b <= to <= chars.len(),
            forall|i: int| b <= i < to ==> in_class(class, chars@[i]),
        decreases b - a,
    {
        b -= 1;
    }
    proof {
        lemma_leading(s, class, a - from);
        let rest = s.skip(a - from);
        lemma_trailing(rest, class, to - b);
        assert(chars@.subrange(a as int, b as int) == rest.take(rest.len() - (to - b)));
    }
    (a, b)
}

/// A split has at least one piece.
pub proof fn lemma_split_on_nonempty(s: Seq<char>, sep: char)
    ensures
        split_on(s, sep).len() >= 1,
    decreases s.len(),
{
    let k = last_index_of(s, sep);
    if 0 <= k < s.len() {
        lemma_split_on_nonempty(s.take(k), sep);
    }
}

/// The last piece of a split starts after the last separator.
pub proof fn lemma_split_on_last(s: Seq<char>, sep: char, start: int)
    requires
        0 <= start <= s.len(),
        forall|k: int| start <= k < s.len() ==> s[k] != sep,
        start > 0 ==> s[start - 1] == sep,
    ensures
        start == 0 ==> split_on(s, sep) == seq![s],
        start > 0 ==> split_on(s, sep) == split_on(s.take(start - 1), sep).push(s.skip(start)),
{
    lemma_last_index_of(s, sep, start - 1);
}

/// Whether `r` is a range of indices into a text of length `len`.
pub open spec fn range_in(r: (usize, usize), len: int) -> bool {
    r.0 <= r.1 <= len
}

/// The pieces of `s` that a sequence of index ranges stands for.
pub open spec fn pieces(s: Seq<char>, ranges: Seq<(usize, usize)>) -> Seq<Seq<char>> {
    Seq::new(ranges.len(), |i: int| s.subrange(ranges[i].0 as int, ranges[i].1 as int))
}

/// Splits `chars` at every `sep` and returns the bounds of each piece.
pub fn split_ranges(chars: &Vec<char>, sep: char) -> (ranges: Vec<(usize, usize)>)
    ensures
        forall|i: int| 0 <= i < ranges.len() ==> range_in(#[trigger] ranges[i], chars.len() as int),
        pieces(chars@, ranges@) == split_on(chars@, sep),
{
    let ghost s = chars@;
    let mut ranges: Vec<(usize, usize)> = Vec::new();
    let mut start: usize = 0;
    let mut i: usize = 0;
    while i < chars.len()
        invariant
            s == chars@,
            start <= i <= chars.len(),
            forall|k: int| start <= k < i ==> s[k] != sep,
            start > 0 ==> s[start - 1] == sep,
            start == 0 ==> ranges.len() == 0,
            start > 0 ==> pieces(s, ranges@) == split_on(s.take(start - 1), sep),
            forall|j: int| 0 <= j < ranges.len() ==> range_in(#[trigger] ranges[j], s.len() as int),
        decreases chars.len() - i,
    {
        if chars[i] == sep {
            proof {
                let t = s.take(i as int);
                lemma_split_on_last(t, sep, start as int);
                assert(t.skip(start as int) == s.subrange(start as int, i as int));
                if start > 0 {
                    assert(t.take(start - 1) == s.take(start - 1));
                }
                assert(pieces(s, ranges@.push((start, i))) == pieces(s, ranges@).push(
                    s.subrange(start as int, i as int),
                ));
                assert(s.take(i + 1 - 1) == t);
            }
            ranges.push((start, i));
            start = i + 1;
        }
        i += 1;
    }
    proof {
        lemma_split_on_last(s, sep, start as int);
        assert(s.skip(start as int) == s.subrange(start as int, s.len() as int));
        assert(pieces(s, ranges@.push((start, i))) == pieces(s, ranges@).push(
            s.subrange(start as int, s.len() as int),
        ));
        if start == 0 {
            assert(s.subrange(0, s.len() as int) == s);
            assert(pieces(s, ranges@.push((start, i))) == seq![s]);
        }
    }
    ranges.push((start, i));
    ranges
}

/// How many characters to skip at the start of `chars` to strip `prefix`.
pub fn prefix_len(chars: &Vec<char>, prefix: &Vec<char>) -> (n: usize)
    ensures
        n <= chars.len(),
        chars@.skip(n as int) == without_prefix(chars@, prefix@),
        n == (if starts_with(chars@, prefix@) { prefix.len() } else { 0 }),
{
    if prefix.len() > chars.len() {
        assert(chars@.skip(0) == chars@);
        return 0;
    }
    let mut i: usize = 0;
    while i < prefix.len()
        invariant
            i <= prefix.len() <= chars.len(),
            forall|k: int| 0 <= k < i ==> chars@[k] == prefix@[k],
        decreases prefix.len() - i,
    {
        if chars[i] != prefix[i] {
            proof {
                assert(chars@.take(prefix.len() as int)[i as int] == chars@[i as int]);
                assert(chars@.skip(0) == chars@);
            }
            return 0;
        }
        i += 1;
    }
    assert(chars@.take(prefix.len() as int) == prefix@);
    prefix.len()
}

/// Position of the last `c` in `chars[from..]`, if there is one.
pub fn last_position(chars: &Vec<char>, from: usize, c: char) -> (r: Option<usize>)
    requires
        from <= chars.len(),
    ensures
        match r {
            Some(k) => from <= k < chars.len() && last_index_of(chars@.skip(from as int), c) == k
                - from,
            None => last_index_of(chars@.skip(from as int), c) == -1,
        },
{
    let ghost rest = chars@.skip(from as int);
    let mut k: usize = chars.len();
    while k > from
        invariant
            from <= k <= chars.len(),
            rest == chars@.skip(from as int),
            forall|j: int| k <= j < chars.len() ==> chars@[j] != c,
        decreases k,
    {
        k -= 1;
        if chars[k] == c {
            proof {
                lemma_last_index_of(rest, c, k - from);
            }
            return Some(k);
        }
    }
    proof {
        lemma_last_index_of(rest, c, -1);
    }
    None
}

} // verus!
