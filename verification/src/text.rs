//! Text handling on sequences of characters: white space, trimming,
//! splitting at a separator, and comparison with a keyword.
//!
//! A log is held as a slice of `char`s, so that every position in it is
//! reached in constant time; the model of such a slice is its `Seq<char>`.

use vstd::prelude::*;
use vstd::slice::slice_subrange;

verus! {

/// The characters with the Unicode property `White_Space`.
pub open spec fn is_space(c: char) -> bool {
    ||| '\u{9}' <= c <= '\u{d}'
    ||| c == ' '
    ||| c == '\u{85}'
    ||| c == '\u{a0}'
    ||| c == '\u{1680}'
    ||| '\u{2000}' <= c <= '\u{200a}'
    ||| c == '\u{2028}'
    ||| c == '\u{2029}'
    ||| c == '\u{202f}'
    ||| c == '\u{205f}'
    ||| c == '\u{3000}'
}

/// `s` without the white space it begins with.
pub open spec fn trimmed_start(s: Seq<char>) -> Seq<char>
    decreases s.len(),
{
    if s.len() > 0 && is_space(s[0]) {
        trimmed_start(s.drop_first())
    } else {
        s
    }
}

/// `s` without the white space it ends with.
pub open spec fn trimmed_end(s: Seq<char>) -> Seq<char>
    decreases s.len(),
{
    if s.len() > 0 && is_space(s.last()) {
        trimmed_end(s.drop_last())
    } else {
        s
    }
}

/// `s` without the white space at either end.
pub open spec fn trimmed(s: Seq<char>) -> Seq<char> {
    trimmed_end(trimmed_start(s))
}

/// Whether `s` holds nothing but white space.
pub open spec fn is_blank(s: Seq<char>) -> bool {
    forall|i: int| 0 <= i < s.len() ==> is_space(#[trigger] s[i])
}

/// The index of the first `c` in `s`, or the length of `s` where it holds none.
pub open spec fn position(s: Seq<char>, c: char) -> int
    decreases s.len(),
{
    if s.len() == 0 || s[0] == c {
        0
    } else {
        1 + position(s.drop_first(), c)
    }
}

/// The pieces of `s` between the occurrences of `sep`, in order. There is
/// one piece more than there are separators, so at least one; a piece is
/// empty where two separators meet or where `s` begins or ends with one.
pub open spec fn pieces(s: Seq<char>, sep: char) -> Seq<Seq<char>>
    decreases s.len(),
{
    let i = position(s, sep);
    if 0 <= i < s.len() {
        seq![s.take(i)] + pieces(s.skip(i + 1), sep)
    } else {
        seq![s]
    }
}

/// The parts put together again, with `sep` between one and the next.
pub open spec fn rejoined(parts: Seq<Seq<char>>, sep: char) -> Seq<char>
    decreases parts.len(),
{
    if parts.len() == 0 {
        Seq::empty()
    } else if parts.len() == 1 {
        parts[0]
    } else {
        parts[0] + seq![sep] + rejoined(parts.drop_first(), sep)
    }
}

/// The fields of a line: its pieces between commas, each one trimmed.
pub open spec fn fields(line: Seq<char>) -> Seq<Seq<char>> {
    pieces(line, ',').map_values(|piece: Seq<char>| trimmed(piece))
}

/// The rows of a text: the fields of each of its lines, a line ending at
/// each line feed. A carriage return before the line feed is white space at
/// the end of the last field, and trimmed away with it.
pub open spec fn rows(text: Seq<char>) -> Seq<Seq<Seq<char>>> {
    pieces(text, '\n').map_values(|line: Seq<char>| fields(line))
}

/// What a vector of slices holds, each slice taken by its view.
pub open spec fn texts(parts: Seq<&[char]>) -> Seq<Seq<char>> {
    parts.map_values(|part: &[char]| part@)
}

/// Where the first `i` characters of `s` are not `c`, and the next one is
/// `c` or `s` ends there, `i` is the position of `c` in `s`.
pub proof fn lemma_position(s: Seq<char>, c: char, i: int)
    requires
        0 <= i <= s.len(),
        forall|j: int| 0 <= j < i ==> s[j] != c,
        i < s.len() ==> s[i] == c,
    ensures
        position(s, c) == i,
    decreases i,
{
    if i > 0 {
        lemma_position(s.drop_first(), c, i - 1);
    }
}

/// Splitting loses nothing and leaves no separator behind: there is at
/// least one piece, no piece holds the separator, and the pieces put
/// together again with the separator between them are `s`.
pub proof fn lemma_pieces(s: Seq<char>, sep: char)
    ensures
        pieces(s, sep).len() >= 1,
        forall|k: int|
            0 <= k < pieces(s, sep).len() ==> !(#[trigger] pieces(s, sep)[k]).contains(sep),
        rejoined(pieces(s, sep), sep) == s,
    decreases s.len(),
{
    let i = position(s, sep);
    lemma_position_is_first(s, sep);
    if 0 <= i < s.len() {
        let rest = pieces(s.skip(i + 1), sep);
        let all = pieces(s, sep);
        lemma_pieces(s.skip(i + 1), sep);
        assert(all.drop_first() =~= rest);
    }
}

/// The position of `c` in `s` lies within `s` or at its end, no character
/// before it is `c`, and the character at it, where there is one, is `c`.
pub proof fn lemma_position_is_first(s: Seq<char>, c: char)
    ensures
        0 <= position(s, c) <= s.len(),
        forall|j: int| 0 <= j < position(s, c) ==> s[j] != c,
        position(s, c) < s.len() ==> s[position(s, c)] == c,
    decreases s.len(),
{
    if !(s.len() == 0 || s[0] == c) {
        let rest = s.drop_first();
        lemma_position_is_first(rest, c);
        assert forall|j: int| 0 <= j < position(s, c) implies s[j] != c by {
            if j > 0 {
                assert(s[j] == rest[j - 1]);
            }
        }
    }
}

/// Trimming at the start takes white space away and nothing else: `s` is
/// what was taken, which is blank, followed by what is left, which does not
/// begin with white space.
pub proof fn lemma_trimmed_start_parts(s: Seq<char>) -> (before: Seq<char>)
    ensures
        s == before + trimmed_start(s),
        is_blank(before),
        trimmed_start(s).len() > 0 ==> !is_space(trimmed_start(s).first()),
    decreases s.len(),
{
    if s.len() > 0 && is_space(s[0]) {
        let rest = s.drop_first();
        let inner = lemma_trimmed_start_parts(rest);
        let before = seq![s[0]] + inner;
        assert(seq![s[0]] + (inner + trimmed_start(rest)) =~= before + trimmed_start(rest));
        before
    } else {
        Seq::empty()
    }
}

/// Trimming at the end takes white space away and nothing else: `s` is
/// what is left, which does not end with white space, followed by what was
/// taken, which is blank.
pub proof fn lemma_trimmed_end_parts(s: Seq<char>) -> (after: Seq<char>)
    ensures
        s == trimmed_end(s) + after,
        is_blank(after),
        trimmed_end(s).len() > 0 ==> !is_space(trimmed_end(s).last()),
    decreases s.len(),
{
    if s.len() > 0 && is_space(s.last()) {
        let init = s.drop_last();
        let inner = lemma_trimmed_end_parts(init);
        let after = inner.push(s.last());
        assert((trimmed_end(init) + inner).push(s.last()) =~= trimmed_end(init) + after);
        after
    } else {
        Seq::empty()
    }
}

/// Trimming takes white space away from both ends and nothing else: `s` is
/// a blank part, then the trimmed text, then another blank part, and the
/// trimmed text neither begins nor ends with white space.
pub proof fn lemma_trimmed(s: Seq<char>) -> (ends: (Seq<char>, Seq<char>))
    ensures
        s == ends.0 + trimmed(s) + ends.1,
        is_blank(ends.0),
        is_blank(ends.1),
        trimmed(s).len() > 0 ==> !is_space(trimmed(s).first()) && !is_space(trimmed(s).last()),
{
    let before = lemma_trimmed_start_parts(s);
    let after = lemma_trimmed_end_parts(trimmed_start(s));
    (before, after)
}

proof fn lemma_trimmed_start(s: Seq<char>, a: int)
    requires
        0 <= a <= s.len(),
        forall|j: int| 0 <= j < a ==> is_space(s[j]),
        a < s.len() ==> !is_space(s[a]),
    ensures
        trimmed_start(s) == s.skip(a),
    decreases a,
{
    if a > 0 {
        lemma_trimmed_start(s.drop_first(), a - 1);
    }
}

proof fn lemma_trimmed_end(s: Seq<char>, b: int)
    requires
        0 <= b <= s.len(),
        forall|j: int| b <= j < s.len() ==> is_space(s[j]),
        b > 0 ==> !is_space(s[b - 1]),
    ensures
        trimmed_end(s) == s.take(b),
    decreases s.len() - b,
{
    if b < s.len() {
        lemma_trimmed_end(s.drop_last(), b);
    }
}

/// Whether `c` is white space.
pub fn is_whitespace(c: char) -> (r: bool)
    ensures
        r == is_space(c),
{
    ('\u{9}' <= c && c <= '\u{d}') || c == ' ' || c == '\u{85}' || c == '\u{a0}' || c == '\u{1680}'
        || ('\u{2000}' <= c && c <= '\u{200a}') || c == '\u{2028}' || c == '\u{2029}' || c
        == '\u{202f}' || c == '\u{205f}' || c == '\u{3000}'
}

/// The part of `s` that is left when the white space at both ends is taken
/// away.
pub fn trim<'a>(s: &'a [char]) -> (r: &'a [char])
    ensures
        r@ == trimmed(s@),
{
    let mut a: usize = 0;
    while a < s.len() && is_whitespace(s[a])
        invariant
            a <= s.len(),
            forall|j: int| 0 <= j < a ==> is_space(s@[j]),
        decreases s.len() - a,
    {
        a += 1;
    }
    let mut b: usize = s.len();
    while b > a && is_whitespace(s[b - 1])
        invariant
            a <= b <= s.len(),
            forall|j: int| b <= j < s.len() ==> is_space(s@[j]),
        decreases b,
    {
        b -= 1;
    }
    proof {
        lemma_trimmed_start(s@, a as int);
        lemma_trimmed_end(s@.skip(a as int), b - a);
    }
    slice_subrange(s, a, b)
}

/// The pieces of `s` between the occurrences of `sep`.
pub fn split<'a>(s: &'a [char], sep: char) -> (parts: Vec<&'a [char]>)
    ensures
        texts(parts@) == pieces(s@, sep),
{
    let mut parts: Vec<&'a [char]> = Vec::new();
    let mut start: usize = 0;
    let mut i: usize = 0;
    proof {
        assert(s@.skip(0) =~= s@);
    }
    while i < s.len()
        invariant
            start <= i <= s.len(),
            forall|j: int| start <= j < i ==> s@[j] != sep,
            texts(parts@) + pieces(s@.skip(start as int), sep) == pieces(s@, sep),
        decreases s.len() - i,
    {
        if s[i] == sep {
            let part = slice_subrange(s, start, i);
            proof {
                let tail = s@.skip(start as int);
                lemma_position(tail, sep, i - start);
                assert(tail.take(i - start) =~= part@);
                assert(tail.skip(i - start + 1) =~= s@.skip(i + 1));
            }
            parts.push(part);
            start = i + 1;
        }
        i += 1;
    }
    let part = slice_subrange(s, start, s.len());
    proof {
        let tail = s@.skip(start as int);
        lemma_position(tail, sep, tail.len() as int);
    }
    parts.push(part);
    parts
}

/// The fields of a line: its pieces between commas, each one trimmed.
pub fn split_fields<'a>(line: &'a [char]) -> (r: Vec<&'a [char]>)
    ensures
        texts(r@) == fields(line@),
{
    let parts = split(line, ',');
    let mut r: Vec<&'a [char]> = Vec::new();
    let mut i: usize = 0;
    while i < parts.len()
        invariant
            i <= parts.len(),
            texts(parts@) == pieces(line@, ','),
            r@.len() == i,
            forall|k: int| 0 <= k < i ==> (#[trigger] r@[k])@ == trimmed(parts@[k]@),
        decreases parts.len() - i,
    {
        r.push(trim(parts[i]));
        i += 1;
    }
    assert(texts(r@) =~= fields(line@));
    r
}

/// Whether `s` holds exactly the characters of `keyword`.
pub fn same_text(s: &[char], keyword: &str) -> (r: bool)
    ensures
        r == (s@ == keyword@),
{
    let mut i: usize = 0;
    for c in it: keyword.chars()
        invariant
            i == it.index(),
            i <= s.len(),
            it.seq() == keyword@,
            s@.take(i as int) == keyword@.take(i as int),
    {
        if i >= s.len() || s[i] != c {
            return false;
        }
        i += 1;
    }
    proof {
        assert(keyword@.take(i as int) =~= keyword@);
        if i == s.len() {
            assert(s@.take(i as int) =~= s@);
        }
    }
    i == s.len()
}

/// The characters of `s`, one element each.
pub fn chars_of(s: &str) -> (v: Vec<char>)
    ensures
        v@ == s@,
{
    let mut v: Vec<char> = Vec::new();
    for c in it: s.chars()
        invariant
            v@ == it.seq().take(it.index() as int),
    {
        v.push(c);
    }
    v
}

/// `String::push` appends the character to the end of the string.
pub assume_specification[ String::push ](s: &mut String, c: char)
    ensures
        final(s)@ == old(s)@.push(c),
;

/// A string of the characters of `s`.
pub fn string_of(s: &[char]) -> (r: String)
    ensures
        r@ == s@,
{
    let mut r = String::new();
    let mut i: usize = 0;
    while i < s.len()
        invariant
            i <= s.len(),
            r@ == s@.take(i as int),
        decreases s.len() - i,
    {
        r.push(s[i]);
        i += 1;
    }
    r
}

} // verus!
