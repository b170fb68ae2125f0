//! Strings as sequences of characters: the vocabulary the rest of the crate
//! states its contracts in, and the few string operations it needs.

use vstd::prelude::*;
use vstd::string::*;

verus! {

/// The characters with the Unicode property `White_Space`.
pub open spec fn is_white_space(c: char) -> bool {
    let u = c as u32;
    ||| 0x09 <= u <= 0x0d
    ||| u == 0x20
    ||| u == 0x85
    ||| u == 0xa0
    ||| u == 0x1680
    ||| 0x2000 <= u <= 0x200a
    ||| u == 0x2028
    ||| u == 0x2029
    ||| u == 0x202f
    ||| u == 0x205f
    ||| u == 0x3000
}

/// How many white-space characters `s` begins with.
pub open spec fn leading_white_space(s: Seq<char>) -> nat
    decreases s.len(),
{
    if s.len() > 0 && is_white_space(s[0]) {
        1 + leading_white_space(s.drop_first())
    } else {
        0
    }
}

/// How many white-space characters `s` ends with.
pub open spec fn trailing_white_space(s: Seq<char>) -> nat
    decreases s.len(),
{
    if s.len() > 0 && is_white_space(s.last()) {
        1 + trailing_white_space(s.drop_last())
    } else {
        0
    }
}

/// `s` without the white space it begins and ends with.
pub open spec fn trimmed(s: Seq<char>) -> Seq<char> {
    let rest = s.skip(leading_white_space(s) as int);
    rest.take(rest.len() - trailing_white_space(rest))
}

/// A text of white space only is white space from its start to its end.
pub proof fn lemma_blank_text_is_all_leading(s: Seq<char>)
    requires
        forall|i: int| 0 <= i < s.len() ==> is_white_space(#[trigger] s[i]),
    ensures
        leading_white_space(s) == s.len(),
        trimmed(s) == Seq::<char>::empty(),
    decreases s.len(),
{
    if s.len() > 0 {
        let rest = s.drop_first();
        assert forall|i: int| 0 <= i < rest.len() implies is_white_space(#[trigger] rest[i]) by {
            assert(rest[i] == s[i + 1]);
        }
        lemma_blank_text_is_all_leading(rest);
    }
    assert(s.skip(s.len() as int) == Seq::<char>::empty());
    assert(Seq::<char>::empty().take(0) == Seq::<char>::empty());
}

/// `needle` stands in `hay` at position `at`.
pub open spec fn occurs_at(hay: Seq<char>, needle: Seq<char>, at: int) -> bool {
    0 <= at && at + needle.len() <= hay.len() && hay.subrange(at, at + needle.len()) == needle
}

/// `needle` stands somewhere in `hay` as a contiguous run of characters.
pub open spec fn is_substring(needle: Seq<char>, hay: Seq<char>) -> bool {
    exists|at: int| occurs_at(hay, needle, at)
}

/// The position of the first `c` in `s`, or `s.len()` where there is none.
pub open spec fn first_index_of(s: Seq<char>, c: char) -> int
    decreases s.len(),
{
    if s.len() == 0 || s[0] == c {
        0
    } else {
        1 + first_index_of(s.drop_first(), c)
    }
}

/// The pieces of `s` between occurrences of `sep`. There is always at least
/// one piece, and a piece is empty where two separators touch or one stands
/// at either end.
pub open spec fn split_on(s: Seq<char>, sep: char) -> Seq<Seq<char>>
    decreases s.len(),
{
    let i = first_index_of(s, sep);
    if 0 <= i < s.len() {
        seq![s.take(i)] + split_on(s.skip(i + 1), sep)
    } else {
        seq![s]
    }
}

/// The first `c` of a text stands within the text or, where there is none,
/// at its end.
pub proof fn lemma_first_index_bounds(s: Seq<char>, c: char)
    ensures
        0 <= first_index_of(s, c) <= s.len(),
    decreases s.len(),
{
    if s.len() > 0 && s[0] != c {
        lemma_first_index_bounds(s.drop_first(), c);
    }
}

/// A text has at most one piece more than it has characters.
pub proof fn lemma_split_len(s: Seq<char>, sep: char)
    ensures
        1 <= split_on(s, sep).len() <= s.len() + 1,
    decreases s.len(),
{
    let i = first_index_of(s, sep);
    lemma_first_index_bounds(s, sep);
    if i < s.len() {
        lemma_split_len(s.skip(i + 1), sep);
    }
}

/// `str::trim`: the slice without leading and trailing white space, where
/// white space is what Unicode gives the property `White_Space`.
#[verifier::external_body]
pub(crate) fn str_trim(s: &str) -> (r: &str)
    ensures
        r@ == trimmed(s@),
{
    s.trim()
}

/// `str::contains` with a string pattern: whether the pattern matches a
/// sub-slice of the string.
#[verifier::external_body]
pub(crate) fn str_contains(hay: &str, needle: &str) -> (r: bool)
    ensures
        r == is_substring(needle@, hay@),
{
    hay.contains(needle)
}

/// `str::starts_with` with a string pattern: whether the pattern matches a
/// prefix of the string.
#[verifier::external_body]
pub(crate) fn str_starts_with(s: &str, prefix: &str) -> (r: bool)
    ensures
        r == prefix@.is_prefix_of(s@),
{
    s.starts_with(prefix)
}

/// `str::ends_with` with a string pattern: whether the pattern matches a
/// suffix of the string.
#[verifier::external_body]
pub(crate) fn str_ends_with(s: &str, suffix: &str) -> (r: bool)
    ensures
        r == suffix@.is_suffix_of(s@),
{
    s.ends_with(suffix)
}

/// `String::push`: appends one character to the end of the string.
#[verifier::external_body]
pub(crate) fn push_char(s: &mut String, c: char)
    ensures
        final(s)@ == old(s)@.push(c),
{
    s.push(c)
}

/// `String::pop`: removes the last character and returns it, or returns
/// `None` and leaves the string alone where it is empty.
#[verifier::external_body]
pub(crate) fn pop_char(s: &mut String) -> (r: Option<char>)
    ensures
        old(s)@.len() == 0 ==> r is None && final(s)@ == old(s)@,
        old(s)@.len() > 0 ==> r == Some(old(s)@.last()) && final(s)@ == old(s)@.drop_last(),
{
    s.pop()
}

/// The characters of a string, in order.
pub fn chars_of(s: &str) -> (v: Vec<char>)
    ensures
        v@ == s@,
{
    let mut v: Vec<char> = Vec::new();
    for c in it: s.chars()
        invariant
            v@ == it.seq().take(it.index()),
            it.seq() == s@,
    {
        v.push(c);
    }
    v
}

/// The string made of the characters `chars[from..to]`.
pub fn string_of(chars: &Vec<char>, from: usize, to: usize) -> (s: String)
    requires
        from <= to <= chars.len(),
    ensures
        s@ == chars@.subrange(from as int, to as int),
{
    let mut s = String::new();
    let mut i: usize = from;
    while i < to
        invariant
            from <= i <= to <= chars.len(),
            s@ == chars@.subrange(from as int, i as int),
        decreases to - i,
    {
        push_char(&mut s, chars[i]);
        i += 1;
    }
    s
}

/// Where no `sep` stands in `s[start..i]`, the first `sep` of `s.skip(start)`
/// is at `i - start` if `s[i]` is one, and there is none if `i` is the end.
proof fn lemma_first_index_from(s: Seq<char>, sep: char, start: int, i: int)
    requires
        0 <= start <= i <= s.len(),
        forall|k: int| start <= k < i ==> s[k] != sep,
        i == s.len() || s[i] == sep,
    ensures
        first_index_of(s.skip(start), sep) == i - start,
    decreases i - start,
{
    let t = s.skip(start);
    if start < i {
        assert(t[0] == s[start]);
        assert(t.drop_first() == s.skip(start + 1));
        lemma_first_index_from(s, sep, start + 1, i);
    } else if i < s.len() {
        assert(t[0] == s[i]);
    }
}

/// Splits `s` at every occurrence of `sep`.
pub fn split_chars(s: &str, sep: char) -> (pieces: Vec<String>)
    ensures
        pieces.deep_view() == split_on(s@, sep),
{
    let chars = chars_of(s);
    let mut pieces: Vec<String> = Vec::new();
    let mut start: usize = 0;
    let mut i: usize = 0;
    proof {
        assert(s@.skip(0) == s@);
        assert(pieces.deep_view() + split_on(s@, sep) == split_on(s@, sep));
    }
    while i < chars.len()
        invariant
            chars@ == s@,
            start <= i <= chars.len(),
            forall|k: int| start <= k < i ==> chars@[k] != sep,
            split_on(s@, sep) == pieces.deep_view() + split_on(s@.skip(start as int), sep),
        decreases chars.len() - i,
    {
        if chars[i] == sep {
            let piece = string_of(&chars, start, i);
            proof {
                lemma_first_index_from(s@, sep, start as int, i as int);
                let rest = s@.skip(start as int);
                assert(rest.take(i - start) == s@.subrange(start as int, i as int));
                assert(rest.skip(i - start + 1) == s@.skip(i + 1));
                assert(pieces.deep_view().push(piece@) + split_on(s@.skip(i + 1), sep)
                    == pieces.deep_view() + (seq![piece@] + split_on(s@.skip(i + 1), sep)));
            }
            let ghost before = pieces.deep_view();
            pieces.push(piece);
            assert(pieces.deep_view() == before.push(piece@));
            start = i + 1;
        }
        i += 1;
    }
    let last = string_of(&chars, start, i);
    proof {
        lemma_first_index_from(s@, sep, start as int, i as int);
        assert(s@.skip(start as int) == s@.subrange(start as int, i as int));
    }
    let ghost before = pieces.deep_view();
    pieces.push(last);
    assert(pieces.deep_view() == before.push(last@));
    assert(before.push(last@) == before + seq![last@]);
    pieces
}

/// How often `c` stands in `s`.
pub open spec fn count_of(s: Seq<char>, c: char) -> nat
    decreases s.len(),
{
    if s.len() == 0 {
        0
    } else {
        count_of(s.drop_last(), c) + if s.last() == c {
            1nat
        } else {
            0nat
        }
    }
}

/// The number of lines of a text: every line feed ends a line, and what
/// follows the last line feed is a line if it is not empty.
pub open spec fn line_count(s: Seq<char>) -> nat {
    count_of(s, '\n') + if s.len() > 0 && s.last() != '\n' {
        1nat
    } else {
        0nat
    }
}

/// Counts the lines of a text.
pub fn count_lines(s: &str) -> (n: usize)
    ensures
        n == line_count(s@),
{
    let chars = chars_of(s);
    let mut feeds: usize = 0;
    let mut i: usize = 0;
    while i < chars.len()
        invariant
            chars@ == s@,
            i <= chars.len(),
            feeds <= i,
            feeds == count_of(chars@.take(i as int), '\n'),
        decreases chars.len() - i,
    {
        assert(chars@.take(i + 1).drop_last() == chars@.take(i as int));
        if chars[i] == '\n' {
            feeds += 1;
        }
        i += 1;
    }
    assert(chars@.take(i as int) == chars@);
    if chars.len() > 0 && chars[chars.len() - 1] != '\n' {
        // The last character is no line feed, so fewer line feeds than characters.
        assert(feeds < chars.len()) by {
            assert(chars@.drop_last() == chars@.take(chars.len() - 1));
            lemma_count_at_most_len(chars@.drop_last(), '\n');
        }
        feeds + 1
    } else {
        feeds
    }
}

/// A character stands in a text no more often than the text is long.
proof fn lemma_count_at_most_len(s: Seq<char>, c: char)
    ensures
        count_of(s, c) <= s.len(),
    decreases s.len(),
{
    if s.len() > 0 {
        lemma_count_at_most_len(s.drop_last(), c);
    }
}

/// The ten digits.
pub open spec fn digits() -> Seq<char> {
    seq!['0', '1', '2', '3', '4', '5', '6', '7', '8', '9']
}

/// A number written in decimal, without leading zeros.
pub open spec fn decimal(n: nat) -> Seq<char>
    decreases n,
{
    if n < 10 {
        seq![digits()[n as int]]
    } else {
        decimal(n / 10).push(digits()[(n % 10) as int])
    }
}

/// The digit for a number below ten.
fn digit(d: usize) -> (c: char)
    requires
        d < 10,
    ensures
        c == digits()[d as int],
{
    if d == 0 {
        '0'
    } else if d == 1 {
        '1'
    } else if d == 2 {
        '2'
    } else if d == 3 {
        '3'
    } else if d == 4 {
        '4'
    } else if d == 5 {
        '5'
    } else if d == 6 {
        '6'
    } else if d == 7 {
        '7'
    } else if d == 8 {
        '8'
    } else {
        '9'
    }
}

/// Appends `n`, written in decimal, to `s`.
pub fn push_decimal(s: &mut String, n: usize)
    ensures
        final(s)@ == old(s)@ + decimal(n as nat),
    decreases n,
{
    if n >= 10 {
        push_decimal(s, n / 10);
    }
    push_char(s, digit(n % 10));
}

/// `n` written in decimal.
pub fn decimal_string(n: usize) -> (s: String)
    ensures
        s@ == decimal(n as nat),
{
    let mut s = String::new();
    push_decimal(&mut s, n);
    assert(Seq::<char>::empty() + decimal(n as nat) == decimal(n as nat));
    s
}

/// `s` cut into pieces of `width` characters, the last one shorter where
/// the length is no multiple of `width`. The empty text has no pieces.
pub open spec fn chunks_of(s: Seq<char>, width: nat) -> Seq<Seq<char>>
    decreases s.len(),
{
    if width == 0 || s.len() == 0 {
        Seq::empty()
    } else if s.len() <= width {
        seq![s]
    } else {
        seq![s.take(width as int)] + chunks_of(s.skip(width as int), width)
    }
}

/// Cuts `s` into pieces of `width` characters.
pub fn wrap_chars(s: &str, width: usize) -> (pieces: Vec<String>)
    requires
        width > 0,
    ensures
        pieces.deep_view() == chunks_of(s@, width as nat),
{
    let chars = chars_of(s);
    let mut pieces: Vec<String> = Vec::new();
    let mut start: usize = 0;
    proof {
        assert(s@.skip(0) == s@);
        assert(pieces.deep_view() + chunks_of(s@, width as nat) == chunks_of(s@, width as nat));
    }
    while start < chars.len()
        invariant
            chars@ == s@,
            width > 0,
            start <= chars.len(),
            chunks_of(s@, width as nat) == pieces.deep_view() + chunks_of(
                s@.skip(start as int),
                width as nat,
            ),
        decreases chars.len() - start,
    {
        let end = if chars.len() - start <= width {
            chars.len()
        } else {
            start + width
        };
        let piece = string_of(&chars, start, end);
        let ghost before = pieces.deep_view();
        let ghost rest = s@.skip(start as int);
        proof {
            assert(rest.take(end - start) == s@.subrange(start as int, end as int));
            assert(rest.skip(end - start) == s@.skip(end as int));
            if end == chars.len() {
                assert(rest.take(end - start) == rest);
                assert(chunks_of(s@.skip(end as int), width as nat) == Seq::<Seq<char>>::empty());
            }
            assert(before.push(piece@) + chunks_of(s@.skip(end as int), width as nat) == before + (
            seq![piece@] + chunks_of(s@.skip(end as int), width as nat)));
        }
        pieces.push(piece);
        assert(pieces.deep_view() == before.push(piece@));
        start = end;
    }
    assert(pieces.deep_view() + Seq::<Seq<char>>::empty() == pieces.deep_view());
    pieces
}

/// A pair of colons begins at position `k` of `s`.
pub open spec fn separator_at(s: Seq<char>, k: int) -> bool {
    0 <= k && k + 1 < s.len() && s[k] == ':' && s[k + 1] == ':'
}

/// Where the first pair of colons stands in `s`, or `s.len()` where there
/// is none.
pub open spec fn first_separator(s: Seq<char>) -> int
    decreases s.len(),
{
    if s.len() == 0 || separator_at(s, 0) {
        0
    } else {
        1 + first_separator(s.drop_first())
    }
}

/// What stands before the first pair of colons in `s`; all of `s` where
/// there is none.
pub open spec fn before_separator(s: Seq<char>) -> Seq<char> {
    s.take(first_separator(s))
}

/// Where no pair of colons begins before `i`, the first one of all of `s`
/// is where the first one of `s.skip(i)` is.
proof fn lemma_first_separator_from(s: Seq<char>, i: int)
    requires
        0 <= i <= s.len(),
        forall|k: int| 0 <= k < i ==> !#[trigger] separator_at(s, k),
    ensures
        first_separator(s) == i + first_separator(s.skip(i)),
    decreases i,
{
    if i > 0 {
        lemma_first_separator_from(s, i - 1);
        let t = s.skip(i - 1);
        assert(t.drop_first() == s.skip(i));
        assert(separator_at(t, 0) == separator_at(s, i - 1));
    } else {
        assert(s.skip(0) == s);
    }
}

/// The part of `s` before its first pair of colons.
pub fn text_before_separator(s: &str) -> (r: String)
    ensures
        r@ == before_separator(s@),
{
    let chars = chars_of(s);
    let mut i: usize = 0;
    while i < chars.len() && !(i + 1 < chars.len() && chars[i] == ':' && chars[i + 1] == ':')
        invariant
            chars@ == s@,
            i <= chars.len(),
            forall|k: int| 0 <= k < i ==> !#[trigger] separator_at(s@, k),
        decreases chars.len() - i,
    {
        assert(!separator_at(s@, i as int));
        i += 1;
    }
    proof {
        lemma_first_separator_from(s@, i as int);
        let t = s@.skip(i as int);
        assert(separator_at(t, 0) == separator_at(s@, i as int));
        assert(s@.take(i as int) == s@.subrange(0, i as int));
    }
    string_of(&chars, 0, i)
}

} // verus!
