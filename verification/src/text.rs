//! Strings as sequences of characters: conversions, trimming and lowercasing.

use vstd::prelude::*;

verus! {

/// Whether `c` counts as whitespace: the value of `char::is_whitespace`,
/// which goes by the Unicode property `White_Space`.
pub uninterp spec fn unicode_whitespace(c: char) -> bool;

/// `char::is_whitespace` is a function of the character alone; the contract
/// only gives its result a name.
pub assume_specification[ char::is_whitespace ](c: char) -> (b: bool)
    ensures
        b == unicode_whitespace(c),
;

/// The lowercase form of a string: the value of `str::to_lowercase`, which
/// follows the Unicode case mappings (one character may become several).
pub uninterp spec fn lowercase_of(s: Seq<char>) -> Seq<char>;

/// `str::to_lowercase` returns a new string that depends on the characters
/// of its argument alone; the contract only gives that string a name.
pub assume_specification[ str::to_lowercase ](s: &str) -> (out: String)
    ensures
        out@ == lowercase_of(s@),
;

/// `String::push` appends one character to the end of the string.
pub assume_specification[ String::push ](s: &mut String, c: char)
    ensures
        final(s)@ == old(s)@.push(c),
;

/// The characters of `s`, in order.
pub fn chars_of(s: &str) -> (out: Vec<char>)
    ensures
        out@ == s@,
{
    let mut out: Vec<char> = Vec::new();
    for c in it: s.chars()
        invariant
            out@ == it.seq().take(it.index()),
            it.seq() == s@,
    {
        out.push(c);
    }
    out
}

/// The string made of `chars[from..to]`.
pub fn string_of(chars: &Vec<char>, from: usize, to: usize) -> (out: String)
    requires
        from <= to <= chars.len(),
    ensures
        out@ == chars@.subrange(from as int, to as int),
{
    let mut out = String::new();
    let mut i: usize = from;
    while i < to
        invariant
            from <= i <= to <= chars.len(),
            out@ == chars@.subrange(from as int, i as int),
        decreases to - i,
    {
        out.push(chars[i]);
        i += 1;
        assert(chars@.subrange(from as int, i as int) == chars@.subrange(from as int, i - 1).push(chars@[i - 1]));
    }
    out
}

/// Whether `needle` stands in `hay` at position `at`.
pub open spec fn occurs_at(hay: Seq<char>, needle: Seq<char>, at: int) -> bool {
    0 <= at && at + needle.len() <= hay.len() && hay.subrange(at, at + needle.len()) == needle
}

/// Tests whether `needle` stands in `hay` at position `at`.
pub fn matches_at(hay: &Vec<char>, needle: &Vec<char>, at: usize) -> (found: bool)
    ensures
        found == occurs_at(hay@, needle@, at as int),
{
    if at > hay.len() || needle.len() > hay.len() - at {
        return false;
    }
    let mut k: usize = 0;
    while k < needle.len()
        invariant
            k <= needle.len(),
            at + needle.len() <= hay.len(),
            hay@.subrange(at as int, at + k) == needle@.take(k as int),
        decreases needle.len() - k,
    {
        if hay[at + k] != needle[k] {
            assert(hay@.subrange(at as int, at + needle.len())[k as int] != needle@[k as int]);
            return false;
        }
        assert(hay@.subrange(at as int, at + k + 1) == hay@.subrange(at as int, at + k).push(
            hay@[at + k],
        ));
        assert(needle@.take(k + 1) == needle@.take(k as int).push(needle@[k as int]));
        k += 1;
    }
    assert(needle@.take(k as int) == needle@);
    true
}

/// Tests whether two strings hold the same characters.
pub fn same_text(a: &str, b: &str) -> (same: bool)
    ensures
        same == (a@ == b@),
{
    let a_chars = chars_of(a);
    let b_chars = chars_of(b);
    if a_chars.len() != b_chars.len() {
        return false;
    }
    let same = matches_at(&a_chars, &b_chars, 0);
    assert(a@.subrange(0, a@.len() as int) == a@);
    same
}

/// `s` without its leading whitespace.
pub open spec fn trimmed_start(s: Seq<char>) -> Seq<char>
    decreases s.len(),
{
    if s.len() > 0 && unicode_whitespace(s.first()) {
        trimmed_start(s.drop_first())
    } else {
        s
    }
}

/// `s` without its trailing whitespace.
pub open spec fn trimmed_end(s: Seq<char>) -> Seq<char>
    decreases s.len(),
{
    if s.len() > 0 && unicode_whitespace(s.last()) {
        trimmed_end(s.drop_last())
    } else {
        s
    }
}

/// `s` without its leading and trailing whitespace.
pub open spec fn trimmed(s: Seq<char>) -> Seq<char> {
    trimmed_end(trimmed_start(s))
}

/// For each character of `text`, whether it is whitespace.
pub open spec fn whitespace_marks_of(text: Seq<char>) -> Seq<bool> {
    text.map_values(|c: char| unicode_whitespace(c))
}

/// Whether `from..to` is what trimming keeps of a row with the given marks:
/// all before and all after it is marked, and it is either empty, at the
/// end of a row that is marked throughout, or begins and ends unmarked.
pub open spec fn is_kept_range(blank: Seq<bool>, from: int, to: int) -> bool {
    &&& 0 <= from <= to <= blank.len()
    &&& forall|i: int| 0 <= i < from ==> blank[i]
    &&& forall|i: int| to <= i < blank.len() ==> blank[i]
    &&& from < to ==> !blank[from] && !blank[to - 1]
    &&& from == to ==> from == blank.len()
}

/// A row of marks has one kept range only.
pub proof fn kept_range_is_unique(blank: Seq<bool>, from: int, to: int, from2: int, to2: int)
    requires
        is_kept_range(blank, from, to),
        is_kept_range(blank, from2, to2),
    ensures
        from == from2,
        to == to2,
{
    if from < from2 {
        assert(blank[from]);
    }
    if from2 < from {
        assert(blank[from2]);
    }
    if to < to2 {
        assert(blank[to2 - 1]);
    }
    if to2 < to {
        assert(blank[to - 1]);
    }
}

/// Trimming `text` keeps the kept range of its whitespace marks.
pub proof fn trimmed_is_kept_range(text: Seq<char>, from: int, to: int)
    requires
        is_kept_range(whitespace_marks_of(text), from, to),
    ensures
        trimmed(text) == text.subrange(from, to),
{
    let blank = whitespace_marks_of(text);
    assert forall|i: int| 0 <= i < from implies unicode_whitespace(text[i]) by {
        assert(blank[i]);
    }
    if from < text.len() {
        assert(!blank[from]);
    }
    trimmed_start_skips(text, from);
    let rest = text.skip(from);
    assert forall|i: int| to - from <= i < rest.len() implies unicode_whitespace(rest[i]) by {
        assert(blank[i + from]);
    }
    if from < to {
        assert(!blank[to - 1]);
        assert(rest[to - from - 1] == text[to - 1]);
    }
    trimmed_end_takes(rest, to - from);
    assert(rest.take(to - from) == text.subrange(from, to));
}

/// Where the first `count` characters are whitespace and the next is not,
/// trimming the start drops just those.
proof fn trimmed_start_skips(text: Seq<char>, count: int)
    requires
        0 <= count <= text.len(),
        forall|i: int| 0 <= i < count ==> unicode_whitespace(text[i]),
        count < text.len() ==> !unicode_whitespace(text[count]),
    ensures
        trimmed_start(text) == text.skip(count),
    decreases count,
{
    if count == 0 {
        assert(text.skip(0) == text);
    } else {
        let rest = text.drop_first();
        assert(unicode_whitespace(text[0]));
        assert forall|i: int| 0 <= i < count - 1 implies unicode_whitespace(rest[i]) by {
            assert(rest[i] == text[i + 1]);
        }
        trimmed_start_skips(rest, count - 1);
        assert(rest.skip(count - 1) == text.skip(count));
    }
}

/// Where all from `count` on is whitespace and the character before is
/// not, trimming the end keeps just the first `count` characters.
proof fn trimmed_end_takes(text: Seq<char>, count: int)
    requires
        0 <= count <= text.len(),
        forall|i: int| count <= i < text.len() ==> unicode_whitespace(text[i]),
        0 < count ==> !unicode_whitespace(text[count - 1]),
    ensures
        trimmed_end(text) == text.take(count),
    decreases text.len() - count,
{
    if count == text.len() {
        assert(text.take(count) == text);
    } else {
        let rest = text.drop_last();
        assert(unicode_whitespace(text[text.len() - 1]));
        trimmed_end_takes(rest, count);
        assert(rest.take(count) == text.take(count));
    }
}

/// Marks each character that is whitespace.
pub fn whitespace_marks(chars: &Vec<char>) -> (blank: Vec<bool>)
    ensures
        blank@ == whitespace_marks_of(chars@),
{
    let mut blank: Vec<bool> = Vec::new();
    let mut i: usize = 0;
    while i < chars.len()
        invariant
            i <= chars.len(),
            blank@ == whitespace_marks_of(chars@.take(i as int)),
        decreases chars.len() - i,
    {
        assert(chars@.take(i + 1) == chars@.take(i as int).push(chars@[i as int]));
        blank.push(chars[i].is_whitespace());
        i += 1;
    }
    assert(chars@.take(chars.len() as int) == chars@);
    blank
}

/// Finds what trimming keeps of a row with the given marks.
pub fn kept_range(blank: &Vec<bool>) -> (range: (usize, usize))
    ensures
        is_kept_range(blank@, range.0 as int, range.1 as int),
{
    let mut from: usize = 0;
    while from < blank.len() && blank[from]
        invariant
            from <= blank.len(),
            forall|i: int| 0 <= i < from ==> blank@[i],
        decreases blank.len() - from,
    {
        from += 1;
    }
    let mut to: usize = blank.len();
    while to > from && blank[to - 1]
        invariant
            from <= to <= blank.len(),
            forall|i: int| to <= i < blank.len() ==> blank@[i],
        decreases to - from,
    {
        to -= 1;
    }
    (from, to)
}

/// Removes leading and trailing whitespace.
pub fn trim(text: &str) -> (out: String)
    ensures
        out@ == trimmed(text@),
{
    let chars = chars_of(text);
    let blank = whitespace_marks(&chars);
    let (from, to) = kept_range(&blank);
    proof {
        trimmed_is_kept_range(text@, from as int, to as int);
    }
    string_of(&chars, from, to)
}

} // verus!
