//! Finding and replacing a substring.

use crate::text::{chars_of, matches_at, occurs_at};
use vstd::prelude::*;

verus! {

/// Whether `needle` stands somewhere in `hay`.
pub open spec fn occurs_in(hay: Seq<char>, needle: Seq<char>) -> bool {
    exists|at: int| occurs_at(hay, needle, at)
}

/// `hay` with `with` before each of its characters and after the last.
pub open spec fn interleaved(hay: Seq<char>, with: Seq<char>) -> Seq<char>
    decreases hay.len(),
{
    if hay.len() == 0 {
        with
    } else {
        with + seq![hay.first()] + interleaved(hay.drop_first(), with)
    }
}

/// `hay` with every occurrence of `needle` replaced by `with`, found from
/// left to right without overlap. An empty `needle` occurs before each
/// character and at the end.
pub open spec fn replaced(hay: Seq<char>, needle: Seq<char>, with: Seq<char>) -> Seq<char>
    decreases hay.len(),
{
    if needle.len() == 0 {
        interleaved(hay, with)
    } else if hay.len() == 0 {
        hay
    } else if occurs_at(hay, needle, 0) {
        with + replaced(hay.skip(needle.len() as int), needle, with)
    } else {
        seq![hay.first()] + replaced(hay.drop_first(), needle, with)
    }
}

/// An occurrence in a suffix of `hay` is an occurrence in `hay`, shifted.
pub proof fn occurrence_in_suffix(hay: Seq<char>, needle: Seq<char>, from: int, at: int)
    requires
        0 <= from <= hay.len(),
        0 <= at,
    ensures
        occurs_at(hay.skip(from), needle, at) == occurs_at(hay, needle, from + at),
{
    if at + needle.len() <= hay.len() - from {
        assert(hay.skip(from).subrange(at, at + needle.len()) == hay.subrange(
            from + at,
            from + at + needle.len(),
        ));
    }
}

/// Where `needle` stands nowhere in `hay`, replacing it changes nothing.
pub proof fn replaced_without_occurrence(hay: Seq<char>, needle: Seq<char>, with: Seq<char>)
    requires
        !occurs_in(hay, needle),
    ensures
        replaced(hay, needle, with) == hay,
    decreases hay.len(),
{
    if needle.len() == 0 {
        assert(hay.subrange(0, 0) =~= needle);
        assert(occurs_at(hay, needle, 0));
    }
    if hay.len() > 0 {
        assert(!occurs_at(hay, needle, 0));
        assert forall|at: int| !occurs_at(hay.drop_first(), needle, at) by {
            if 0 <= at {
                occurrence_in_suffix(hay, needle, 1, at);
            }
            assert(!occurs_at(hay, needle, 1 + at));
        }
        replaced_without_occurrence(hay.drop_first(), needle, with);
        assert(seq![hay.first()] + hay.drop_first() == hay);
    }
}

/// Where `needle` stands in `hay` at `at` and nowhere else, replacing it
/// gives what stands before `at`, then `with`, then what stands after the
/// occurrence, both unchanged.
pub proof fn replaced_single_occurrence(
    hay: Seq<char>,
    needle: Seq<char>,
    with: Seq<char>,
    at: int,
)
    requires
        occurs_at(hay, needle, at),
        forall|other: int| other != at ==> !occurs_at(hay, needle, other),
    ensures
        replaced(hay, needle, with) == hay.take(at) + with + hay.skip(at + needle.len()),
    decreases at,
{
    if needle.len() == 0 {
        assert(hay.subrange(0, 0) =~= needle);
        assert(hay.subrange(hay.len() as int, hay.len() as int) =~= needle);
        assert(occurs_at(hay, needle, 0) && occurs_at(hay, needle, hay.len() as int));
        assert(hay.take(0) + with + hay.skip(0) == with);
    } else if at == 0 {
        let rest = hay.skip(needle.len() as int);
        assert forall|k: int| !occurs_at(rest, needle, k) by {
            if 0 <= k {
                occurrence_in_suffix(hay, needle, needle.len() as int, k);
                assert(!occurs_at(hay, needle, needle.len() + k));
            }
        }
        replaced_without_occurrence(rest, needle, with);
        assert(hay.take(0) + with + rest == with + rest);
    } else {
        let tail = hay.drop_first();
        assert(!occurs_at(hay, needle, 0));
        occurrence_in_suffix(hay, needle, 1, at - 1);
        assert forall|other: int| other != at - 1 implies !occurs_at(tail, needle, other) by {
            if 0 <= other {
                occurrence_in_suffix(hay, needle, 1, other);
            }
            assert(!occurs_at(hay, needle, 1 + other));
        }
        replaced_single_occurrence(tail, needle, with, at - 1);
        assert(seq![hay.first()] + tail.take(at - 1) == hay.take(at));
        assert(tail.skip(at - 1 + needle.len()) == hay.skip(at + needle.len()));
        assert(seq![hay.first()] + (tail.take(at - 1) + with + tail.skip(at - 1 + needle.len()))
            == hay.take(at) + with + hay.skip(at + needle.len()));
    }
}

/// Tests whether `needle` stands somewhere in `hay`.
pub fn contains(hay: &str, needle: &str) -> (found: bool)
    ensures
        found == occurs_in(hay@, needle@),
{
    let hay_chars = chars_of(hay);
    let needle_chars = chars_of(needle);
    let mut at: usize = 0;
    loop
        invariant
            at <= hay_chars.len(),
            hay_chars@ == hay@,
            needle_chars@ == needle@,
            forall|j: int| 0 <= j < at ==> !occurs_at(hay@, needle@, j),
        decreases hay_chars.len() - at,
    {
        if matches_at(&hay_chars, &needle_chars, at) {
            return true;
        }
        if at == hay_chars.len() {
            return false;
        }
        at += 1;
    }
}

/// Replaces every occurrence of `needle` in `hay` by `with`.
pub fn replace_all(hay: &str, needle: &str, with: &str) -> (out: String)
    ensures
        out@ == replaced(hay@, needle@, with@),
{
    let hay_chars = chars_of(hay);
    let needle_chars = chars_of(needle);
    let mut out = String::new();
    let mut at: usize = 0;
    assert(hay@.skip(0) == hay@);
    if needle_chars.len() == 0 {
        while at < hay_chars.len()
            invariant
                at <= hay_chars.len(),
                hay_chars@ == hay@,
                out@ + interleaved(hay@.skip(at as int), with@) == interleaved(hay@, with@),
            decreases hay_chars.len() - at,
        {
            assert(hay@.skip(at as int).drop_first() == hay@.skip(at + 1));
            out.append(with);
            out.push(hay_chars[at]);
            at += 1;
        }
        out.append(with);
        return out;
    }
    while at < hay_chars.len()
        invariant
            at <= hay_chars.len(),
            hay_chars@ == hay@,
            needle_chars@ == needle@,
            needle@.len() > 0,
            out@ + replaced(hay@.skip(at as int), needle@, with@) == replaced(
                hay@,
                needle@,
                with@,
            ),
        decreases hay_chars.len() - at,
    {
        let ghost rest = hay@.skip(at as int);
        proof {
            occurrence_in_suffix(hay@, needle@, at as int, 0);
        }
        if matches_at(&hay_chars, &needle_chars, at) {
            assert(rest.skip(needle@.len() as int) == hay@.skip(at + needle@.len()));
            out.append(with);
            at += needle_chars.len();
        } else {
            assert(rest.drop_first() == hay@.skip(at + 1));
            out.push(hay_chars[at]);
            at += 1;
        }
    }
    out
}

} // verus!
