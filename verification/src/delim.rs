//! Splitting byte strings on a delimiter, and splitting text into lines.
//!
//! Catalog members are text files whose lines hold fields separated by the
//! control byte 0x04; these functions give that format its meaning.

use vstd::prelude::*;
use vstd::slice::{slice_subrange, slice_to_vec};

verus! {

/// Field separator inside a catalog line.
pub const FIELD_SEP: u8 = 4;

/// Line separator inside a catalog member.
pub const LINE_SEP: u8 = 10;

/// Carriage return, stripped from the end of a line.
pub const CARRIAGE_RETURN: u8 = 13;

/// The segments of `s` between occurrences of the delimiter `d`.
/// Always at least one segment; an empty input gives one empty segment.
pub open spec fn split_bytes(s: Seq<u8>, d: u8) -> Seq<Seq<u8>>
    decreases s.len(),
{
    if s.len() == 0 {
        seq![Seq::<u8>::empty()]
    } else if s[0] == d {
        seq![Seq::<u8>::empty()] + split_bytes(s.subrange(1, s.len() as int), d)
    } else {
        let rest = split_bytes(s.subrange(1, s.len() as int), d);
        seq![seq![s[0]] + rest[0]] + rest.subrange(1, rest.len() as int)
    }
}

pub proof fn lemma_split_len(s: Seq<u8>, d: u8)
    ensures
        split_bytes(s, d).len() >= 1,
    decreases s.len(),
{
    if s.len() == 0 {
    } else {
        lemma_split_len(s.subrange(1, s.len() as int), d);
    }
}

/// A string without the delimiter splits into itself alone.
pub proof fn lemma_split_no_sep(s: Seq<u8>, d: u8)
    requires
        forall|i: int| 0 <= i < s.len() ==> s[i] != d,
    ensures
        split_bytes(s, d) =~~= seq![s],
    decreases s.len(),
{
    if s.len() == 0 {
        assert(split_bytes(s, d) =~~= seq![s]);
    } else {
        let tail = s.subrange(1, s.len() as int);
        lemma_split_no_sep(tail, d);
        assert(split_bytes(s, d) =~~= seq![seq![s[0]] + tail]);
        assert(seq![s[0]] + tail =~= s);
    }
}

/// Splitting at the first occurrence of the delimiter.
pub proof fn lemma_split_at_first(s: Seq<u8>, d: u8, i: int)
    requires
        0 <= i < s.len(),
        s[i] == d,
        forall|j: int| 0 <= j < i ==> s[j] != d,
    ensures
        split_bytes(s, d) =~~= seq![s.subrange(0, i)] + split_bytes(
            s.subrange(i + 1, s.len() as int),
            d,
        ),
    decreases i,
{
    let tail = s.subrange(1, s.len() as int);
    if i == 0 {
        assert(s.subrange(0, 0) =~= Seq::<u8>::empty());
        assert(s.subrange(1, s.len() as int) =~= tail);
    } else {
        lemma_split_at_first(tail, d, i - 1);
        lemma_split_len(tail.subrange(i, tail.len() as int), d);
        let rest = split_bytes(tail, d);
        assert(tail.subrange(i, tail.len() as int) =~= s.subrange(i + 1, s.len() as int));
        assert(rest =~~= seq![tail.subrange(0, i - 1)] + split_bytes(
            s.subrange(i + 1, s.len() as int),
            d,
        ));
        assert(seq![s[0]] + rest[0] =~= s.subrange(0, i));
        assert(split_bytes(s, d) =~~= seq![seq![s[0]] + rest[0]] + rest.subrange(
            1,
            rest.len() as int,
        ));
    }
}

/// Splits `s` into the segments between occurrences of `d`.
pub fn split_on(s: &[u8], d: u8) -> (r: Vec<Vec<u8>>)
    ensures
        r@.map_values(|f: Vec<u8>| f@) == split_bytes(s@, d),
    decreases s@.len(),
{
    let n = s.len();
    let mut i: usize = 0;
    while i < n && s[i] != d
        invariant
            0 <= i <= n,
            n == s@.len(),
            forall|j: int| 0 <= j < i ==> s@[j] != d,
        decreases n - i,
    {
        i = i + 1;
    }
    if i == n {
        let mut r: Vec<Vec<u8>> = Vec::new();
        r.push(slice_to_vec(s));
        proof {
            lemma_split_no_sep(s@, d);
            assert(r@.map_values(|f: Vec<u8>| f@) =~= seq![s@]);
        }
        r
    } else {
        let first = slice_to_vec(slice_subrange(s, 0, i));
        let rest = slice_subrange(s, i + 1, n);
        let mut r = split_on(rest, d);
        r.insert(0, first);
        proof {
            lemma_split_at_first(s@, d, i as int);
            assert(r@.map_values(|f: Vec<u8>| f@) =~= seq![s@.subrange(0, i as int)]
                + split_bytes(s@.subrange(i + 1, s@.len() as int), d));
        }
        r
    }
}

/// One line with a trailing carriage return, if any, removed.
pub open spec fn strip_cr(l: Seq<u8>) -> Seq<u8> {
    if l.len() > 0 && l.last() == CARRIAGE_RETURN {
        l.drop_last()
    } else {
        l
    }
}

/// The lines of a text, split on 0x0A with a final empty segment dropped and
/// one trailing carriage return removed from each line.
pub open spec fn lines_of(s: Seq<u8>) -> Seq<Seq<u8>> {
    let raw = split_bytes(s, LINE_SEP);
    let kept = if raw.len() > 0 && raw.last().len() == 0 {
        raw.drop_last()
    } else {
        raw
    };
    kept.map_values(|l: Seq<u8>| strip_cr(l))
}

/// Removes a trailing carriage return from `l`, in place.
pub fn strip_cr_in_place(l: &mut Vec<u8>)
    ensures
        final(l)@ == strip_cr(old(l)@),
{
    let n = l.len();
    if n > 0 {
        if l[n - 1] == CARRIAGE_RETURN {
            l.pop();
        }
    }
}

/// Splits a text into its lines.
pub fn split_into_lines(s: &[u8]) -> (r: Vec<Vec<u8>>)
    ensures
        r@.map_values(|l: Vec<u8>| l@) == lines_of(s@),
{
    let mut parts = split_on(s, LINE_SEP);
    proof {
        lemma_split_len(s@, LINE_SEP);
    }
    let ghost raw = split_bytes(s@, LINE_SEP);
    if parts.len() > 0 && parts[parts.len() - 1].len() == 0 {
        parts.pop();
        proof {
            assert(parts@.map_values(|f: Vec<u8>| f@) =~= raw.drop_last());
        }
    }
    let ghost kept = parts@.map_values(|f: Vec<u8>| f@);
    let mut r: Vec<Vec<u8>> = Vec::new();
    let mut i: usize = 0;
    while i < parts.len()
        invariant
            0 <= i <= parts.len(),
            kept == parts@.map_values(|f: Vec<u8>| f@),
            r@.len() == i,
            forall|j: int| 0 <= j < i ==> r@[j]@ == strip_cr(kept[j]),
        decreases parts.len() - i,
    {
        let mut line = slice_to_vec(parts[i].as_slice());
        strip_cr_in_place(&mut line);
        proof {
            assert(kept[i as int] == parts@[i as int]@);
        }
        r.push(line);
        i = i + 1;
    }
    proof {
        assert(r@.map_values(|l: Vec<u8>| l@) =~~= kept.map_values(|l: Seq<u8>| strip_cr(l)));
        assert(r@.map_values(|l: Vec<u8>| l@) =~~= lines_of(s@));
    }
    r
}

} // verus!
