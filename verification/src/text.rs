//! Verified helpers for working with strings character by character.

use vstd::prelude::*;
use vstd::string::StrSliceExecFns;
use vstd::string::StringExecFns;

verus! {

/// Compares two string slices by their character sequences.
pub fn str_eq(a: &str, b: &str) -> (r: bool)
    ensures
        r == (a@ == b@),
{
    let an = a.unicode_len();
    let bn = b.unicode_len();
    if an != bn {
        return false;
    }
    let mut i: usize = 0;
    while i < an
        invariant
            an == a@.len(),
            bn == b@.len(),
            an == bn,
            i <= an,
            forall|j: int| 0 <= j < i ==> a@[j] == b@[j],
        decreases an - i,
    {
        if a.get_char(i) != b.get_char(i) {
            return false;
        }
        i += 1;
    }
    proof {
        assert(a@ =~= b@);
    }
    true
}

/// True when `c` occurs nowhere in `s`.
pub open spec fn has_no_char(s: Seq<char>, c: char) -> bool {
    forall|i: int| 0 <= i < s.len() ==> s[i] != c
}

/// The index of the first occurrence of `c` in `s`, or `s.len()` when `c`
/// does not occur.
pub open spec fn first_index_of(s: Seq<char>, c: char) -> nat
    decreases s.len(),
{
    if s.len() == 0 {
        0
    } else if s[0] == c {
        0
    } else {
        1 + first_index_of(s.drop_first(), c)
    }
}

/// What `first_index_of` returns: the least occurrence, or the length.
pub proof fn lemma_first_index_of(s: Seq<char>, c: char)
    ensures
        first_index_of(s, c) <= s.len(),
        first_index_of(s, c) < s.len() ==> s[first_index_of(s, c) as int] == c,
        has_no_char(s.subrange(0, first_index_of(s, c) as int), c),
        first_index_of(s, c) == s.len() ==> has_no_char(s, c),
    decreases s.len(),
{
    if s.len() == 0 {
    } else if s[0] == c {
        assert(s.subrange(0, 0) =~= Seq::<char>::empty());
    } else {
        let t = s.drop_first();
        lemma_first_index_of(t, c);
        let f = first_index_of(s, c);
        assert(f == 1 + first_index_of(t, c));
        assert forall|j: int| 0 <= j < f implies s.subrange(0, f as int)[j] != c by {
            if j > 0 {
                assert(t.subrange(0, first_index_of(t, c) as int)[j - 1] == t[j - 1]);
            }
        }
        if f == s.len() {
            assert forall|j: int| 0 <= j < s.len() implies s[j] != c by {
                if j > 0 {
                    assert(t[j - 1] == s[j]);
                }
            }
        }
    }
}

/// With no occurrence before `i` and one at `i`, the first occurrence is at
/// `i`.
pub proof fn lemma_first_index_at(s: Seq<char>, c: char, i: int)
    requires
        0 <= i < s.len(),
        s[i] == c,
        forall|j: int| 0 <= j < i ==> s[j] != c,
    ensures
        first_index_of(s, c) == i,
{
    lemma_first_index_of(s, c);
    let f = first_index_of(s, c);
    if f < i {
        assert(s[f as int] == c);
    } else if i < f {
        assert(s.subrange(0, f as int)[i] == c);
    }
}

/// The pieces of `s` between occurrences of the separator `sep`, in order.
/// A separator at either end, or two adjacent separators, yield empty pieces.
pub open spec fn split_spec(s: Seq<char>, sep: char) -> Seq<Seq<char>>
    decreases s.len(),
{
    let i = first_index_of(s, sep);
    if i < s.len() {
        seq![s.subrange(0, i as int)] + split_spec(s.subrange(i as int + 1, s.len() as int), sep)
    } else {
        seq![s]
    }
}

/// One splitting step: with no separator before position `i` and one at `i`,
/// the first piece of the remainder is `s[start..i]`.
proof fn lemma_split_step(s: Seq<char>, start: int, i: int, sep: char)
    requires
        0 <= start <= i < s.len(),
        has_no_char(s.subrange(start, i), sep),
        s[i] == sep,
    ensures
        split_spec(s.subrange(start, s.len() as int), sep) == seq![s.subrange(start, i)]
            + split_spec(s.subrange(i + 1, s.len() as int), sep),
{
    let tail = s.subrange(start, s.len() as int);
    let k = i - start;
    assert(tail[k] == sep);
    let f = first_index_of(tail, sep);
    lemma_first_index_of(tail, sep);
    assert(f == k) by {
        if f < k {
            assert(s.subrange(start, i)[f as int] == tail[f as int]);
        } else if f > k {
            assert(tail.subrange(0, f as int)[k] == sep);
        }
    }
    assert(tail.subrange(0, k) =~= s.subrange(start, i));
    assert(tail.subrange(k + 1, tail.len() as int) =~= s.subrange(i + 1, s.len() as int));
}

/// Splits `s` at every occurrence of `sep`.
pub fn split_str(s: &str, sep: char) -> (r: Vec<String>)
    ensures
        r@.map_values(|p: String| p@) == split_spec(s@, sep),
        r@.len() >= 1,
{
    let n = s.unicode_len();
    let mut pieces: Vec<String> = Vec::new();
    let mut start: usize = 0;
    let mut i: usize = 0;
    proof {
        assert(s@.subrange(0, n as int) =~= s@);
        assert(pieces@.map_values(|p: String| p@) + split_spec(s@, sep) =~= split_spec(s@, sep));
    }
    while i < n
        invariant
            n == s@.len(),
            0 <= start <= i <= n,
            has_no_char(s@.subrange(start as int, i as int), sep),
            split_spec(s@, sep) == pieces@.map_values(|p: String| p@) + split_spec(
                s@.subrange(start as int, n as int),
                sep,
            ),
        decreases n - i,
    {
        if s.get_char(i) == sep {
            let piece = s.substring_char(start, i).to_owned();
            proof {
                lemma_split_step(s@, start as int, i as int, sep);
                assert(pieces@.push(piece).map_values(|p: String| p@) =~= pieces@.map_values(
                    |p: String| p@,
                ).push(piece@));
                assert((pieces@.map_values(|p: String| p@).push(piece@)) + split_spec(
                    s@.subrange(i + 1, n as int),
                    sep,
                ) =~= pieces@.map_values(|p: String| p@) + (seq![s@.subrange(
                    start as int,
                    i as int,
                )] + split_spec(s@.subrange(i + 1, n as int), sep)));
            }
            pieces.push(piece);
            start = i + 1;
            i += 1;
            proof {
                assert(s@.subrange(start as int, i as int) =~= Seq::<char>::empty());
            }
        } else {
            i += 1;
            proof {
                assert(s@.subrange(start as int, i as int) =~= s@.subrange(
                    start as int,
                    i - 1,
                ).push(s@[i - 1]));
            }
        }
    }
    let last = s.substring_char(start, n).to_owned();
    proof {
        let tail = s@.subrange(start as int, n as int);
        lemma_first_index_of(tail, sep);
        if first_index_of(tail, sep) < tail.len() {
            assert(s@.subrange(start as int, i as int)[first_index_of(tail, sep) as int]
                == sep);
        }
        assert(split_spec(tail, sep) == seq![tail]);
        assert(pieces@.push(last).map_values(|p: String| p@) =~= pieces@.map_values(
            |p: String| p@,
        ).push(last@));
        assert(pieces@.map_values(|p: String| p@).push(last@) =~= pieces@.map_values(
            |p: String| p@,
        ) + seq![tail]);
    }
    pieces.push(last);
    pieces
}

/// Joining the pieces with the separator restores the original string.
pub open spec fn join_spec(pieces: Seq<Seq<char>>, sep: Seq<char>) -> Seq<char>
    decreases pieces.len(),
{
    if pieces.len() == 0 {
        Seq::empty()
    } else if pieces.len() == 1 {
        pieces[0]
    } else {
        pieces[0] + sep + join_spec(pieces.drop_first(), sep)
    }
}

/// Joining the pieces of a split restores the string.
pub proof fn lemma_join_split(s: Seq<char>, sep: char)
    ensures
        join_spec(split_spec(s, sep), seq![sep]) == s,
    decreases s.len(),
{
    let i = first_index_of(s, sep);
    lemma_first_index_of(s, sep);
    let pieces = split_spec(s, sep);
    if i < s.len() {
        let head = s.subrange(0, i as int);
        let tail = s.subrange(i as int + 1, s.len() as int);
        lemma_join_split(tail, sep);
        assert(split_spec(tail, sep).len() >= 1);
        assert(pieces[0] == head);
        assert(pieces.drop_first() =~= split_spec(tail, sep));
        assert(join_spec(pieces, seq![sep]) == head + seq![sep] + join_spec(
            split_spec(tail, sep),
            seq![sep],
        ));
        assert(head + seq![sep] + tail =~= s);
    }
}

/// Joins the pieces with the separator `sep`.
pub fn join_str(pieces: &Vec<String>, sep: &str) -> (r: String)
    requires
        pieces@.len() > 0,
    ensures
        r@ == join_spec(pieces@.map_values(|p: String| p@), sep@),
{
    let mut out: String = pieces[0].clone();
    let mut i: usize = 1;
    proof {
        assert(pieces@.subrange(0, 1).map_values(|p: String| p@) =~= seq![pieces@[0]@]);
    }
    while i < pieces.len()
        invariant
            1 <= i <= pieces@.len(),
            out@ == join_spec(pieces@.subrange(0, i as int).map_values(|p: String| p@), sep@),
        decreases pieces@.len() - i,
    {
        out.append(sep);
        out.append(pieces[i].as_str());
        proof {
            lemma_join_push(
                pieces@.subrange(0, i as int).map_values(|p: String| p@),
                pieces@[i as int]@,
                sep@,
            );
            assert(pieces@.subrange(0, i + 1).map_values(|p: String| p@) =~= pieces@.subrange(
                0,
                i as int,
            ).map_values(|p: String| p@).push(pieces@[i as int]@));
        }
        i += 1;
    }
    proof {
        assert(pieces@.subrange(0, pieces@.len() as int) =~= pieces@);
    }
    out
}

/// Appending one more piece appends one separator and the piece.
proof fn lemma_join_push(pieces: Seq<Seq<char>>, last: Seq<char>, sep: Seq<char>)
    requires
        pieces.len() > 0,
    ensures
        join_spec(pieces.push(last), sep) == join_spec(pieces, sep) + sep + last,
    decreases pieces.len(),
{
    let all = pieces.push(last);
    assert(all[0] == pieces[0]);
    if pieces.len() == 1 {
        assert(all.drop_first() =~= seq![last]);
        assert(join_spec(all, sep) == all[0] + sep + join_spec(all.drop_first(), sep));
    } else {
        assert(all.drop_first() =~= pieces.drop_first().push(last));
        lemma_join_push(pieces.drop_first(), last, sep);
        assert(join_spec(pieces, sep) + sep + last =~= pieces[0] + sep + (join_spec(
            pieces.drop_first(),
            sep,
        ) + sep + last));
    }
}

} // verus!
