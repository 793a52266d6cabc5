//! Character-level helpers shared by the argument parsers.

use vstd::prelude::*;

verus! {

/// The positions at which `c` occurs in `s`, in increasing order.
pub open spec fn positions_of(s: Seq<char>, c: char) -> Seq<int>
    decreases s.len(),
{
    if s.len() == 0 {
        Seq::empty()
    } else {
        let rest = positions_of(s.drop_last(), c);
        if s.last() == c {
            rest.push(s.len() - 1)
        } else {
            rest
        }
    }
}

/// Every listed position lies inside `s`, holds `c`, and the list is strictly increasing.
pub proof fn lemma_positions_bounds(s: Seq<char>, c: char)
    ensures
        forall|j: int|
            0 <= j < positions_of(s, c).len() ==> 0 <= #[trigger] positions_of(s, c)[j] < s.len()
                && s[positions_of(s, c)[j]] == c,
        forall|i: int, j: int|
            0 <= i < j < positions_of(s, c).len() ==> positions_of(s, c)[i] < positions_of(
                s,
                c,
            )[j],
    decreases s.len(),
{
    if s.len() > 0 {
        let d = s.drop_last();
        lemma_positions_bounds(d, c);
        let rest = positions_of(d, c);
        let p = positions_of(s, c);
        assert forall|j: int| 0 <= j < rest.len() implies p[j] == rest[j] && s[rest[j]] == d[rest[j]] by {}
        if s.last() == c {
            assert(p[p.len() - 1] == s.len() - 1);
        }
    }
}

/// A sequence without `c` has no positions of `c`.
pub proof fn lemma_positions_absent(s: Seq<char>, c: char)
    requires
        forall|j: int| 0 <= j < s.len() ==> s[j] != c,
    ensures
        positions_of(s, c) == Seq::<int>::empty(),
    decreases s.len(),
{
    if s.len() > 0 {
        lemma_positions_absent(s.drop_last(), c);
    }
}

/// Positions in a concatenation: those of the left part, then those of the right part shifted.
pub proof fn lemma_positions_concat(a: Seq<char>, b: Seq<char>, c: char)
    ensures
        positions_of(a + b, c) == positions_of(a, c) + positions_of(b, c).map_values(
            |p: int| p + a.len(),
        ),
    decreases b.len(),
{
    if b.len() == 0 {
        assert(a + b =~= a);
        assert(positions_of(b, c).map_values(|p: int| p + a.len()) =~= Seq::<int>::empty());
        assert(positions_of(a, c) + Seq::<int>::empty() =~= positions_of(a, c));
    } else {
        lemma_positions_concat(a, b.drop_last(), c);
        assert((a + b).drop_last() =~= a + b.drop_last());
        let pa = positions_of(a, c);
        let pb = positions_of(b.drop_last(), c);
        let f = |p: int| p + a.len();
        if b.last() == c {
            assert(positions_of(b, c).map_values(f) =~= pb.map_values(f).push(b.len() - 1 + a.len()));
            assert(pa + pb.map_values(f).push(b.len() - 1 + a.len()) =~= (pa + pb.map_values(f)).push(
                b.len() - 1 + a.len(),
            ));
        } else {
            assert(positions_of(b, c).map_values(f) =~= pb.map_values(f));
        }
    }
}

/// Finds every position of `c` in `s`.
pub fn find_all(s: &str, c: char) -> (r: Vec<usize>)
    ensures
        r@.map_values(|p: usize| p as int) == positions_of(s@, c),
{
    let n = s.unicode_len();
    let mut out: Vec<usize> = Vec::new();
    let mut i: usize = 0;
    while i < n
        invariant
            n == s@.len(),
            i <= n,
            out@.map_values(|p: usize| p as int) == positions_of(s@.take(i as int), c),
        decreases n - i,
    {
        let ch = s.get_char(i);
        assert(s@.take(i + 1).drop_last() =~= s@.take(i as int));
        let ghost before = out@;
        if ch == c {
            out.push(i);
            assert(out@.map_values(|p: usize| p as int) =~= before.map_values(|p: usize| p as int).push(
                i as int,
            ));
        }
        i += 1;
    }
    assert(s@.take(n as int) =~= s@);
    out
}

/// Copies the characters `from..to` of `s` into a new string.
pub fn slice_chars(s: &str, from: usize, to: usize) -> (r: String)
    requires
        from <= to <= s@.len(),
    ensures
        r@ == s@.subrange(from as int, to as int),
{
    s.substring_char(from, to).to_owned()
}

} // verus!
