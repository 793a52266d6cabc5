//! `source:destination` placement strings.

use vstd::prelude::*;
use crate::error::{ArgCategory, ErrorModel, SpecError};
use crate::text::{
    find_all,
    lemma_positions_absent,
    lemma_positions_bounds,
    lemma_positions_concat,
    positions_of,
    slice_chars,
};

verus! {

/// The pair named by a placement string: defined when it holds exactly one `:`
/// with text on both sides of it.
pub open spec fn file_spec_of(s: Seq<char>) -> Option<(Seq<char>, Seq<char>)> {
    let p = positions_of(s, ':');
    if p.len() == 1 && 0 < p[0] && p[0] + 1 < s.len() {
        Some((s.take(p[0]), s.skip(p[0] + 1)))
    } else {
        None
    }
}

/// The error for a placement string that is not of the form `source:destination`.
pub open spec fn file_spec_result(s: Seq<char>, category: ArgCategory) -> Result<
    (Seq<char>, Seq<char>),
    ErrorModel,
> {
    match file_spec_of(s) {
        Some(pair) => Ok(pair),
        None => Err(ErrorModel::MalformedFileSpec { category, raw: s }),
    }
}

/// Splits a placement string into its source and destination.
pub fn parse_file_spec(raw: &str, category: ArgCategory) -> (r: Result<(String, String), SpecError>)
    ensures
        match r {
            Ok(pair) => file_spec_result(raw@, category) == Ok::<_, ErrorModel>((pair.0@, pair.1@)),
            Err(e) => file_spec_result(raw@, category) == Err::<(Seq<char>, Seq<char>), _>(e@),
        },
{
    let colons = find_all(raw, ':');
    proof {
        lemma_positions_bounds(raw@, ':');
        assert(colons@.len() == positions_of(raw@, ':').len());
    }
    let n = raw.unicode_len();
    if colons.len() == 1 {
        let k = colons[0];
        assert(k as int == positions_of(raw@, ':')[0]);
        if 0 < k && k + 1 < n {
            let source = slice_chars(raw, 0, k);
            let destination = slice_chars(raw, k + 1, n);
            assert(raw@.subrange(0, k as int) =~= raw@.take(k as int));
            assert(raw@.subrange(k + 1, n as int) =~= raw@.skip(k + 1));
            return Ok((source, destination));
        }
    }
    Err(SpecError::MalformedFileSpec { category, raw: raw.to_owned() })
}

/// A source and a destination, each free of `:` and non-empty, joined by one `:`
/// read back as exactly that pair; a string with no `:` or with more than one is rejected.
pub proof fn file_spec_round_trip(source: Seq<char>, destination: Seq<char>)
    requires
        source.len() > 0,
        destination.len() > 0,
        forall|j: int| 0 <= j < source.len() ==> source[j] != ':',
        forall|j: int| 0 <= j < destination.len() ==> destination[j] != ':',
    ensures
        file_spec_of(source + seq![':'] + destination) == Some((source, destination)),
{
    let s = source + seq![':'] + destination;
    lemma_positions_absent(source, ':');
    lemma_positions_absent(destination, ':');
    lemma_positions_concat(source, seq![':'], ':');
    lemma_positions_concat(source + seq![':'], destination, ':');
    assert(positions_of(seq![':'], ':') =~= seq![0int]) by {
        assert(seq![':'].drop_last() =~= Seq::<char>::empty());
        assert(positions_of(Seq::<char>::empty(), ':') == Seq::<int>::empty());
        assert(seq![':'].last() == ':');
        assert(Seq::<int>::empty().push(0) =~= seq![0int]);
    }
    let p = positions_of(s, ':');
    assert(p =~= seq![source.len() as int]);
    assert(s.take(source.len() as int) =~= source);
    assert(s.skip(source.len() as int + 1) =~= destination);
}

/// Strings with a number of `:` other than one are never placements.
pub proof fn file_spec_needs_one_colon(s: Seq<char>)
    requires
        positions_of(s, ':').len() != 1,
    ensures
        file_spec_of(s) is None,
{
}

} // verus!
