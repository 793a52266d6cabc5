//! Relationship constraints: `name`, or `name <comparator> version`.

use vstd::prelude::*;
use crate::error::{ArgCategory, ErrorModel, SpecError};
use crate::text::slice_chars;

verus! {

/// How a constrained relationship compares versions.
#[derive(Clone, Copy, Debug, PartialEq, Eq, Structural)]
pub enum Comparator {
    Less,
    LessEq,
    Equal,
    GreaterEq,
    Greater,
}

/// Either "any version" or a comparator with the version it compares against.
#[derive(Debug)]
pub enum VersionConstraint {
    Unconstrained,
    Constrained { comparator: Comparator, version: String },
}

/// One relationship constraint on another package.
#[derive(Debug)]
pub struct DependencySpec {
    pub name: String,
    pub constraint: VersionConstraint,
}

/// A relationship constraint over character sequences; `None` means any version.
pub struct DependencyModel {
    pub name: Seq<char>,
    pub constraint: Option<(Comparator, Seq<char>)>,
}

impl View for DependencySpec {
    type V = DependencyModel;

    open spec fn view(&self) -> DependencyModel {
        DependencyModel {
            name: self.name@,
            constraint: match &self.constraint {
                VersionConstraint::Unconstrained => None,
                VersionConstraint::Constrained { comparator, version } => Some(
                    (*comparator, version@),
                ),
            },
        }
    }
}

/// The characters a package name is made of.
pub open spec fn is_name_char(c: char) -> bool {
    ('a' <= c && c <= 'z') || ('A' <= c && c <= 'Z') || ('0' <= c && c <= '9') || c == '-' || c
        == '.' || c == '_'
}

/// Unicode white space.
pub open spec fn is_space(c: char) -> bool {
    ('\t' <= c && c <= '\r') || c == ' ' || c == '\u{85}' || c == '\u{a0}' || c == '\u{1680}' || (
    '\u{2000}' <= c && c <= '\u{200a}') || c == '\u{2028}' || c == '\u{2029}' || c == '\u{202f}'
        || c == '\u{205f}' || c == '\u{3000}'
}

/// The end of the run of name characters that starts at `i`.
pub open spec fn name_end(s: Seq<char>, i: int) -> int
    decreases s.len() - i,
{
    if 0 <= i < s.len() && is_name_char(s[i]) {
        name_end(s, i + 1)
    } else {
        i
    }
}

/// The end of the run of white space that starts at `i`.
pub open spec fn space_end(s: Seq<char>, i: int) -> int
    decreases s.len() - i,
{
    if 0 <= i < s.len() && is_space(s[i]) {
        space_end(s, i + 1)
    } else {
        i
    }
}

/// The text of a comparator.
pub open spec fn comparator_text(c: Comparator) -> Seq<char> {
    match c {
        Comparator::Less => seq!['<'],
        Comparator::LessEq => seq!['<', '='],
        Comparator::Equal => seq!['='],
        Comparator::GreaterEq => seq!['>', '='],
        Comparator::Greater => seq!['>'],
    }
}

/// The longest comparator written at `i`, if any.
pub open spec fn comparator_at(s: Seq<char>, i: int) -> Option<Comparator> {
    if 0 <= i < s.len() && s[i] == '>' {
        if i + 1 < s.len() && s[i + 1] == '=' {
            Some(Comparator::GreaterEq)
        } else {
            Some(Comparator::Greater)
        }
    } else if 0 <= i < s.len() && s[i] == '<' {
        if i + 1 < s.len() && s[i + 1] == '=' {
            Some(Comparator::LessEq)
        } else {
            Some(Comparator::Less)
        }
    } else if 0 <= i < s.len() && s[i] == '=' {
        Some(Comparator::Equal)
    } else {
        None
    }
}

/// No line break from `i` on.
pub open spec fn single_line_from(s: Seq<char>, i: int) -> bool {
    forall|j: int| i <= j < s.len() ==> s[j] != '\n'
}

/// The constraint a relationship string denotes: a name, and optionally white space,
/// a comparator, white space and a non-empty single-line version.
pub open spec fn relationship_of(s: Seq<char>) -> Option<DependencyModel> {
    let n = name_end(s, 0);
    if n == 0 {
        None
    } else if n == s.len() {
        Some(DependencyModel { name: s.take(n), constraint: None })
    } else {
        let w = space_end(s, n);
        match comparator_at(s, w) {
            None => None,
            Some(c) => {
                let after = w + comparator_text(c).len();
                let v = space_end(s, after);
                if single_line_from(s, after) && v < s.len() {
                    Some(DependencyModel { name: s.take(n), constraint: Some((c, s.skip(v))) })
                } else {
                    None
                }
            },
        }
    }
}

fn is_name_char_exec(c: char) -> (r: bool)
    ensures
        r == is_name_char(c),
{
    ('a' <= c && c <= 'z') || ('A' <= c && c <= 'Z') || ('0' <= c && c <= '9') || c == '-' || c
        == '.' || c == '_'
}

fn is_space_exec(c: char) -> (r: bool)
    ensures
        r == is_space(c),
{
    ('\t' <= c && c <= '\r') || c == ' ' || c == '\u{85}' || c == '\u{a0}' || c == '\u{1680}' || (
    '\u{2000}' <= c && c <= '\u{200a}') || c == '\u{2028}' || c == '\u{2029}' || c == '\u{202f}'
        || c == '\u{205f}' || c == '\u{3000}'
}

fn skip_name(s: &str, n: usize, start: usize) -> (r: usize)
    requires
        n == s@.len(),
        start <= n,
    ensures
        r == name_end(s@, start as int),
        start <= r <= n,
{
    let mut i = start;
    while i < n && is_name_char_exec(s.get_char(i))
        invariant
            n == s@.len(),
            start <= i <= n,
            name_end(s@, i as int) == name_end(s@, start as int),
        decreases n - i,
    {
        i += 1;
    }
    i
}

fn skip_space(s: &str, n: usize, start: usize) -> (r: usize)
    requires
        n == s@.len(),
        start <= n,
    ensures
        r == space_end(s@, start as int),
        start <= r <= n,
{
    let mut i = start;
    while i < n && is_space_exec(s.get_char(i))
        invariant
            n == s@.len(),
            start <= i <= n,
            space_end(s@, i as int) == space_end(s@, start as int),
        decreases n - i,
    {
        i += 1;
    }
    i
}

fn read_comparator(s: &str, n: usize, i: usize) -> (r: Option<(Comparator, usize)>)
    requires
        n == s@.len(),
        i <= n,
    ensures
        match r {
            Some((c, len)) => comparator_at(s@, i as int) == Some(c) && len == comparator_text(
                c,
            ).len(),
            None => comparator_at(s@, i as int) is None,
        },
{
    if i >= n {
        return None;
    }
    let c = s.get_char(i);
    let eq_next = i + 1 < n && s.get_char(i + 1) == '=';
    if c == '>' {
        if eq_next {
            Some((Comparator::GreaterEq, 2))
        } else {
            Some((Comparator::Greater, 1))
        }
    } else if c == '<' {
        if eq_next {
            Some((Comparator::LessEq, 2))
        } else {
            Some((Comparator::Less, 1))
        }
    } else if c == '=' {
        Some((Comparator::Equal, 1))
    } else {
        None
    }
}

fn single_line(s: &str, n: usize, start: usize) -> (r: bool)
    requires
        n == s@.len(),
        start <= n,
    ensures
        r == single_line_from(s@, start as int),
{
    let mut i = start;
    while i < n
        invariant
            n == s@.len(),
            start <= i <= n,
            forall|j: int| start <= j < i ==> s@[j] != '\n',
        decreases n - i,
    {
        if s.get_char(i) == '\n' {
            return false;
        }
        i += 1;
    }
    true
}

/// The error for a relationship string outside the grammar.
pub open spec fn relationship_result(s: Seq<char>, category: ArgCategory) -> Result<
    DependencyModel,
    ErrorModel,
> {
    match relationship_of(s) {
        Some(d) => Ok(d),
        None => Err(ErrorModel::MalformedRelationship { category, raw: s }),
    }
}

/// Parses one relationship string.
pub fn parse_dependency(raw: &str, category: ArgCategory) -> (r: Result<DependencySpec, SpecError>)
    ensures
        match r {
            Ok(d) => relationship_result(raw@, category) == Ok::<_, ErrorModel>(d@),
            Err(e) => relationship_result(raw@, category) == Err::<DependencyModel, _>(e@),
        },
{
    let n = raw.unicode_len();
    let name_len = skip_name(raw, n, 0);
    if name_len == 0 {
        return Err(SpecError::MalformedRelationship { category, raw: raw.to_owned() });
    }
    let name = slice_chars(raw, 0, name_len);
    assert(raw@.subrange(0, name_len as int) =~= raw@.take(name_len as int));
    if name_len == n {
        return Ok(DependencySpec { name, constraint: VersionConstraint::Unconstrained });
    }
    let w = skip_space(raw, n, name_len);
    match read_comparator(raw, n, w) {
        None => Err(SpecError::MalformedRelationship { category, raw: raw.to_owned() }),
        Some((comparator, len)) => {
            let after = w + len;
            let v = skip_space(raw, n, after);
            if single_line(raw, n, after) && v < n {
                let version = slice_chars(raw, v, n);
                assert(raw@.subrange(v as int, n as int) =~= raw@.skip(v as int));
                Ok(
                    DependencySpec {
                        name,
                        constraint: VersionConstraint::Constrained { comparator, version },
                    },
                )
            } else {
                Err(SpecError::MalformedRelationship { category, raw: raw.to_owned() })
            }
        },
    }
}

proof fn lemma_name_end(s: Seq<char>, i: int, n: int)
    requires
        0 <= i <= n <= s.len(),
        forall|j: int| i <= j < n ==> is_name_char(s[j]),
        n == s.len() || !is_name_char(s[n]),
    ensures
        name_end(s, i) == n,
    decreases n - i,
{
    if i < n {
        lemma_name_end(s, i + 1, n);
    }
}

proof fn lemma_space_end(s: Seq<char>, i: int, n: int)
    requires
        0 <= i <= n <= s.len(),
        forall|j: int| i <= j < n ==> is_space(s[j]),
        n == s.len() || !is_space(s[n]),
    ensures
        space_end(s, i) == n,
    decreases n - i,
{
    if i < n {
        lemma_space_end(s, i + 1, n);
    }
}

/// A bare name denotes that name with no version constraint.
pub proof fn relationship_without_comparator(name: Seq<char>)
    requires
        name.len() > 0,
        forall|j: int| 0 <= j < name.len() ==> is_name_char(name[j]),
    ensures
        relationship_of(name) == Some(DependencyModel { name, constraint: None }),
{
    lemma_name_end(name, 0, name.len() as int);
    assert(name.take(name.len() as int) =~= name);
}

/// A name, white space, a comparator, white space and a version denote that name
/// with that comparator, the version being exactly the text that follows the comparator
/// and the white space after it.
pub proof fn relationship_with_comparator(
    name: Seq<char>,
    gap: Seq<char>,
    comparator: Comparator,
    pad: Seq<char>,
    version: Seq<char>,
)
    requires
        name.len() > 0,
        forall|j: int| 0 <= j < name.len() ==> is_name_char(name[j]),
        forall|j: int| 0 <= j < gap.len() ==> is_space(gap[j]),
        forall|j: int| 0 <= j < pad.len() ==> is_space(pad[j]) && pad[j] != '\n',
        version.len() > 0,
        !is_space(version[0]),
        forall|j: int| 0 <= j < version.len() ==> version[j] != '\n',
        pad.len() == 0 && (comparator == Comparator::Greater || comparator == Comparator::Less)
            ==> version[0] != '=',
    ensures
        relationship_of(name + gap + comparator_text(comparator) + pad + version) == Some(
            DependencyModel { name, constraint: Some((comparator, version)) },
        ),
{
    let ct = comparator_text(comparator);
    let s = name + gap + ct + pad + version;
    let n = name.len() as int;
    let w = n + gap.len();
    let after = w + ct.len();
    let v = after + pad.len();
    assert(forall|j: int| 0 <= j < n ==> s[j] == name[j]);
    assert(forall|j: int| n <= j < w ==> s[j] == gap[j - n]);
    assert(forall|j: int| w <= j < after ==> s[j] == ct[j - w]);
    assert(forall|j: int| after <= j < v ==> s[j] == pad[j - after]);
    assert(forall|j: int| v <= j < s.len() ==> s[j] == version[j - v]);
    lemma_name_end(s, 0, n);
    lemma_space_end(s, n, w);
    assert(comparator_at(s, w) == Some(comparator));
    lemma_space_end(s, after, v);
    assert(single_line_from(s, after));
    assert(s.take(n) =~= name);
    assert(s.skip(v) =~= version);
}

/// A relationship with a comparator always carries a non-empty version.
pub proof fn constrained_relationship_has_version(s: Seq<char>)
    ensures
        relationship_of(s) matches Some(d) ==> (d.constraint matches Some(c) ==> c.1.len() > 0),
{
    let n = name_end(s, 0);
    lemma_name_end_at_least(s, 0);
    lemma_space_end_at_least(s, n);
    let w = space_end(s, n);
    if let Some(c) = comparator_at(s, w) {
        lemma_space_end_at_least(s, w + comparator_text(c).len());
    }
}

proof fn lemma_name_end_at_least(s: Seq<char>, i: int)
    ensures
        i <= name_end(s, i),
    decreases s.len() - i,
{
    if 0 <= i < s.len() && is_name_char(s[i]) {
        lemma_name_end_at_least(s, i + 1);
    }
}

proof fn lemma_space_end_at_least(s: Seq<char>, i: int)
    ensures
        i <= space_end(s, i),
    decreases s.len() - i,
{
    if 0 <= i < s.len() && is_space(s[i]) {
        lemma_space_end_at_least(s, i + 1);
    }
}

} // verus!
