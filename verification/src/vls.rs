//! The core [`Vls`] type: parsing a vers-like specifier and writing it back.

use vstd::prelude::*;

use crate::comparator::{has_prefix, Comparator};
use crate::constraint::{
    spec_parse_constraint, Constraint, ConstraintError, SpecConstraint, SpecConstraintError,
};
use crate::order::{
    char_order, chars_of, holds_exactly, insert_string_sorted, lemma_sorted_elements, lemma_text_order,
    sorted_elements, string_views, strictly_sorted, text_order,
};
use crate::valid_chars::{
    collect_invalid_characters, invalid_chars, spec_invalid_characters, VlsSpecialCharSet,
};

verus! {

broadcast use vstd::string::group_string_axioms;

/// The pieces of `s` between the occurrences of `sep`, in order. There is
/// always at least one piece; `n` separators give `n + 1` pieces, which may be
/// empty.
pub open spec fn split_on(s: Seq<char>, sep: char) -> Seq<Seq<char>>
    decreases s.len(),
{
    if s.len() == 0 {
        seq![Seq::<char>::empty()]
    } else {
        let prev = split_on(s.drop_last(), sep);
        if s.last() == sep {
            prev.push(Seq::<char>::empty())
        } else {
            prev.update(prev.len() - 1, prev.last().push(s.last()))
        }
    }
}

/// The pieces written one after another with `sep` between each two.
pub open spec fn join_with(parts: Seq<Seq<char>>, sep: char) -> Seq<char>
    decreases parts.len(),
{
    if parts.len() == 0 {
        Seq::<char>::empty()
    } else if parts.len() == 1 {
        parts[0]
    } else {
        join_with(parts.drop_last(), sep) + seq![sep] + parts.last()
    }
}

/// The `vers:` URI prefix.
pub open spec fn vers_prefix() -> Seq<char> {
    seq!['v', 'e', 'r', 's', ':']
}

/// The errors among `results`, in order.
pub open spec fn errors_of(results: Seq<Result<SpecConstraint, SpecConstraintError>>) -> Seq<
    SpecConstraintError,
>
    decreases results.len(),
{
    if results.len() == 0 {
        Seq::<SpecConstraintError>::empty()
    } else {
        let prev = errors_of(results.drop_last());
        match results.last() {
            Ok(_) => prev,
            Err(e) => prev.push(e),
        }
    }
}

/// The constraints among `results`, in order.
pub open spec fn constraints_of(results: Seq<Result<SpecConstraint, SpecConstraintError>>) -> Seq<
    SpecConstraint,
>
    decreases results.len(),
{
    if results.len() == 0 {
        Seq::<SpecConstraint>::empty()
    } else {
        let prev = constraints_of(results.drop_last());
        match results.last() {
            Ok(c) => prev.push(c),
            Err(_) => prev,
        }
    }
}

/// What parsing each `|`-separated piece of `s` as a constraint gives.
pub open spec fn constraint_results(s: Seq<char>) -> Seq<Result<SpecConstraint, SpecConstraintError>> {
    split_on(s, '|').map_values(|p: Seq<char>| spec_parse_constraint(p))
}

/// Some version occurs in two constraints of `cs`.
pub open spec fn has_duplicate_versions(cs: Seq<SpecConstraint>) -> bool {
    exists|i: int, j: int| 0 <= i < j < cs.len() && cs[i].version == cs[j].version
}

/// The versions that occur in two or more constraints of `cs`.
pub open spec fn duplicate_versions(cs: Seq<SpecConstraint>) -> Set<Seq<char>> {
    Set::new(
        |v: Seq<char>|
            exists|i: int, j: int|
                0 <= i < j < cs.len() && cs[i].version == v && cs[j].version == v,
    )
}

/// The constraints among the results of parsing the pieces of `s`.
pub open spec fn s_constraints(s: Seq<char>) -> Seq<SpecConstraint> {
    constraints_of(constraint_results(s))
}

/// Without errors, every result is a constraint.
pub(crate) proof fn lemma_constraints_count(results: Seq<Result<SpecConstraint, SpecConstraintError>>)
    ensures
        errors_of(results).len() == 0 ==> constraints_of(results).len() == results.len(),
    decreases results.len(),
{
    if results.len() > 0 {
        lemma_constraints_count(results.drop_last());
    }
}

/// The value of a [`Vls`].
pub enum SpecVls {
    Any,
    Constraints(Seq<SpecConstraint>),
}

/// The value of a [`VlsError`].
pub enum SpecVlsError {
    EmptyInput,
    InvalidCharacters(Seq<char>),
    ContainsVersPrefix,
    ContainsVersioningScheme,
    InvalidConstraints(Seq<SpecConstraintError>),
    DuplicateConstraintVersions(Seq<Seq<char>>),
}

/// What parsing `s` as a vls gives. The checks come in this order, and the
/// first that fails decides the error: the input is empty; it is `*` (which
/// matches any version); it starts with `vers:`; it holds a `/`; it holds
/// characters outside the constraints grammar (listed ascending, each once);
/// some `|`-separated piece is not a valid constraint (all such errors, in
/// order); some version occurs in two constraints (those versions, ascending,
/// each once). Otherwise the constraints, in order.
pub open spec fn spec_parse_vls(s: Seq<char>) -> Result<SpecVls, SpecVlsError> {
    if s.len() == 0 {
        Err(SpecVlsError::EmptyInput)
    } else if s == seq!['*'] {
        Ok(SpecVls::Any)
    } else if has_prefix(s, vers_prefix()) {
        Err(SpecVlsError::ContainsVersPrefix)
    } else if s.contains('/') {
        Err(SpecVlsError::ContainsVersioningScheme)
    } else {
        match spec_invalid_characters(s, VlsSpecialCharSet::ConstraintsString) {
            Some(bad) => Err(SpecVlsError::InvalidCharacters(bad)),
            None => {
                let results = constraint_results(s);
                let errors = errors_of(results);
                let cs = constraints_of(results);
                if errors.len() > 0 {
                    Err(SpecVlsError::InvalidConstraints(errors))
                } else if has_duplicate_versions(cs) {
                    Err(
                        SpecVlsError::DuplicateConstraintVersions(
                            sorted_elements(duplicate_versions(cs), text_order()),
                        ),
                    )
                } else {
                    Ok(SpecVls::Constraints(cs))
                }
            },
        }
    }
}

/// The text of a vls: `*`, or the constraints' texts joined by `|`.
pub open spec fn spec_vls_text(v: SpecVls) -> Seq<char> {
    match v {
        SpecVls::Any => seq!['*'],
        SpecVls::Constraints(cs) => join_with(cs.map_values(|c: SpecConstraint| c.text()), '|'),
    }
}

/// A **Vers-like Specifier** (vls).
///
/// A vls is the `<version-constraint>` part of a vers URL without the
/// `vers:<scheme>/` prefix: either an ordered, `|`-separated list of
/// constraints, or the wildcard `*`.
///
/// ```text
/// vls            = constraints / "*"
/// constraints    = constraint *( "|" constraint )
/// constraint     = comparator version-string / version-string
/// comparator     = "!=" / "<=" / ">=" / "=" / "<" / ">"
/// version-string = 1*( ALPHA / DIGIT / "-" / "." / "_" / "+" / "~" )
/// ```
///
/// Parsing returns the first error met, in the order that `spec_parse_vls`
/// gives.
#[derive(Debug, Clone, PartialEq, Eq)]
pub enum Vls {
    /// Matches any version (`*`).
    Any,
    /// An ordered, `|`-separated list of constraints (non-empty when parsed).
    Constraints(Vec<Constraint>),
}

impl View for Vls {
    type V = SpecVls;

    open spec fn view(&self) -> SpecVls {
        match self {
            Vls::Any => SpecVls::Any,
            Vls::Constraints(cs) => SpecVls::Constraints(
                cs@.map_values(|c: Constraint| c@),
            ),
        }
    }
}

/// Errors that can occur when parsing a vls string.
#[derive(Debug, PartialEq, Eq)]
pub enum VlsError {
    /// The input string was empty.
    EmptyInput,
    /// The input contains characters not allowed by the vls grammar, listed
    /// ascending, each once.
    InvalidCharacters(Vec<char>),
    /// The input contains a `vers:` URI prefix.
    ContainsVersPrefix,
    /// The input most likely contains a vers versioning-scheme component (e.g.
    /// `gem/>=2.2.0`), indicated by the scheme delimiter `/`.
    ContainsVersioningScheme,
    /// One or more constraints are invalid; their errors, in order.
    InvalidConstraints(Vec<ConstraintError>),
    /// The input contains duplicate constraint versions, irrespective of their
    /// comparators; those versions, ascending, each once.
    DuplicateConstraintVersions(Vec<String>),
}

impl View for VlsError {
    type V = SpecVlsError;

    open spec fn view(&self) -> SpecVlsError {
        match self {
            VlsError::EmptyInput => SpecVlsError::EmptyInput,
            VlsError::InvalidCharacters(v) => SpecVlsError::InvalidCharacters(v@),
            VlsError::ContainsVersPrefix => SpecVlsError::ContainsVersPrefix,
            VlsError::ContainsVersioningScheme => SpecVlsError::ContainsVersioningScheme,
            VlsError::InvalidConstraints(v) => SpecVlsError::InvalidConstraints(
                v@.map_values(|e: ConstraintError| e@),
            ),
            VlsError::DuplicateConstraintVersions(v) => SpecVlsError::DuplicateConstraintVersions(
                string_views(v@),
            ),
        }
    }
}

pub(crate) proof fn lemma_split_nonempty(s: Seq<char>, sep: char)
    ensures
        split_on(s, sep).len() >= 1,
    decreases s.len(),
{
    if s.len() > 0 {
        lemma_split_nonempty(s.drop_last(), sep);
    }
}

/// Whether `chars` starts with `vers:`.
fn starts_with_vers_prefix(chars: &Vec<char>) -> (r: bool)
    ensures
        r == has_prefix(chars@, vers_prefix()),
{
    if chars.len() >= 5 && chars[0] == 'v' && chars[1] == 'e' && chars[2] == 'r' && chars[3]
        == 's' && chars[4] == ':' {
        assert(chars@.take(5) =~= vers_prefix());
        true
    } else {
        proof {
            if chars.len() >= 5 {
                let t = chars@.take(5);
                if t == vers_prefix() {
                    assert(t[0] == 'v' && t[1] == 'e' && t[2] == 'r' && t[3] == 's' && t[4] == ':');
                }
            }
        }
        false
    }
}

/// Whether `chars` holds `c`.
fn contains_char(chars: &Vec<char>, c: char) -> (r: bool)
    ensures
        r == chars@.contains(c),
{
    let mut i: usize = 0;
    while i < chars.len()
        invariant
            i <= chars.len(),
            forall|j: int| 0 <= j < i ==> chars@[j] != c,
        decreases chars.len() - i,
    {
        if chars[i] == c {
            assert(chars@[i as int] == c);
            return true;
        }
        i = i + 1;
    }
    false
}


/// The constraint views of `cs`.
pub open spec fn constraint_views(cs: Seq<Constraint>) -> Seq<SpecConstraint> {
    cs.map_values(|c: Constraint| c@)
}

/// The error views of `es`.
pub open spec fn error_views(es: Seq<ConstraintError>) -> Seq<SpecConstraintError> {
    es.map_values(|e: ConstraintError| e@)
}

/// Parses the `|`-separated pieces of `s` as constraints, and returns the
/// constraints and the errors, each in order.
fn parse_pieces(s: &str, chars: &Vec<char>) -> (r: (Vec<Constraint>, Vec<ConstraintError>))
    requires
        chars@ == s@,
    ensures
        constraint_views(r.0@) == constraints_of(constraint_results(s@)),
        error_views(r.1@) == errors_of(constraint_results(s@)),
{
    let n = chars.len();
    let mut constraints: Vec<Constraint> = Vec::new();
    let mut errors: Vec<ConstraintError> = Vec::new();
    let mut start: usize = 0;
    let mut i: usize = 0;
    let ghost parse = |p: Seq<char>| spec_parse_constraint(p);
    proof {
        assert(chars@.take(0) =~= Seq::<char>::empty());
        assert(chars@.subrange(0, 0) =~= Seq::<char>::empty());
        assert(split_on(chars@.take(0), '|').drop_last() =~= Seq::<Seq<char>>::empty());
        assert(constraint_views(constraints@) =~= Seq::<SpecConstraint>::empty());
        assert(error_views(errors@) =~= Seq::<SpecConstraintError>::empty());
    }
    while i < n
        invariant
            n == chars.len(),
            chars@ == s@,
            start <= i <= n,
            parse == (|p: Seq<char>| spec_parse_constraint(p)),
            split_on(chars@.take(i as int), '|').last() == chars@.subrange(start as int, i as int),
            constraint_views(constraints@) == constraints_of(
                split_on(chars@.take(i as int), '|').drop_last().map_values(parse),
            ),
            error_views(errors@) == errors_of(
                split_on(chars@.take(i as int), '|').drop_last().map_values(parse),
            ),
        decreases n - i,
    {
        let ghost sp = split_on(chars@.take(i as int), '|');
        let ghost next = chars@.take(i + 1);
        proof {
            lemma_split_nonempty(chars@.take(i as int), '|');
            assert(next.drop_last() =~= chars@.take(i as int));
            assert(next.last() == chars@[i as int]);
        }
        if chars[i] == '|' {
            let piece = s.substring_char(start, i);
            let ghost done = sp.drop_last().map_values(parse);
            let ghost done2 = sp.map_values(parse);
            proof {
                assert(split_on(next, '|') == sp.push(Seq::<char>::empty()));
                assert(split_on(next, '|').drop_last() =~= sp);
                assert(done2.drop_last() =~= done);
                assert(done2.last() == spec_parse_constraint(piece@));
            }
            match Constraint::parse(piece) {
                Ok(c) => {
                    let ghost before = constraints@;
                    constraints.push(c);
                    assert(constraint_views(constraints@) =~= constraint_views(before).push(c@));
                },
                Err(e) => {
                    let ghost before = errors@;
                    errors.push(e);
                    assert(error_views(errors@) =~= error_views(before).push(e@));
                },
            }
            start = i + 1;
            proof {
                assert(chars@.subrange(start as int, i + 1) =~= Seq::<char>::empty());
            }
        } else {
            proof {
                assert(split_on(next, '|') == sp.update(sp.len() - 1, sp.last().push(chars@[i as int])));
                assert(split_on(next, '|').drop_last() =~= sp.drop_last());
                assert(chars@.subrange(start as int, i + 1) =~= chars@.subrange(start as int, i as int).push(chars@[i as int]));
            }
        }
        i = i + 1;
    }
    let piece = s.substring_char(start, n);
    let ghost sp = split_on(chars@.take(n as int), '|');
    let ghost done = sp.drop_last().map_values(parse);
    let ghost all = sp.map_values(parse);
    proof {
        lemma_split_nonempty(chars@.take(n as int), '|');
        assert(chars@.take(n as int) =~= s@);
        assert(all.drop_last() =~= done);
        assert(all.last() == spec_parse_constraint(piece@));
        assert(constraint_results(s@) == all);
    }
    match Constraint::parse(piece) {
        Ok(c) => {
            let ghost before = constraints@;
            constraints.push(c);
            assert(constraint_views(constraints@) =~= constraint_views(before).push(c@));
        },
        Err(e) => {
            let ghost before = errors@;
            errors.push(e);
            assert(error_views(errors@) =~= error_views(before).push(e@));
        },
    }
    (constraints, errors)
}

/// The versions that occur in two or more of `cs`, ascending, each once.
fn find_duplicate_versions(cs: &Vec<Constraint>) -> (d: Vec<String>)
    ensures
        strictly_sorted(string_views(d@), text_order()),
        holds_exactly(string_views(d@), duplicate_versions(constraint_views(cs@))),
        d@.len() > 0 <==> has_duplicate_versions(constraint_views(cs@)),
{
    let ghost all = constraint_views(cs@);
    let mut dups: Vec<String> = Vec::new();
    let mut i: usize = 0;
    proof {
        assert(string_views(dups@) =~= Seq::<Seq<char>>::empty());
    }
    while i < cs.len()
        invariant
            i <= cs.len(),
            all == constraint_views(cs@),
            strictly_sorted(string_views(dups@), text_order()),
            holds_exactly(string_views(dups@), duplicate_versions(all.take(i as int))),
        decreases cs.len() - i,
    {
        let mut found = false;
        let mut j: usize = 0;
        while j < i
            invariant
                j <= i < cs.len(),
                all == constraint_views(cs@),
                found <==> exists|k: int| 0 <= k < j && all[k].version == all[i as int].version,
            decreases i - j,
        {
            if cs[j].version() == cs[i].version() {
                found = true;
            }
            proof {
                assert(all[j as int] == cs@[j as int]@);
                assert(all[i as int] == cs@[i as int]@);
                if exists|k: int| 0 <= k < j + 1 && all[k].version == all[i as int].version {
                    let k = choose|k: int| 0 <= k < j + 1 && all[k].version == all[i as int].version;
                    if k < j {
                        assert(exists|k: int| 0 <= k < j && all[k].version == all[i as int].version);
                    }
                }
            }
            j = j + 1;
        }
        let ghost before = string_views(dups@);
        let ghost vi = all[i as int].version;
        if found {
            insert_string_sorted(&mut dups, cs[i].version().to_string());
        }
        proof {
            assert(all[i as int] == cs@[i as int]@);
            let prev = all.take(i as int);
            let next = all.take(i + 1);
            assert forall|v: Seq<char>| string_views(dups@).contains(v) <==> #[trigger] duplicate_versions(next).contains(v) by {
                assert(before.contains(v) <==> duplicate_versions(prev).contains(v));
                if duplicate_versions(next).contains(v) {
                    let (a, b) = choose|a: int, b: int| 0 <= a < b < next.len() && next[a].version == v && next[b].version == v;
                    if b < i {
                        assert(prev[a].version == v && prev[b].version == v);
                        assert(duplicate_versions(prev).contains(v));
                    } else {
                        assert(all[a].version == vi);
                        assert(found);
                    }
                }
                if duplicate_versions(prev).contains(v) {
                    let (a, b) = choose|a: int, b: int| 0 <= a < b < prev.len() && prev[a].version == v && prev[b].version == v;
                    assert(next[a].version == v && next[b].version == v);
                }
                if found && v == vi {
                    let k = choose|k: int| 0 <= k < i && all[k].version == all[i as int].version;
                    assert(next[k].version == v && next[i as int].version == v);
                }
            }
        }
        i = i + 1;
    }
    proof {
        assert(all.take(i as int) =~= all);
        if string_views(dups@).len() > 0 {
            assert(string_views(dups@).contains(string_views(dups@)[0]));
            assert(duplicate_versions(all).contains(string_views(dups@)[0]));
        }
        if has_duplicate_versions(all) {
            let (a, b) = choose|a: int, b: int| 0 <= a < b < all.len() && all[a].version == all[b].version;
            assert(duplicate_versions(all).contains(all[a].version));
            assert(string_views(dups@).contains(all[a].version));
        }
    }
    dups
}

impl Vls {
    /// Parses a vls string.
    pub fn parse(s: &str) -> (r: Result<Vls, VlsError>)
        ensures
            match r {
                Ok(v) => spec_parse_vls(s@) == Ok::<SpecVls, SpecVlsError>(v@),
                Err(e) => spec_parse_vls(s@) == Err::<SpecVls, SpecVlsError>(e@),
            },
            r matches Ok(Vls::Constraints(cs)) ==> cs@.len() >= 1,
            r matches Err(VlsError::InvalidCharacters(bad)) ==> {
                &&& bad@.len() > 0
                &&& strictly_sorted(bad@, char_order())
                &&& holds_exactly(bad@, invalid_chars(s@, VlsSpecialCharSet::ConstraintsString))
            },
            r matches Err(VlsError::InvalidConstraints(es)) ==> es@.len() > 0,
            r matches Err(VlsError::DuplicateConstraintVersions(d)) ==> {
                &&& d@.len() > 0
                &&& strictly_sorted(string_views(d@), text_order())
                &&& holds_exactly(string_views(d@), duplicate_versions(s_constraints(s@)))
            },
    {
        let chars = chars_of(s);
        if chars.len() == 0 {
            return Err(VlsError::EmptyInput);
        }
        if chars.len() == 1 && chars[0] == '*' {
            assert(s@ =~= seq!['*']);
            return Ok(Vls::Any);
        }
        proof {
            if s@ == seq!['*'] {
                assert(s@[0] == '*');
            }
        }
        if starts_with_vers_prefix(&chars) {
            return Err(VlsError::ContainsVersPrefix);
        }
        if contains_char(&chars, '/') {
            return Err(VlsError::ContainsVersioningScheme);
        }
        match collect_invalid_characters(s, VlsSpecialCharSet::ConstraintsString) {
            Some(bad) => {
                return Err(VlsError::InvalidCharacters(bad));
            },
            None => {},
        }
        let (constraints, errors) = parse_pieces(s, &chars);
        proof {
            lemma_split_nonempty(s@, '|');
            if errors.len() == 0 {
                lemma_constraints_count(constraint_results(s@));
                assert(constraint_views(constraints@).len() == constraints@.len());
            }
        }
        if errors.len() > 0 {
            return Err(VlsError::InvalidConstraints(errors));
        }
        let dups = find_duplicate_versions(&constraints);
        if dups.len() > 0 {
            proof {
                lemma_text_order();
                lemma_sorted_elements(
                    string_views(dups@),
                    duplicate_versions(constraint_views(constraints@)),
                    text_order(),
                );
            }
            return Err(VlsError::DuplicateConstraintVersions(dups));
        }
        Ok(Vls::Constraints(constraints))
    }
}

impl Vls {
    /// Returns the constraints, or an empty slice for [`Any`](Self::Any).
    pub fn constraints(&self) -> (r: &[Constraint])
        ensures
            constraint_views(r@) == match self@ {
                SpecVls::Any => Seq::<SpecConstraint>::empty(),
                SpecVls::Constraints(cs) => cs,
            },
    {
        match self {
            Vls::Any => {
                let r: &[Constraint] = &[];
                assert(constraint_views(r@) =~= Seq::<SpecConstraint>::empty());
                r
            },
            Vls::Constraints(cs) => cs.as_slice(),
        }
    }

    /// Returns `true` if this was parsed from a single `*`.
    pub fn is_any(&self) -> (r: bool)
        ensures
            r == (self@ is Any),
    {
        match self {
            Vls::Any => true,
            Vls::Constraints(_) => false,
        }
    }

    /// Returns `true` if this specifier pins exactly one version, i.e. it
    /// holds a single constraint whose comparator is an equal (implicit or
    /// explicit).
    pub fn is_single_version(&self) -> (r: bool)
        ensures
            r == (self@ matches SpecVls::Constraints(cs) && cs.len() == 1
                && cs[0].comparator.spec_is_equal()),
            r == (self@ matches SpecVls::Constraints(cs) && cs.len() == 1 && (cs[0].comparator
                == Comparator::EqualImplicit || cs[0].comparator == Comparator::EqualExplicit)),
    {
        match self {
            Vls::Any => false,
            Vls::Constraints(cs) => cs.len() == 1 && cs[0].comparator().is_equal(),
        }
    }

    /// The text of the vls: `*`, or the constraints joined by `|`.
    pub fn to_string(&self) -> (s: String)
        ensures
            s@ == spec_vls_text(self@),
    {
        match self {
            Vls::Any => {
                proof {
                    reveal_strlit("*");
                }
                String::from_str("*")
            },
            Vls::Constraints(cs) => {
                let ghost texts = constraint_views(cs@).map_values(|c: SpecConstraint| c.text());
                let mut out = String::new();
                let mut i: usize = 0;
                proof {
                    reveal_strlit("|");
                    assert(texts.take(0) =~= Seq::<Seq<char>>::empty());
                }
                while i < cs.len()
                    invariant
                        i <= cs.len(),
                        texts == constraint_views(cs@).map_values(|c: SpecConstraint| c.text()),
                        out@ == join_with(texts.take(i as int), '|'),
                    decreases cs.len() - i,
                {
                    let ghost before = out@;
                    proof {
                        reveal_strlit("|");
                    }
                    if i > 0 {
                        out.append("|");
                    }
                    let piece = cs[i].to_string();
                    out.append(piece.as_str());
                    proof {
                        let next = texts.take(i + 1);
                        assert(next.drop_last() =~= texts.take(i as int));
                        assert(next.last() == texts[i as int]);
                        assert(texts[i as int] == cs@[i as int]@.text());
                        if i == 0 {
                            assert(out@ =~= next[0]);
                        } else {
                            assert(out@ =~= before + seq!['|'] + next.last());
                        }
                    }
                    i = i + 1;
                }
                proof {
                    assert(texts.take(i as int) =~= texts);
                }
                out
            },
        }
    }
}

impl core::str::FromStr for Vls {
    type Err = VlsError;

    fn from_str(s: &str) -> (r: Result<Self, Self::Err>)
        ensures
            match r {
                Ok(v) => spec_parse_vls(s@) == Ok::<SpecVls, SpecVlsError>(v@),
                Err(e) => spec_parse_vls(s@) == Err::<SpecVls, SpecVlsError>(e@),
            },
    {
        Vls::parse(s)
    }
}

} // verus!
