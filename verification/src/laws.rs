//! What holds between parsing and writing back: the text of a parsed value is
//! the text it was parsed from, and a well-formed value parses back from its
//! text.

use vstd::prelude::*;
use vstd::std_specs::cmp::PartialEqSpec;

use crate::comparator::{has_prefix, lemma_extract_splits, lemma_prefix_one, lemma_prefix_two, Comparator};
use crate::constraint::{spec_parse_constraint, SpecConstraint, SpecConstraintError};
use crate::valid_chars::{all_allowed, VlsSpecialCharSet};
use crate::version::{is_valid_version, spec_parse_version, VersionString};
use crate::vls::{
    constraint_results, constraints_of, errors_of, has_duplicate_versions, join_with,
    lemma_split_nonempty, spec_parse_vls, spec_vls_text, split_on, vers_prefix, SpecVls,
    SpecVlsError,
};

verus! {

proof fn lemma_join_push_last(parts: Seq<Seq<char>>, sep: char, c: char)
    requires
        parts.len() >= 1,
    ensures
        join_with(parts.update(parts.len() - 1, parts.last().push(c)), sep) == join_with(
            parts,
            sep,
        ).push(c),
{
    let np = parts.update(parts.len() - 1, parts.last().push(c));
    if parts.len() == 1 {
        assert(np[0] == parts[0].push(c));
    } else {
        assert(np.drop_last() =~= parts.drop_last());
        assert(np.last() == parts.last().push(c));
        assert(join_with(np, sep) =~= join_with(parts, sep).push(c));
    }
}

/// Splitting a text on a separator and joining the pieces with the same
/// separator gives the text back.
pub proof fn lemma_join_split(s: Seq<char>, sep: char)
    ensures
        join_with(split_on(s, sep), sep) == s,
    decreases s.len(),
{
    if s.len() == 0 {
        assert(join_with(split_on(s, sep), sep) =~= s);
    } else {
        let init = s.drop_last();
        let prev = split_on(init, sep);
        lemma_join_split(init, sep);
        lemma_split_nonempty(init, sep);
        if s.last() == sep {
            let sp = prev.push(Seq::<char>::empty());
            assert(sp.drop_last() =~= prev);
            assert(join_with(sp, sep) =~= init + seq![sep] + Seq::<char>::empty());
        } else {
            lemma_join_push_last(prev, sep, s.last());
        }
        assert(s =~= init.push(s.last()));
    }
}

/// Splitting `a + b`, where `b` holds no separator, gives the pieces of `a`
/// with `b` added to the last one.
proof fn lemma_split_append(a: Seq<char>, b: Seq<char>, sep: char)
    requires
        !b.contains(sep),
    ensures
        split_on(a + b, sep) == split_on(a, sep).update(
            split_on(a, sep).len() - 1,
            split_on(a, sep).last() + b,
        ),
    decreases b.len(),
{
    lemma_split_nonempty(a, sep);
    let sa = split_on(a, sep);
    if b.len() == 0 {
        assert(a + b =~= a);
        assert(sa.last() + b =~= sa.last());
        assert(sa.update(sa.len() - 1, sa.last() + b) =~= sa);
    } else {
        let bi = b.drop_last();
        assert(!bi.contains(sep)) by {
            if bi.contains(sep) {
                let k = choose|k: int| 0 <= k < bi.len() && bi[k] == sep;
                assert(b[k] == sep);
            }
        }
        assert(b.contains(b.last()));
        lemma_split_append(a, bi, sep);
        assert((a + b).drop_last() =~= a + bi);
        assert((a + b).last() == b.last());
        let prev = split_on(a + bi, sep);
        assert(prev.len() == sa.len());
        assert(split_on(a + b, sep) == prev.update(prev.len() - 1, prev.last().push(b.last())));
        assert(prev.last() == sa.last() + bi);
        assert((sa.last() + bi).push(b.last()) =~= sa.last() + b);
        assert(split_on(a + b, sep) =~= sa.update(sa.len() - 1, sa.last() + b));
    }
}

/// Joining pieces that hold no separator and splitting the result gives the
/// pieces back.
pub proof fn lemma_split_join(parts: Seq<Seq<char>>, sep: char)
    requires
        parts.len() >= 1,
        forall|i: int| 0 <= i < parts.len() ==> !(#[trigger] parts[i]).contains(sep),
    ensures
        split_on(join_with(parts, sep), sep) == parts,
    decreases parts.len(),
{
    let empty = Seq::<char>::empty();
    if parts.len() == 1 {
        lemma_split_append(empty, parts[0], sep);
        assert(empty + parts[0] =~= parts[0]);
        assert(split_on(empty, sep) =~= seq![empty]);
        assert(split_on(join_with(parts, sep), sep) =~= parts);
    } else {
        let init = parts.drop_last();
        assert forall|i: int| 0 <= i < init.len() implies !(#[trigger] init[i]).contains(sep) by {
            assert(init[i] == parts[i]);
        }
        lemma_split_join(init, sep);
        let ji = join_with(init, sep);
        let with_sep = ji.push(sep);
        assert(with_sep.drop_last() =~= ji);
        assert(split_on(with_sep, sep) == split_on(ji, sep).push(empty));
        assert(!parts.last().contains(sep));
        lemma_split_append(with_sep, parts.last(), sep);
        assert(ji + seq![sep] + parts.last() =~= with_sep + parts.last());
        assert(split_on(join_with(parts, sep), sep) =~= parts);
    }
}

/// When no result is an error, the constraints are all the results.
proof fn lemma_no_errors(results: Seq<Result<SpecConstraint, SpecConstraintError>>)
    requires
        errors_of(results).len() == 0,
    ensures
        constraints_of(results).len() == results.len(),
        forall|i: int|
            0 <= i < results.len() ==> results[i] == Ok::<SpecConstraint, SpecConstraintError>(
                #[trigger] constraints_of(results)[i],
            ),
    decreases results.len(),
{
    if results.len() > 0 {
        let init = results.drop_last();
        if errors_of(init).len() > 0 {
            assert(false);
        }
        lemma_no_errors(init);
        assert forall|i: int| 0 <= i < results.len() implies results[i] == Ok::<
            SpecConstraint,
            SpecConstraintError,
        >(#[trigger] constraints_of(results)[i]) by {
            if i < init.len() {
                assert(results[i] == init[i]);
            }
        }
    }
}

/// When every result is the matching constraint of `cs`, there is no error and
/// the constraints are `cs`.
proof fn lemma_all_ok(
    results: Seq<Result<SpecConstraint, SpecConstraintError>>,
    cs: Seq<SpecConstraint>,
)
    requires
        results.len() == cs.len(),
        forall|i: int|
            0 <= i < results.len() ==> #[trigger] results[i] == Ok::<
                SpecConstraint,
                SpecConstraintError,
            >(cs[i]),
    ensures
        errors_of(results).len() == 0,
        constraints_of(results) == cs,
    decreases results.len(),
{
    if results.len() > 0 {
        let init = results.drop_last();
        assert forall|i: int| 0 <= i < init.len() implies #[trigger] init[i] == Ok::<
            SpecConstraint,
            SpecConstraintError,
        >(cs.drop_last()[i]) by {
            assert(results[i] == Ok::<SpecConstraint, SpecConstraintError>(cs[i]));
        }
        lemma_all_ok(init, cs.drop_last());
        assert(results[results.len() - 1] == Ok::<SpecConstraint, SpecConstraintError>(
            cs[cs.len() - 1],
        ));
        assert(constraints_of(results) =~= cs);
    }
}

/// The text of a parsed constraint is the text it was parsed from.
pub proof fn lemma_constraint_text(p: Seq<char>, c: SpecConstraint)
    requires
        spec_parse_constraint(p) == Ok::<SpecConstraint, SpecConstraintError>(c),
    ensures
        c.text() == p,
        is_valid_version(c.version),
{
    lemma_extract_splits(p);
    let (comparator, rest) = Comparator::spec_extract(p);
    assert(spec_parse_version(rest) == Ok::<Seq<char>, SpecConstraintError>(c.version));
}

/// A constraint with a valid version parses back from its text.
pub proof fn lemma_constraint_parses_back(c: SpecConstraint)
    requires
        is_valid_version(c.version),
    ensures
        spec_parse_constraint(c.text()) == Ok::<SpecConstraint, SpecConstraintError>(c),
{
    let v = c.version;
    let t = c.text();
    let sym = c.comparator.symbol();
    assert(VlsSpecialCharSet::VersionString.allows(v[0]));
    let first = v[0];
    assert(first != '<' && first != '>' && first != '=' && first != '!') by {
        let sc = VlsSpecialCharSet::VersionString.special_chars();
        if sc.contains(first) {
            let k = choose|k: int| 0 <= k < sc.len() && sc[k] == first;
            assert(k == 0 || k == 1 || k == 2 || k == 3 || k == 4);
        }
    }
    lemma_prefix_two(t, '>', '=');
    lemma_prefix_two(t, '<', '=');
    lemma_prefix_two(t, '!', '=');
    lemma_prefix_one(t, '>');
    lemma_prefix_one(t, '<');
    lemma_prefix_one(t, '=');
    assert(t[sym.len() as int] == first);
    if sym.len() > 0 {
        assert(t[0] == sym[0]);
    }
    if sym.len() > 1 {
        assert(t[1] == sym[1]);
    }
    assert(t.skip(sym.len() as int) =~= v);
    assert(sym.len() == 0 ==> t =~= v);
    assert(Comparator::spec_extract(t) == (c.comparator, v));
    assert(spec_parse_version(v) == Ok::<Seq<char>, SpecConstraintError>(v));
}

/// A character allowed in a version string is allowed in a constraints
/// string, and is not `|`.
proof fn lemma_version_char_allowed(c: char)
    requires
        VlsSpecialCharSet::VersionString.allows(c),
    ensures
        VlsSpecialCharSet::ConstraintsString.allows(c),
        c != '|',
{
    let vs = VlsSpecialCharSet::VersionString.special_chars();
    let cs = VlsSpecialCharSet::ConstraintsString.special_chars();
    if vs.contains(c) {
        let k = choose|k: int| 0 <= k < vs.len() && vs[k] == c;
        assert(cs[k] == c);
    }
}

/// Every character of a constraint text with a valid version is allowed in a
/// constraints string, and none is `|`.
proof fn lemma_constraint_text_chars(c: SpecConstraint)
    requires
        is_valid_version(c.version),
    ensures
        all_allowed(c.text(), VlsSpecialCharSet::ConstraintsString),
        !c.text().contains('|'),
        c.text().len() > 0,
{
    let t = c.text();
    let sym = c.comparator.symbol();
    let cs = VlsSpecialCharSet::ConstraintsString.special_chars();
    assert(cs[5] == '=' && cs[6] == '!' && cs[7] == '<' && cs[8] == '>');
    assert forall|k: int| 0 <= k < t.len() implies VlsSpecialCharSet::ConstraintsString.allows(#[trigger] t[k]) && t[k] != '|' by {
        if k < sym.len() {
            assert(t[k] == sym[k]);
            assert(cs.contains(sym[k]));
        } else {
            assert(t[k] == c.version[k - sym.len()]);
            assert(VlsSpecialCharSet::VersionString.allows(c.version[k - sym.len()]));
            lemma_version_char_allowed(t[k]);
        }
    }
    if t.contains('|') {
        let k = choose|k: int| 0 <= k < t.len() && t[k] == '|';
        assert(VlsSpecialCharSet::ConstraintsString.allows(t[k]) && t[k] != '|');
    }
}

/// Joining pieces whose characters are all allowed in a constraints string,
/// with `|`, gives a text whose characters are all allowed too.
proof fn lemma_join_allowed(parts: Seq<Seq<char>>)
    requires
        forall|i: int|
            0 <= i < parts.len() ==> all_allowed(
                #[trigger] parts[i],
                VlsSpecialCharSet::ConstraintsString,
            ),
    ensures
        all_allowed(join_with(parts, '|'), VlsSpecialCharSet::ConstraintsString),
    decreases parts.len(),
{
    let set = VlsSpecialCharSet::ConstraintsString;
    if parts.len() == 1 {
        assert(all_allowed(parts[0], set));
    } else if parts.len() > 1 {
        let init = parts.drop_last();
        assert forall|i: int| 0 <= i < init.len() implies all_allowed(#[trigger] init[i], set) by {
            assert(init[i] == parts[i]);
        }
        lemma_join_allowed(init);
        let a = join_with(init, '|');
        let l = parts.last();
        assert(all_allowed(l, set));
        let j = join_with(parts, '|');
        assert(j == a + seq!['|'] + l);
        assert(set.special_chars()[9] == '|');
        assert forall|k: int| 0 <= k < j.len() implies #[trigger] set.allows(j[k]) by {
            if k < a.len() {
                assert(j[k] == a[k]);
            } else if k == a.len() {
                assert(j[k] == '|');
                assert(set.special_chars().contains('|'));
            } else {
                assert(j[k] == l[k - a.len() - 1]);
            }
        }
    }
}

/// The text of a parsed vls is the text it was parsed from.
pub proof fn lemma_parse_text_roundtrip(s: Seq<char>, v: SpecVls)
    requires
        spec_parse_vls(s) == Ok::<SpecVls, SpecVlsError>(v),
    ensures
        spec_vls_text(v) == s,
{
    match v {
        SpecVls::Any => {},
        SpecVls::Constraints(cs) => {
            let parts = split_on(s, '|');
            let results = constraint_results(s);
            lemma_no_errors(results);
            let texts = cs.map_values(|c: SpecConstraint| c.text());
            assert forall|i: int| 0 <= i < texts.len() implies texts[i] == parts[i] by {
                assert(results[i] == spec_parse_constraint(parts[i]));
                assert(results[i] == Ok::<SpecConstraint, SpecConstraintError>(
                    constraints_of(results)[i],
                ));
                lemma_constraint_text(parts[i], cs[i]);
            }
            assert(texts =~= parts);
            lemma_join_split(s, '|');
        },
    }
}

/// A well-formed vls (the wildcard, or at least one constraint, every version
/// valid, no version twice) parses back from its text.
pub proof fn lemma_text_parses_back(v: SpecVls)
    requires
        v matches SpecVls::Constraints(cs) ==> {
            &&& cs.len() >= 1
            &&& forall|i: int| 0 <= i < cs.len() ==> is_valid_version(#[trigger] cs[i].version)
            &&& !has_duplicate_versions(cs)
        },
    ensures
        spec_parse_vls(spec_vls_text(v)) == Ok::<SpecVls, SpecVlsError>(v),
{
    match v {
        SpecVls::Any => {},
        SpecVls::Constraints(cs) => {
            let set = VlsSpecialCharSet::ConstraintsString;
            let texts = cs.map_values(|c: SpecConstraint| c.text());
            let s = join_with(texts, '|');
            assert forall|i: int| 0 <= i < texts.len() implies {
                &&& all_allowed(#[trigger] texts[i], set)
                &&& !texts[i].contains('|')
                &&& texts[i].len() > 0
            } by {
                assert(is_valid_version(cs[i].version));
                lemma_constraint_text_chars(cs[i]);
            }
            lemma_split_join(texts, '|');
            lemma_join_allowed(texts);
            assert(all_allowed(s, set));
            if s.len() == 0 {
                assert(split_on(s, '|') =~= seq![Seq::<char>::empty()]);
                assert(texts[0].len() > 0);
            }
            assert(s.len() > 0);
            assert(set.allows(s[0]));
            let sc = set.special_chars();
            assert(!sc.contains('*') && !sc.contains(':') && !sc.contains('/')) by {
                assert forall|k: int| 0 <= k < sc.len() implies sc[k] != '*' && sc[k] != ':' && sc[k] != '/' by {
                    assert(k == 0 || k == 1 || k == 2 || k == 3 || k == 4 || k == 5 || k == 6 || k == 7 || k == 8 || k == 9);
                }
            }
            assert(s != seq!['*']) by {
                if s == seq!['*'] {
                    assert(s[0] == '*');
                }
            }
            assert(!has_prefix(s, vers_prefix())) by {
                if has_prefix(s, vers_prefix()) {
                    assert(s.take(5)[4] == ':');
                    assert(set.allows(s[4]));
                }
            }
            assert(!s.contains('/')) by {
                if s.contains('/') {
                    let k = choose|k: int| 0 <= k < s.len() && s[k] == '/';
                    assert(set.allows(s[k]));
                }
            }
            let results = constraint_results(s);
            assert forall|i: int| 0 <= i < results.len() implies #[trigger] results[i] == Ok::<
                SpecConstraint,
                SpecConstraintError,
            >(cs[i]) by {
                assert(is_valid_version(cs[i].version));
                lemma_constraint_parses_back(cs[i]);
                assert(results[i] == spec_parse_constraint(texts[i]));
            }
            lemma_all_ok(results, cs);
        },
    }
}

/// Parsing the text of a parsed vls gives the same vls.
pub proof fn lemma_reparse(s: Seq<char>, v: SpecVls)
    requires
        spec_parse_vls(s) == Ok::<SpecVls, SpecVlsError>(v),
    ensures
        spec_parse_vls(spec_vls_text(v)) == Ok::<SpecVls, SpecVlsError>(v),
{
    lemma_parse_text_roundtrip(s, v);
}

/// A parsed list of constraints is well-formed: it has at least one
/// constraint, every version is valid, and no version occurs twice.
pub proof fn lemma_parsed_well_formed(s: Seq<char>, cs: Seq<SpecConstraint>)
    requires
        spec_parse_vls(s) == Ok::<SpecVls, SpecVlsError>(SpecVls::Constraints(cs)),
    ensures
        cs.len() >= 1,
        forall|i: int| 0 <= i < cs.len() ==> is_valid_version(#[trigger] cs[i].version),
        !has_duplicate_versions(cs),
        forall|i: int, j: int| 0 <= i < j < cs.len() ==> cs[i].version != cs[j].version,
{
    let parts = split_on(s, '|');
    let results = constraint_results(s);
    lemma_split_nonempty(s, '|');
    lemma_no_errors(results);
    assert forall|i: int| 0 <= i < cs.len() implies is_valid_version(#[trigger] cs[i].version) by {
        assert(results[i] == spec_parse_constraint(parts[i]));
        assert(results[i] == Ok::<SpecConstraint, SpecConstraintError>(constraints_of(results)[i]));
        lemma_constraint_text(parts[i], cs[i]);
    }
}

/// A character of the version-string grammar: an ASCII digit, an ASCII letter
/// (upper or lower case), or one of `-`, `.`, `_`, `+`, `~`.
pub open spec fn version_grammar_char(c: char) -> bool {
    ('0' <= c && c <= '9') || ('A' <= c && c <= 'Z') || ('a' <= c && c <= 'z') || c == '-' || c
        == '.' || c == '_' || c == '+' || c == '~'
}

/// The characters a version string allows are exactly those of the grammar:
/// ASCII digits, ASCII letters of both cases, and `-`, `.`, `_`, `+`, `~`.
pub proof fn lemma_version_chars(c: char)
    ensures
        VlsSpecialCharSet::VersionString.allows(c) <==> version_grammar_char(c),
{
    let sc = VlsSpecialCharSet::VersionString.special_chars();
    if sc.contains(c) {
        let k = choose|k: int| 0 <= k < sc.len() && sc[k] == c;
        assert(k == 0 || k == 1 || k == 2 || k == 3 || k == 4);
    }
    if c == '-' {
        assert(sc[0] == c);
    }
    if c == '.' {
        assert(sc[1] == c);
    }
    if c == '_' {
        assert(sc[2] == c);
    }
    if c == '+' {
        assert(sc[3] == c);
    }
    if c == '~' {
        assert(sc[4] == c);
    }
}

/// A text parses as a version string exactly when it is non-empty and every
/// character is of the grammar; the version is then the text itself. So, for
/// example, `1.0.0-RC1` is a version string.
pub proof fn lemma_version_parse_grammar(s: Seq<char>)
    ensures
        (spec_parse_version(s) is Ok) <==> (s.len() > 0 && forall|i: int|
            0 <= i < s.len() ==> version_grammar_char(#[trigger] s[i])),
        spec_parse_version(s) is Ok ==> spec_parse_version(s) == Ok::<
            Seq<char>,
            SpecConstraintError,
        >(s),
{
    assert forall|i: int| 0 <= i < s.len() implies (VlsSpecialCharSet::VersionString.allows(
        #[trigger] s[i],
    ) <==> version_grammar_char(s[i])) by {
        lemma_version_chars(s[i]);
    }
}

/// Two comparators are equal exactly when both are equal comparators
/// (implicit or explicit) or they are the same variant; hashing agrees: two
/// comparators get the same hash key exactly when they are equal. `==` on
/// comparators follows this relation.
pub proof fn lemma_comparator_equality(a: Comparator, b: Comparator)
    ensures
        a.equivalent(b) <==> ((a == Comparator::EqualImplicit || a == Comparator::EqualExplicit)
            && (b == Comparator::EqualImplicit || b == Comparator::EqualExplicit)) || a == b,
        (a.spec_hash_key() == b.spec_hash_key()) <==> ((a == Comparator::EqualImplicit || a
            == Comparator::EqualExplicit) && (b == Comparator::EqualImplicit || b
            == Comparator::EqualExplicit)) || a == b,
        a.spec_is_equal() <==> (a == Comparator::EqualImplicit || a == Comparator::EqualExplicit),
        <Comparator as PartialEqSpec>::obeys_eq_spec(),
        a.eq_spec(&b) == a.equivalent(b),
{
}

/// Two version strings are equal exactly when their texts are equal; `==` on
/// version strings follows this relation.
pub proof fn lemma_version_string_equality(a: VersionString, b: VersionString)
    ensures
        <VersionString as PartialEqSpec>::obeys_eq_spec(),
        a.eq_spec(&b) <==> a@ == b@,
{
}

/// When two pieces of a text parse as constraints with the same version,
/// whatever their comparators, the text is not accepted.
pub proof fn lemma_repeated_version_refused(s: Seq<char>, i: int, j: int)
    requires
        0 <= i < j < split_on(s, '|').len(),
        spec_parse_constraint(split_on(s, '|')[i]) matches Ok(ci)
            && spec_parse_constraint(split_on(s, '|')[j]) matches Ok(cj)
            && ci.version == cj.version,
    ensures
        !(spec_parse_vls(s) is Ok),
{
    if s == seq!['*'] {
        let e = Seq::<char>::empty();
        assert(s.drop_last() =~= e);
        assert(split_on(e, '|') =~= seq![e]);
        assert(split_on(s, '|').len() == 1);
    }
    match spec_parse_vls(s) {
        Ok(SpecVls::Constraints(cs)) => {
            let results = constraint_results(s);
            lemma_no_errors(results);
            assert(results[i] == spec_parse_constraint(split_on(s, '|')[i]));
            assert(results[j] == spec_parse_constraint(split_on(s, '|')[j]));
            assert(results[i] == Ok::<SpecConstraint, SpecConstraintError>(cs[i]));
            assert(results[j] == Ok::<SpecConstraint, SpecConstraintError>(cs[j]));
            lemma_parsed_well_formed(s, cs);
        },
        _ => {},
    }
}

} // verus!
