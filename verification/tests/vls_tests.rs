use std::collections::hash_map::DefaultHasher;
use std::hash::{Hash, Hasher};

use vls::comparator::Comparator;
use vls::constraint::{Constraint, ConstraintError};
use vls::valid_chars::{collect_invalid_characters, VlsSpecialCharSet};
use vls::version::VersionString;
use vls::vls::{Vls, VlsError};

fn hash_of<T: Hash>(t: &T) -> u64 {
    let mut h = DefaultHasher::new();
    t.hash(&mut h);
    h.finish()
}

#[test]
fn readme_usage() {
    let vls: Vls = ">=1.0.0|<2.0.0".parse().unwrap();
    assert_eq!(vls.constraints().len(), 2);
    assert_eq!(vls.to_string(), ">=1.0.0|<2.0.0");
    let constraints = vls.constraints();
    assert_eq!(constraints[0].comparator(), &Comparator::GreaterThanOrEqual);
    assert_eq!(constraints[0].version().to_string(), "1.0.0");
    assert_eq!(constraints[1].comparator(), &Comparator::LessThan);
    assert_eq!(constraints[1].version().to_string(), "2.0.0");
}

#[test]
fn doc_examples() {
    let vls: Vls = "<=2".parse().unwrap();
    assert_eq!(vls.constraints().len(), 1);
    let vls: Vls = ">10.9a|!=10.9c|!=10.9f|<=10.9k".parse().unwrap();
    assert_eq!(vls.constraints().len(), 4);
    assert_eq!(vls.to_string(), ">10.9a|!=10.9c|!=10.9f|<=10.9k");
}

#[test]
fn wildcard_is_any() {
    let vls = Vls::parse("*").unwrap();
    assert!(vls.is_any());
    assert_eq!(vls, Vls::Any);
    assert!(vls.constraints().is_empty());
    assert!(!vls.is_single_version());
    assert_eq!(vls.to_string(), "*");
}

#[test]
fn empty_input() {
    assert_eq!(Vls::parse(""), Err(VlsError::EmptyInput));
}

#[test]
fn vers_prefix_refused() {
    assert_eq!(Vls::parse("vers:npm/1.2.3"), Err(VlsError::ContainsVersPrefix));
    assert_eq!(Vls::parse("vers:1"), Err(VlsError::ContainsVersPrefix));
}

#[test]
fn versioning_scheme_refused() {
    assert_eq!(Vls::parse("gem/>=2.2.0"), Err(VlsError::ContainsVersioningScheme));
}

#[test]
fn invalid_characters_sorted_and_deduplicated() {
    assert_eq!(Vls::parse("1.0 2.0"), Err(VlsError::InvalidCharacters(vec![' '])));
    assert_eq!(
        Vls::parse("a$b#a$#"),
        Err(VlsError::InvalidCharacters(vec!['#', '$']))
    );
    assert_eq!(Vls::parse("1*"), Err(VlsError::InvalidCharacters(vec!['*'])));
    assert_eq!(Vls::parse("ä1"), Err(VlsError::InvalidCharacters(vec!['ä'])));
}

#[test]
fn invalid_constraints_in_order() {
    assert_eq!(
        Vls::parse("||"),
        Err(VlsError::InvalidConstraints(vec![
            ConstraintError::EmptyConstraint,
            ConstraintError::EmptyConstraint,
            ConstraintError::EmptyConstraint,
        ]))
    );
    assert_eq!(
        Vls::parse("1|>=|<=<2|3"),
        Err(VlsError::InvalidConstraints(vec![
            ConstraintError::EmptyConstraintVersion,
            ConstraintError::InvalidConstraintVersionCharacters(vec!['<']),
        ]))
    );
    assert_eq!(
        Vls::parse("|1"),
        Err(VlsError::InvalidConstraints(vec![ConstraintError::EmptyConstraint]))
    );
}

#[test]
fn duplicate_versions_sorted() {
    assert_eq!(
        Vls::parse("1|>=1"),
        Err(VlsError::DuplicateConstraintVersions(vec!["1".to_string()]))
    );
    assert_eq!(
        Vls::parse("b|a|>b|<a|b"),
        Err(VlsError::DuplicateConstraintVersions(vec![
            "a".to_string(),
            "b".to_string()
        ]))
    );
    assert_eq!(
        Vls::parse("10|1|=10|=1"),
        Err(VlsError::DuplicateConstraintVersions(vec![
            "1".to_string(),
            "10".to_string()
        ]))
    );
}

#[test]
fn error_precedence() {
    // A version prefix is reported before a scheme delimiter or bad characters.
    assert_eq!(Vls::parse("vers:a/b"), Err(VlsError::ContainsVersPrefix));
    // A scheme delimiter before invalid characters.
    assert_eq!(Vls::parse("a/ b"), Err(VlsError::ContainsVersioningScheme));
    // Invalid characters before invalid constraints.
    assert_eq!(Vls::parse("|| "), Err(VlsError::InvalidCharacters(vec![' '])));
    // Invalid constraints before duplicates.
    assert_eq!(
        Vls::parse("1|1|"),
        Err(VlsError::InvalidConstraints(vec![ConstraintError::EmptyConstraint]))
    );
}

#[test]
fn single_version() {
    assert!(Vls::parse("1.2").unwrap().is_single_version());
    assert!(Vls::parse("=1.2").unwrap().is_single_version());
    assert!(!Vls::parse(">1.2").unwrap().is_single_version());
    assert!(!Vls::parse("1|2").unwrap().is_single_version());
    assert!(!Vls::parse("1").unwrap().is_any());
}

#[test]
fn text_roundtrip() {
    for s in ["1", "=1", "!=1.0-rc1", "<1|>2", "<=a~b|>=c_d+e", "*", "v1.2|vers"] {
        let v = Vls::parse(s).unwrap();
        assert_eq!(v.to_string(), s);
        assert_eq!(Vls::parse(&v.to_string()).unwrap(), v);
    }
}

#[test]
fn well_formed_constructed_value_parses_back() {
    let v = Vls::Constraints(vec![
        Constraint::parse(">=2").unwrap(),
        Constraint::parse("1").unwrap(),
    ]);
    assert_eq!(v.to_string(), ">=2|1");
    assert_eq!(Vls::parse(&v.to_string()).unwrap(), v);
}

#[test]
fn implicit_and_explicit_equal_compare_equal() {
    assert_eq!(Comparator::EqualImplicit, Comparator::EqualExplicit);
    assert!(!Comparator::EqualImplicit.is_same_variant(&Comparator::EqualExplicit));
    assert!(Comparator::EqualImplicit.is_same_variant(&Comparator::EqualImplicit));
    assert_ne!(Comparator::LessThan, Comparator::LessThanOrEqual);
    assert_eq!(
        hash_of(&Comparator::EqualImplicit),
        hash_of(&Comparator::EqualExplicit)
    );
    assert_eq!(Vls::parse("1").unwrap(), Vls::parse("=1").unwrap());
    assert_eq!(
        hash_of(&Constraint::parse("1").unwrap()),
        hash_of(&Constraint::parse("=1").unwrap())
    );
}

#[test]
fn comparator_text() {
    assert_eq!(Comparator::EqualImplicit.as_ref(), "");
    assert_eq!(Comparator::EqualExplicit.as_ref(), "=");
    assert_eq!(Comparator::NotEqual.as_ref(), "!=");
    assert_eq!(Comparator::LessThan.as_ref(), "<");
    assert_eq!(Comparator::LessThanOrEqual.as_ref(), "<=");
    assert_eq!(Comparator::GreaterThan.as_ref(), ">");
    assert_eq!(Comparator::GreaterThanOrEqual.to_string(), ">=");
    assert!(Comparator::EqualImplicit.is_equal());
    assert!(Comparator::EqualExplicit.is_equal());
    assert!(!Comparator::NotEqual.is_equal());
}

#[test]
fn extract_comparator_precedence() {
    let cases = [
        (">=1", Comparator::GreaterThanOrEqual, "1"),
        ("<=1", Comparator::LessThanOrEqual, "1"),
        ("!=1", Comparator::NotEqual, "1"),
        (">1", Comparator::GreaterThan, "1"),
        ("<1", Comparator::LessThan, "1"),
        ("=1", Comparator::EqualExplicit, "1"),
        ("1", Comparator::EqualImplicit, "1"),
        ("!1", Comparator::EqualImplicit, "!1"),
        ("=>1", Comparator::EqualExplicit, ">1"),
        ("", Comparator::EqualImplicit, ""),
        (">", Comparator::GreaterThan, ""),
    ];
    for (input, cmp, rest) in cases {
        let (c, r) = Comparator::extract_comparator(input);
        assert!(c.is_same_variant(&cmp), "{input}");
        assert_eq!(r, rest);
    }
}

#[test]
fn constraint_parsing() {
    assert_eq!(Constraint::parse(""), Err(ConstraintError::EmptyConstraint));
    assert_eq!(Constraint::parse("<="), Err(ConstraintError::EmptyConstraintVersion));
    assert_eq!(
        Constraint::parse("!"),
        Err(ConstraintError::InvalidConstraintVersionCharacters(vec!['!']))
    );
    let c: Constraint = "!=3.1".parse().unwrap();
    assert_eq!(c.comparator(), &Comparator::NotEqual);
    assert_eq!(c.version().as_str(), "3.1");
    assert_eq!(c.to_string(), "!=3.1");
}

#[test]
fn version_string_parsing() {
    assert_eq!(VersionString::parse(""), Err(ConstraintError::EmptyConstraintVersion));
    assert_eq!(
        VersionString::parse("1|2=3"),
        Err(ConstraintError::InvalidConstraintVersionCharacters(vec!['=', '|']))
    );
    let v: VersionString = "1.0-beta+build~1_x".parse().unwrap();
    assert_eq!(v.to_string(), "1.0-beta+build~1_x");
    assert_eq!(v.clone(), v);
}

#[test]
fn invalid_character_collection() {
    assert_eq!(
        collect_invalid_characters("abc123", VlsSpecialCharSet::VersionString),
        None
    );
    assert_eq!(
        collect_invalid_characters("a<b>c", VlsSpecialCharSet::ConstraintsString),
        None
    );
    assert_eq!(
        collect_invalid_characters("a<b>c", VlsSpecialCharSet::VersionString),
        Some(vec!['<', '>'])
    );
    assert_eq!(
        collect_invalid_characters("zz  @@!", VlsSpecialCharSet::VersionString),
        Some(vec![' ', '!', '@'])
    );
    assert_eq!(collect_invalid_characters("", VlsSpecialCharSet::VersionString), None);
}
