//! Validated version strings.

use vstd::prelude::*;

use crate::constraint::{ConstraintError, SpecConstraintError};
use crate::valid_chars::{
    all_allowed, collect_invalid_characters, spec_invalid_characters, VlsSpecialCharSet,
};

verus! {

broadcast use vstd::string::group_string_axioms;

/// `s` is a valid version string: not empty, and only ASCII letters, digits
/// and `-`, `.`, `_`, `+`, `~`.
pub open spec fn is_valid_version(s: Seq<char>) -> bool {
    s.len() > 0 && all_allowed(s, VlsSpecialCharSet::VersionString)
}

/// What parsing `s` as a version string gives: the empty text is refused
/// first, then a text with characters outside the version grammar, with those
/// characters ascending and each once.
pub open spec fn spec_parse_version(s: Seq<char>) -> Result<Seq<char>, SpecConstraintError> {
    if s.len() == 0 {
        Err(SpecConstraintError::EmptyConstraintVersion)
    } else {
        match spec_invalid_characters(s, VlsSpecialCharSet::VersionString) {
            Some(bad) => Err(SpecConstraintError::InvalidConstraintVersionCharacters(bad)),
            None => Ok(s),
        }
    }
}

/// A validated version string: non-empty, and made of ASCII letters, digits
/// and `-`, `.`, `_`, `+`, `~` only.
#[derive(Debug, Hash)]
pub struct VersionString {
    value: String,
}

impl View for VersionString {
    type V = Seq<char>;

    closed spec fn view(&self) -> Seq<char> {
        self.value@
    }
}

impl VersionString {
    #[verifier::type_invariant]
    closed spec fn inv(self) -> bool {
        is_valid_version(self.value@)
    }

    /// Parses and validates a version string.
    pub fn parse(s: &str) -> (r: Result<VersionString, ConstraintError>)
        ensures
            match r {
                Ok(v) => spec_parse_version(s@) == Ok::<Seq<char>, SpecConstraintError>(v@),
                Err(e) => spec_parse_version(s@) == Err::<Seq<char>, SpecConstraintError>(e@),
            },
    {
        if s.unicode_len() == 0 {
            return Err(ConstraintError::EmptyConstraintVersion);
        }
        match collect_invalid_characters(s, VlsSpecialCharSet::VersionString) {
            Some(bad) => Err(ConstraintError::InvalidConstraintVersionCharacters(bad)),
            None => Ok(VersionString { value: String::from_str(s) }),
        }
    }

    /// The version string as a string slice.
    /// Every version string is valid.
    pub fn as_str(&self) -> (s: &str)
        ensures
            s@ == self@,
            is_valid_version(self@),
    {
        proof {
            use_type_invariant(self);
        }
        self.value.as_str()
    }

    /// The version string as an owned string.
    pub fn to_string(&self) -> (s: String)
        ensures
            s@ == self@,
    {
        self.value.clone()
    }
}

impl PartialEq for VersionString {
    fn eq(&self, other: &Self) -> (r: bool) {
        self.value == other.value
    }
}

impl vstd::std_specs::cmp::PartialEqSpecImpl for VersionString {
    open spec fn obeys_eq_spec() -> bool {
        true
    }

    open spec fn eq_spec(&self, other: &Self) -> bool {
        self@ == other@
    }
}

impl Eq for VersionString {
}

impl Clone for VersionString {
    fn clone(&self) -> (r: Self)
        ensures
            r@ == self@,
    {
        proof {
            use_type_invariant(self);
        }
        VersionString { value: self.value.clone() }
    }
}

impl core::str::FromStr for VersionString {
    type Err = ConstraintError;

    fn from_str(s: &str) -> (r: Result<Self, Self::Err>)
        ensures
            match r {
                Ok(v) => spec_parse_version(s@) == Ok::<Seq<char>, SpecConstraintError>(v@),
                Err(e) => spec_parse_version(s@) == Err::<Seq<char>, SpecConstraintError>(e@),
            },
    {
        VersionString::parse(s)
    }
}

} // verus!
