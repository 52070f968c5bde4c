//! A single constraint: a comparator and a version string.

use vstd::prelude::*;

use crate::comparator::Comparator;
use crate::version::{is_valid_version, spec_parse_version, VersionString};

verus! {

broadcast use vstd::string::group_string_axioms;

/// The value of a constraint: its comparator and the text of its version.
pub struct SpecConstraint {
    pub comparator: Comparator,
    pub version: Seq<char>,
}

impl SpecConstraint {
    /// The text of a constraint: the comparator's text followed by the version.
    pub open spec fn text(self) -> Seq<char> {
        self.comparator.symbol() + self.version
    }
}

/// What parsing `s` as a constraint gives: the empty text is refused; else the
/// comparator is taken off the front and the rest parsed as a version string.
pub open spec fn spec_parse_constraint(s: Seq<char>) -> Result<SpecConstraint, SpecConstraintError> {
    if s.len() == 0 {
        Err(SpecConstraintError::EmptyConstraint)
    } else {
        let (comparator, rest) = Comparator::spec_extract(s);
        match spec_parse_version(rest) {
            Ok(version) => Ok(SpecConstraint { comparator, version }),
            Err(e) => Err(e),
        }
    }
}

/// A single constraint pairing a [`Comparator`] with a validated [`VersionString`].
#[derive(Clone, PartialEq, Eq, Debug, Hash)]
pub struct Constraint {
    comparator: Comparator,
    version: VersionString,
}

impl View for Constraint {
    type V = SpecConstraint;

    closed spec fn view(&self) -> SpecConstraint {
        SpecConstraint { comparator: self.comparator, version: self.version@ }
    }
}

impl Constraint {
    /// Returns the comparator of this constraint.
    pub fn comparator(&self) -> (c: &Comparator)
        ensures
            *c == self@.comparator,
    {
        &self.comparator
    }

    /// Returns a reference to the [`VersionString`].
    ///
    /// The version of a constraint is always a valid version string.
    pub fn version(&self) -> (v: &VersionString)
        ensures
            v@ == self@.version,
            is_valid_version(v@),
    {
        let _ = self.version.as_str();
        &self.version
    }

    /// Parses a constraint: an optional comparator followed by a version string.
    pub fn parse(constraint_str: &str) -> (r: Result<Constraint, ConstraintError>)
        ensures
            match r {
                Ok(c) => spec_parse_constraint(constraint_str@) == Ok::<
                    SpecConstraint,
                    SpecConstraintError,
                >(c@),
                Err(e) => spec_parse_constraint(constraint_str@) == Err::<
                    SpecConstraint,
                    SpecConstraintError,
                >(e@),
            },
    {
        if constraint_str.unicode_len() == 0 {
            return Err(ConstraintError::EmptyConstraint);
        }
        let (comparator, version_str) = Comparator::extract_comparator(constraint_str);
        match VersionString::parse(version_str) {
            Ok(version) => Ok(Constraint { comparator, version }),
            Err(e) => Err(e),
        }
    }

    /// The text of the constraint: the comparator's text followed by the version.
    pub fn to_string(&self) -> (s: String)
        ensures
            s@ == self@.text(),
    {
        let s = String::from_str(self.comparator.as_ref());
        s.concat(self.version.as_str())
    }
}

impl core::str::FromStr for Constraint {
    type Err = ConstraintError;

    fn from_str(s: &str) -> (r: Result<Self, Self::Err>)
        ensures
            match r {
                Ok(c) => spec_parse_constraint(s@) == Ok::<SpecConstraint, SpecConstraintError>(
                    c@,
                ),
                Err(e) => spec_parse_constraint(s@) == Err::<SpecConstraint, SpecConstraintError>(
                    e@,
                ),
            },
    {
        Constraint::parse(s)
    }
}

/// Errors specific to a single constraint within a vls string.
#[derive(Debug, PartialEq, Eq)]
pub enum ConstraintError {
    /// A constraint segment was empty (e.g. from `||`, a leading `|`, or a trailing `|`).
    EmptyConstraint,
    /// The version part of a constraint was empty (e.g. `>=` without a version).
    EmptyConstraintVersion,
    /// The version string contains characters outside the allowed grammar; they
    /// are listed ascending, each once.
    InvalidConstraintVersionCharacters(Vec<char>),
}

/// The value of a [`ConstraintError`].
pub enum SpecConstraintError {
    EmptyConstraint,
    EmptyConstraintVersion,
    InvalidConstraintVersionCharacters(Seq<char>),
}

impl View for ConstraintError {
    type V = SpecConstraintError;

    open spec fn view(&self) -> SpecConstraintError {
        match self {
            ConstraintError::EmptyConstraint => SpecConstraintError::EmptyConstraint,
            ConstraintError::EmptyConstraintVersion => SpecConstraintError::EmptyConstraintVersion,
            ConstraintError::InvalidConstraintVersionCharacters(v) => {
                SpecConstraintError::InvalidConstraintVersionCharacters(v@)
            },
        }
    }
}

} // verus!
