//! The comparators that can prefix a version string in a constraint.

use vstd::prelude::*;

verus! {

broadcast use vstd::string::group_string_axioms;

/// Comparator for version constraints.
///
/// `EqualImplicit` and `EqualExplicit` are equal under `==` (they carry the same
/// meaning, "exactly this version"), but they are written differently: the
/// implicit one as the empty string, the explicit one as `=`.
/// Use `is_same_variant` to tell them apart.
#[derive(Debug, Clone, Copy)]
pub enum Comparator {
    /// Implicit equal: the version must be exactly equal to the constraint version.
    EqualImplicit,
    /// Explicit equal (`=`).
    EqualExplicit,
    /// Not equal (`!=`).
    NotEqual,
    /// Less than (`<`).
    LessThan,
    /// Less than or equal (`<=`).
    LessThanOrEqual,
    /// Greater than (`>`).
    GreaterThan,
    /// Greater than or equal (`>=`).
    GreaterThanOrEqual,
}

/// Whether `p` is a prefix of `s`.
pub open spec fn has_prefix(s: Seq<char>, p: Seq<char>) -> bool {
    p.len() <= s.len() && s.take(p.len() as int) == p
}

impl Comparator {
    /// The text of the comparator.
    pub open spec fn symbol(self) -> Seq<char> {
        match self {
            Comparator::EqualImplicit => seq![],
            Comparator::EqualExplicit => seq!['='],
            Comparator::NotEqual => seq!['!', '='],
            Comparator::LessThan => seq!['<'],
            Comparator::LessThanOrEqual => seq!['<', '='],
            Comparator::GreaterThan => seq!['>'],
            Comparator::GreaterThanOrEqual => seq!['>', '='],
        }
    }

    /// Whether the comparator stands for equality, implicit or explicit.
    pub open spec fn spec_is_equal(self) -> bool {
        self is EqualImplicit || self is EqualExplicit
    }

    /// Equality of comparators: the two equal comparators are equal to each
    /// other, every other comparator only to itself.
    pub open spec fn equivalent(self, other: Comparator) -> bool {
        (self.spec_is_equal() && other.spec_is_equal()) || self == other
    }

    /// Returns the text of the comparator: `""`, `"="`, `"!="`, `"<"`, `"<="`,
    /// `">"` or `">="`.
    pub fn as_ref(&self) -> (s: &'static str)
        ensures
            s@ == self.symbol(),
    {
        match self {
            Comparator::EqualImplicit => {
                proof {
                    reveal_strlit("");
                }
                ""
            },
            Comparator::EqualExplicit => {
                proof {
                    reveal_strlit("=");
                }
                "="
            },
            Comparator::NotEqual => {
                proof {
                    reveal_strlit("!=");
                }
                "!="
            },
            Comparator::LessThan => {
                proof {
                    reveal_strlit("<");
                }
                "<"
            },
            Comparator::LessThanOrEqual => {
                proof {
                    reveal_strlit("<=");
                }
                "<="
            },
            Comparator::GreaterThan => {
                proof {
                    reveal_strlit(">");
                }
                ">"
            },
            Comparator::GreaterThanOrEqual => {
                proof {
                    reveal_strlit(">=");
                }
                ">="
            },
        }
    }

    /// Returns the text of the comparator as an owned string.
    pub fn to_string(&self) -> (s: String)
        ensures
            s@ == self.symbol(),
    {
        String::from_str(self.as_ref())
    }

    /// Returns true if the comparator represents equality (implicit or explicit).
    pub fn is_equal(&self) -> (r: bool)
        ensures
            r == self.spec_is_equal(),
            r == (*self == Comparator::EqualImplicit || *self == Comparator::EqualExplicit),
    {
        match self {
            Comparator::EqualImplicit | Comparator::EqualExplicit => true,
            _ => false,
        }
    }

    /// Returns `true` if `self` and `other` are the exact same variant.
    ///
    /// This differs from `==`, which treats `EqualImplicit` and `EqualExplicit`
    /// as equal.
    pub fn is_same_variant(&self, other: &Self) -> (r: bool)
        ensures
            r == (*self == *other),
    {
        match (self, other) {
            (Comparator::EqualImplicit, Comparator::EqualImplicit) => true,
            (Comparator::EqualExplicit, Comparator::EqualExplicit) => true,
            (Comparator::NotEqual, Comparator::NotEqual) => true,
            (Comparator::LessThan, Comparator::LessThan) => true,
            (Comparator::LessThanOrEqual, Comparator::LessThanOrEqual) => true,
            (Comparator::GreaterThan, Comparator::GreaterThan) => true,
            (Comparator::GreaterThanOrEqual, Comparator::GreaterThanOrEqual) => true,
            _ => false,
        }
    }

    /// The comparator that a constraint text starts with, and the rest of the
    /// text. Two-character comparators take precedence over the one-character
    /// comparators they start with; where no comparator matches, the comparator
    /// is the implicit equal and the rest is the whole text.
    pub open spec fn spec_extract(s: Seq<char>) -> (Comparator, Seq<char>) {
        if has_prefix(s, Comparator::GreaterThanOrEqual.symbol()) {
            (Comparator::GreaterThanOrEqual, s.skip(2))
        } else if has_prefix(s, Comparator::LessThanOrEqual.symbol()) {
            (Comparator::LessThanOrEqual, s.skip(2))
        } else if has_prefix(s, Comparator::NotEqual.symbol()) {
            (Comparator::NotEqual, s.skip(2))
        } else if has_prefix(s, Comparator::GreaterThan.symbol()) {
            (Comparator::GreaterThan, s.skip(1))
        } else if has_prefix(s, Comparator::LessThan.symbol()) {
            (Comparator::LessThan, s.skip(1))
        } else if has_prefix(s, Comparator::EqualExplicit.symbol()) {
            (Comparator::EqualExplicit, s.skip(1))
        } else {
            (Comparator::EqualImplicit, s)
        }
    }

    /// Extracts a comparator from a constraint string.
    ///
    /// Returns the matched comparator and the remaining version string.
    /// `>=` and `<=` take precedence over `>` and `<`; the implicit equal is
    /// the fallthrough.
    pub fn extract_comparator(constraint_str: &str) -> (r: (Comparator, &str))
        ensures
            (r.0, r.1@) == Self::spec_extract(constraint_str@),
    {
        let n = constraint_str.unicode_len();
        let c0 = if n > 0 {
            constraint_str.get_char(0)
        } else {
            ' '
        };
        let c1 = if n > 1 {
            constraint_str.get_char(1)
        } else {
            ' '
        };
        let ghost s = constraint_str@;
        proof {
            lemma_prefix_two(s, '>', '=');
            lemma_prefix_two(s, '<', '=');
            lemma_prefix_two(s, '!', '=');
            lemma_prefix_one(s, '>');
            lemma_prefix_one(s, '<');
            lemma_prefix_one(s, '=');
            assert(s.skip(1) =~= s.subrange(1, n as int));
            assert(s.skip(2) =~= s.subrange(2, n as int));
        }
        if n >= 2 && c0 == '>' && c1 == '=' {
            (Comparator::GreaterThanOrEqual, constraint_str.substring_char(2, n))
        } else if n >= 2 && c0 == '<' && c1 == '=' {
            (Comparator::LessThanOrEqual, constraint_str.substring_char(2, n))
        } else if n >= 2 && c0 == '!' && c1 == '=' {
            (Comparator::NotEqual, constraint_str.substring_char(2, n))
        } else if n >= 1 && c0 == '>' {
            (Comparator::GreaterThan, constraint_str.substring_char(1, n))
        } else if n >= 1 && c0 == '<' {
            (Comparator::LessThan, constraint_str.substring_char(1, n))
        } else if n >= 1 && c0 == '=' {
            (Comparator::EqualExplicit, constraint_str.substring_char(1, n))
        } else {
            (Comparator::EqualImplicit, constraint_str)
        }
    }
}

pub(crate) proof fn lemma_prefix_two(s: Seq<char>, a: char, b: char)
    ensures
        has_prefix(s, seq![a, b]) <==> (s.len() >= 2 && s[0] == a && s[1] == b),
{
    if s.len() >= 2 && s[0] == a && s[1] == b {
        assert(s.take(2) =~= seq![a, b]);
    }
    if has_prefix(s, seq![a, b]) {
        assert(s.take(2)[0] == s[0]);
        assert(s.take(2)[1] == s[1]);
    }
}

pub(crate) proof fn lemma_prefix_one(s: Seq<char>, a: char)
    ensures
        has_prefix(s, seq![a]) <==> (s.len() >= 1 && s[0] == a),
{
    if s.len() >= 1 && s[0] == a {
        assert(s.take(1) =~= seq![a]);
    }
    if has_prefix(s, seq![a]) {
        assert(s.take(1)[0] == s[0]);
    }
}

/// The text that `extract_comparator` splits is the comparator's text followed
/// by the rest: nothing is lost or added.
pub proof fn lemma_extract_splits(s: Seq<char>)
    ensures
        ({
            let (c, rest) = Comparator::spec_extract(s);
            c.symbol() + rest == s
        }),
{
    let (c, rest) = Comparator::spec_extract(s);
    assert(c.symbol() + rest =~= s);
}

/// Equality of comparators is reflexive, symmetric and transitive, and the two
/// equal comparators are equal to each other.
pub proof fn lemma_equivalence(a: Comparator, b: Comparator, c: Comparator)
    ensures
        a.equivalent(a),
        a.equivalent(b) == b.equivalent(a),
        a.equivalent(b) && b.equivalent(c) ==> a.equivalent(c),
        Comparator::EqualImplicit.equivalent(Comparator::EqualExplicit),
        a == b ==> a.equivalent(b),
{
}

impl PartialEq for Comparator {
    fn eq(&self, other: &Self) -> (r: bool) {
        if self.is_equal() && other.is_equal() {
            return true;
        }
        self.is_same_variant(other)
    }
}

impl vstd::std_specs::cmp::PartialEqSpecImpl for Comparator {
    open spec fn obeys_eq_spec() -> bool {
        true
    }

    open spec fn eq_spec(&self, other: &Self) -> bool {
        self.equivalent(*other)
    }
}

impl Eq for Comparator {
}

impl Comparator {
    /// The number under which the comparator is hashed: the same for the two
    /// equal comparators, different for any two comparators that are not equal.
    pub open spec fn spec_hash_key(self) -> u8 {
        match self {
            Comparator::EqualImplicit | Comparator::EqualExplicit => 0,
            Comparator::NotEqual => 1,
            Comparator::LessThan => 2,
            Comparator::LessThanOrEqual => 3,
            Comparator::GreaterThan => 4,
            Comparator::GreaterThanOrEqual => 5,
        }
    }

    fn hash_key(&self) -> (k: u8)
        ensures
            k == self.spec_hash_key(),
    {
        match self {
            Comparator::EqualImplicit | Comparator::EqualExplicit => 0,
            Comparator::NotEqual => 1,
            Comparator::LessThan => 2,
            Comparator::LessThanOrEqual => 3,
            Comparator::GreaterThan => 4,
            Comparator::GreaterThanOrEqual => 5,
        }
    }
}

/// Two comparators have the same hash key exactly when they are equal, so
/// hashing agrees with `==`.
pub proof fn lemma_hash_key_agrees_with_eq(a: Comparator, b: Comparator)
    ensures
        (a.spec_hash_key() == b.spec_hash_key()) == a.equivalent(b),
{
}

/// Feeds a byte to a hasher: calls `<u8 as Hash>::hash` from std. Nothing is
/// stated of the hasher's state afterwards.
#[verifier::external_body]
fn hash_byte<H: core::hash::Hasher>(byte: u8, state: &mut H) {
    core::hash::Hash::hash(&byte, state)
}

impl core::hash::Hash for Comparator {
    fn hash<H: core::hash::Hasher>(&self, state: &mut H) {
        hash_byte(self.hash_key(), state);
    }
}

} // verus!
