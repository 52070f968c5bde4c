//! The characters that the vls grammar allows, and the search for those it
//! does not.

use vstd::prelude::*;

use crate::order::{
    char_order, chars_of, holds_exactly, insert_char_sorted, lemma_char_order,
    lemma_sorted_elements, sorted_elements, strictly_sorted,
};

verus! {

broadcast use vstd::string::group_string_axioms;

/// The number of ASCII code points (0 to 127).
pub const ASCII_TABLE_SIZE: usize = 128;

/// `c` is an ASCII digit or ASCII letter.
pub open spec fn spec_is_ascii_alphanumeric(c: char) -> bool {
    ('0' <= c && c <= '9') || ('A' <= c && c <= 'Z') || ('a' <= c && c <= 'z')
}

/// Whether `c` is an ASCII digit or ASCII letter.
pub fn is_ascii_alphanumeric(c: char) -> (r: bool)
    ensures
        r == spec_is_ascii_alphanumeric(c),
{
    ('0' <= c && c <= '9') || ('A' <= c && c <= 'Z') || ('a' <= c && c <= 'z')
}

/// The code point of `c`.
fn char_code(c: char) -> (r: u32)
    ensures
        r as int == c as int,
{
    c as u32
}

/// Identifies which set of characters is valid in a given context.
pub enum VlsSpecialCharSet {
    /// Valid characters for a `version-string`: ALPHA / DIGIT / `-` / `.` /
    /// `_` / `+` / `~`.
    VersionString,
    /// Valid characters for a `constraints` string: those of a version string
    /// and `=` / `!` / `<` / `>` / `|`.
    ConstraintsString,
}

/// The characters of `table` that are set: `table[k]` holds exactly when some
/// character of `chars` has code point `k`.
pub open spec fn is_lookup_of(table: Seq<bool>, chars: Seq<char>) -> bool {
    &&& table.len() == ASCII_TABLE_SIZE
    &&& forall|k: int|
        0 <= k < ASCII_TABLE_SIZE ==> (#[trigger] table[k] <==> exists|j: int|
            0 <= j < chars.len() && chars[j] as int == k)
}

/// Builds the lookup table of the ASCII characters in `valid_special`: entry
/// `k` is set exactly when `valid_special` holds the character with code point
/// `k`. Every character of `valid_special` must be ASCII.
pub fn build_lookup(valid_special: &str) -> (table: Vec<bool>)
    requires
        forall|j: int| 0 <= j < valid_special@.len() ==> (valid_special@[j] as int) < 128,
    ensures
        is_lookup_of(table@, valid_special@),
{
    let mut table: Vec<bool> = Vec::new();
    while table.len() < ASCII_TABLE_SIZE
        invariant
            table.len() <= ASCII_TABLE_SIZE,
            forall|k: int| 0 <= k < table.len() ==> !table@[k],
        decreases ASCII_TABLE_SIZE - table.len(),
    {
        table.push(false);
    }
    let chars = chars_of(valid_special);
    let mut i: usize = 0;
    while i < chars.len()
        invariant
            chars@ == valid_special@,
            i <= chars.len(),
            forall|j: int| 0 <= j < chars@.len() ==> (chars@[j] as int) < 128,
            table.len() == ASCII_TABLE_SIZE,
            forall|k: int|
                0 <= k < ASCII_TABLE_SIZE ==> (#[trigger] table@[k] <==> exists|j: int|
                    0 <= j < i && chars@[j] as int == k),
        decreases chars.len() - i,
    {
        let c = chars[i];
        let code: u32 = char_code(c);
        let idx: usize = code as usize;
        assert((chars@[i as int] as int) < 128);
        table.set(idx, true);
        assert forall|k: int| 0 <= k < ASCII_TABLE_SIZE implies (#[trigger] table@[k] <==> exists|
            j: int,
        | 0 <= j < i + 1 && chars@[j] as int == k) by {
            if k == idx as int {
                assert(chars@[i as int] as int == k);
            } else {
                if exists|j: int| 0 <= j < i + 1 && chars@[j] as int == k {
                    let j = choose|j: int| 0 <= j < i + 1 && chars@[j] as int == k;
                    assert(j != i);
                }
            }
        }
        i = i + 1;
    }
    table
}

impl VlsSpecialCharSet {
    /// The special (non-alphanumeric) characters of the set.
    pub open spec fn special_chars(&self) -> Seq<char> {
        match self {
            VlsSpecialCharSet::VersionString => seq!['-', '.', '_', '+', '~'],
            VlsSpecialCharSet::ConstraintsString => seq![
                '-',
                '.',
                '_',
                '+',
                '~',
                '=',
                '!',
                '<',
                '>',
                '|',
            ],
        }
    }

    /// Whether `c` belongs to the set: an ASCII letter or digit, or one of its
    /// special characters.
    pub open spec fn allows(&self, c: char) -> bool {
        spec_is_ascii_alphanumeric(c) || self.special_chars().contains(c)
    }

    /// The lookup table of the set's special characters.
    pub fn get_lookup(&self) -> (table: Vec<bool>)
        ensures
            is_lookup_of(table@, self.special_chars()),
    {
        match self {
            VlsSpecialCharSet::VersionString => {
                let s = "-._+~";
                proof {
                    reveal_strlit("-._+~");
                    assert(s@ =~= self.special_chars());
                }
                build_lookup(s)
            },
            VlsSpecialCharSet::ConstraintsString => {
                let s = "-._+~=!<>|";
                proof {
                    reveal_strlit("-._+~=!<>|");
                    assert(s@ =~= self.special_chars());
                }
                build_lookup(s)
            },
        }
    }
}

/// The characters of `s` that `set` does not allow.
pub open spec fn invalid_chars(s: Seq<char>, set: VlsSpecialCharSet) -> Set<char> {
    Set::new(|c: char| s.contains(c) && !set.allows(c))
}

/// Every character of `s` is allowed by `set`.
pub open spec fn all_allowed(s: Seq<char>, set: VlsSpecialCharSet) -> bool {
    forall|i: int| 0 <= i < s.len() ==> #[trigger] set.allows(s[i])
}

/// What `collect_invalid_characters` returns for `s`: nothing when every
/// character is allowed, else the disallowed characters, ascending, each once.
pub open spec fn spec_invalid_characters(s: Seq<char>, set: VlsSpecialCharSet) -> Option<
    Seq<char>,
> {
    if all_allowed(s, set) {
        None
    } else {
        Some(sorted_elements(invalid_chars(s, set), char_order()))
    }
}

/// Collects the characters of `input` that are not ASCII-alphanumeric and not
/// in `special_charset`, sorted and deduplicated.
///
/// Returns `None` if every character is valid.
pub fn collect_invalid_characters(input: &str, special_charset: VlsSpecialCharSet) -> (r: Option<
    Vec<char>,
>)
    ensures
        r is None <==> all_allowed(input@, special_charset),
        r matches Some(v) ==> {
            &&& v@.len() > 0
            &&& strictly_sorted(v@, char_order())
            &&& holds_exactly(v@, invalid_chars(input@, special_charset))
        },
        match r {
            None => spec_invalid_characters(input@, special_charset) is None,
            Some(v) => spec_invalid_characters(input@, special_charset) == Some(v@),
        },
{
    let lookup = special_charset.get_lookup();
    let chars = chars_of(input);
    let mut invalid: Vec<char> = Vec::new();
    let mut i: usize = 0;
    while i < chars.len()
        invariant
            chars@ == input@,
            i <= chars.len(),
            is_lookup_of(lookup@, special_charset.special_chars()),
            strictly_sorted(invalid@, char_order()),
            forall|c: char|
                #[trigger] invalid@.contains(c) <==> chars@.take(i as int).contains(c)
                    && !special_charset.allows(c),
        decreases chars.len() - i,
    {
        let ch = chars[i];
        let code: u32 = char_code(ch);
        let idx: usize = code as usize;
        let special = idx < ASCII_TABLE_SIZE && lookup[idx];
        proof {
            let sc = special_charset.special_chars();
            if idx < ASCII_TABLE_SIZE {
                assert(lookup@[idx as int] <==> exists|j: int|
                    0 <= j < sc.len() && sc[j] as int == idx as int);
            }
            if sc.contains(ch) {
                let j = choose|j: int| 0 <= j < sc.len() && sc[j] == ch;
                assert(sc[j] as int == idx as int);
                assert(idx < ASCII_TABLE_SIZE);
            }
            if special {
                let j = choose|j: int| 0 <= j < sc.len() && sc[j] as int == idx as int;
                assert(sc[j] == ch);
            }
            assert(special == sc.contains(ch));
        }
        let ghost old_invalid = invalid@;
        if !is_ascii_alphanumeric(ch) && !special {
            insert_char_sorted(&mut invalid, ch);
        }
        let ghost prev = chars@.take(i as int);
        let ghost next = chars@.take(i + 1);
        assert(next =~= prev.push(ch));
        assert forall|c: char| next.contains(c) <==> (prev.contains(c) || c == ch) by {
            if next.contains(c) {
                let j = choose|j: int| 0 <= j < next.len() && next[j] == c;
                if j < prev.len() {
                    assert(prev[j] == c);
                }
            }
            if prev.contains(c) {
                let j = choose|j: int| 0 <= j < prev.len() && prev[j] == c;
                assert(next[j] == c);
            }
            if c == ch {
                assert(next[i as int] == c);
            }
        }
        i = i + 1;
    }
    proof {
        lemma_char_order();
        assert(chars@.take(i as int) =~= input@);
        let bad = invalid_chars(input@, special_charset);
        assert forall|c: char| invalid@.contains(c) <==> #[trigger] bad.contains(c) by {
        }
        if all_allowed(input@, special_charset) {
            if invalid@.len() > 0 {
                assert(invalid@.contains(invalid@[0]));
                let j = choose|j: int| 0 <= j < input@.len() && input@[j] == invalid@[0];
                assert(special_charset.allows(input@[j]));
            }
        } else {
            let j = choose|j: int| 0 <= j < input@.len() && !special_charset.allows(input@[j]);
            assert(input@.contains(input@[j]));
            assert(invalid@.contains(input@[j]));
        }
        if invalid@.len() > 0 {
            lemma_sorted_elements(invalid@, bad, char_order());
        }
    }
    if invalid.len() == 0 {
        return None;
    }
    Some(invalid)
}

} // verus!
