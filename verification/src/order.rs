//! Orders on characters and on character sequences, sorted sequences without
//! repetition, and the insertion that keeps a vector so.

use vstd::prelude::*;

verus! {

broadcast use vstd::string::group_string_axioms;

/// `v` is sorted strictly ascending by `lt` (so no element occurs twice).
pub open spec fn strictly_sorted<T>(v: Seq<T>, lt: spec_fn(T, T) -> bool) -> bool {
    forall|i: int, j: int| 0 <= i < j < v.len() ==> #[trigger] lt(v[i], v[j])
}

/// `lt` is a strict total order.
pub open spec fn is_strict_total_order<T>(lt: spec_fn(T, T) -> bool) -> bool {
    &&& forall|a: T| !#[trigger] lt(a, a)
    &&& forall|a: T, b: T, c: T| #[trigger] lt(a, b) && #[trigger] lt(b, c) ==> lt(a, c)
    &&& forall|a: T, b: T| a != b ==> #[trigger] lt(a, b) || #[trigger] lt(b, a)
}

/// `v` holds exactly the members of `s`.
pub open spec fn holds_exactly<T>(v: Seq<T>, s: Set<T>) -> bool {
    forall|x: T| v.contains(x) <==> #[trigger] s.contains(x)
}

/// The members of `s`, ascending by `lt`, each once.
pub open spec fn sorted_elements<T>(s: Set<T>, lt: spec_fn(T, T) -> bool) -> Seq<T> {
    choose|v: Seq<T>| strictly_sorted(v, lt) && holds_exactly(v, s)
}

/// The order of characters by their code point.
pub open spec fn char_order() -> spec_fn(char, char) -> bool {
    |a: char, b: char| a < b
}

/// Lexicographic order of character sequences, characters compared by code
/// point. A proper prefix comes first. On strings this is the order of
/// `String`'s `Ord`, which compares the UTF-8 bytes, and UTF-8 keeps the order
/// of code points.
pub open spec fn seq_lt(a: Seq<char>, b: Seq<char>) -> bool
    decreases a.len(),
{
    if a.len() == 0 {
        b.len() > 0
    } else if b.len() == 0 {
        false
    } else if a[0] != b[0] {
        a[0] < b[0]
    } else {
        seq_lt(a.drop_first(), b.drop_first())
    }
}

/// `seq_lt` as a function value.
pub open spec fn text_order() -> spec_fn(Seq<char>, Seq<char>) -> bool {
    |a: Seq<char>, b: Seq<char>| seq_lt(a, b)
}

/// The views of a sequence of strings.
pub open spec fn string_views(v: Seq<String>) -> Seq<Seq<char>> {
    v.map_values(|s: String| s@)
}

/// Two sequences sorted by the same strict total order and holding the same
/// elements are equal.
pub proof fn lemma_sorted_unique<T>(a: Seq<T>, b: Seq<T>, lt: spec_fn(T, T) -> bool)
    requires
        is_strict_total_order(lt),
        strictly_sorted(a, lt),
        strictly_sorted(b, lt),
        forall|x: T| a.contains(x) <==> b.contains(x),
    ensures
        a == b,
    decreases a.len(),
{
    if a.len() == 0 {
        if b.len() > 0 {
            assert(b.contains(b[0]));
        }
        assert(a =~= b);
    } else {
        assert(a.contains(a[0]));
        assert(b.len() > 0);
        assert(b.contains(b[0]));
        let k = choose|k: int| 0 <= k < b.len() && b[k] == a[0];
        let m = choose|m: int| 0 <= m < a.len() && a[m] == b[0];
        if k > 0 {
            assert(lt(b[0], b[k]));
            if m > 0 {
                assert(lt(a[0], a[m]));
            }
            assert(false);
        }
        assert(a[0] == b[0]);
        let ta = a.drop_first();
        let tb = b.drop_first();
        assert forall|x: T| ta.contains(x) <==> tb.contains(x) by {
            if ta.contains(x) {
                let i = choose|i: int| 0 <= i < ta.len() && ta[i] == x;
                assert(a[i + 1] == x);
                assert(lt(a[0], a[i + 1]));
                assert(a.contains(x));
                let j = choose|j: int| 0 <= j < b.len() && b[j] == x;
                assert(j != 0);
                assert(tb[j - 1] == x);
            }
            if tb.contains(x) {
                let i = choose|i: int| 0 <= i < tb.len() && tb[i] == x;
                assert(b[i + 1] == x);
                assert(lt(b[0], b[i + 1]));
                assert(b.contains(x));
                let j = choose|j: int| 0 <= j < a.len() && a[j] == x;
                assert(j != 0);
                assert(ta[j - 1] == x);
            }
        }
        assert forall|i: int, j: int| 0 <= i < j < ta.len() implies #[trigger] lt(ta[i], ta[j]) by {
            assert(lt(a[i + 1], a[j + 1]));
        }
        assert forall|i: int, j: int| 0 <= i < j < tb.len() implies #[trigger] lt(tb[i], tb[j]) by {
            assert(lt(b[i + 1], b[j + 1]));
        }
        lemma_sorted_unique(ta, tb, lt);
        assert forall|i: int| 0 <= i < a.len() implies a[i] == b[i] by {
            if i > 0 {
                assert(a[i] == ta[i - 1]);
                assert(b[i] == tb[i - 1]);
            }
        }
        assert(a =~= b);
    }
}

/// A sequence sorted by a strict total order that holds exactly the members of
/// `s` is `sorted_elements(s, lt)`.
pub proof fn lemma_sorted_elements<T>(v: Seq<T>, s: Set<T>, lt: spec_fn(T, T) -> bool)
    requires
        is_strict_total_order(lt),
        strictly_sorted(v, lt),
        holds_exactly(v, s),
    ensures
        sorted_elements(s, lt) == v,
{
    let w = sorted_elements(s, lt);
    assert(strictly_sorted(w, lt) && holds_exactly(w, s));
    assert(holds_exactly(v, s));
    assert forall|x: T| w.contains(x) <==> v.contains(x) by {
        assert(w.contains(x) == s.contains(x));
        assert(v.contains(x) == s.contains(x));
    }
    lemma_sorted_unique(w, v, lt);
}

/// The order of code points is a strict total order.
pub proof fn lemma_char_order()
    ensures
        is_strict_total_order(char_order()),
{
}

proof fn lemma_seq_lt_irreflexive(a: Seq<char>)
    ensures
        !seq_lt(a, a),
    decreases a.len(),
{
    if a.len() > 0 {
        lemma_seq_lt_irreflexive(a.drop_first());
    }
}

proof fn lemma_seq_lt_transitive(a: Seq<char>, b: Seq<char>, c: Seq<char>)
    requires
        seq_lt(a, b),
        seq_lt(b, c),
    ensures
        seq_lt(a, c),
    decreases a.len(),
{
    if a.len() > 0 && b.len() > 0 && c.len() > 0 && a[0] == b[0] && b[0] == c[0] {
        lemma_seq_lt_transitive(a.drop_first(), b.drop_first(), c.drop_first());
    }
}

proof fn lemma_seq_lt_total(a: Seq<char>, b: Seq<char>)
    requires
        a != b,
    ensures
        seq_lt(a, b) || seq_lt(b, a),
    decreases a.len(),
{
    if a.len() > 0 && b.len() > 0 && a[0] == b[0] {
        if a.drop_first() == b.drop_first() {
            assert(a =~= seq![a[0]] + a.drop_first());
            assert(b =~= seq![b[0]] + b.drop_first());
        }
        lemma_seq_lt_total(a.drop_first(), b.drop_first());
    } else if a.len() == 0 && b.len() == 0 {
        assert(a =~= b);
    }
}

/// Lexicographic order is a strict total order.
pub proof fn lemma_text_order()
    ensures
        is_strict_total_order(text_order()),
{
    assert forall|a: Seq<char>| !#[trigger] text_order()(a, a) by {
        lemma_seq_lt_irreflexive(a);
    }
    assert forall|a: Seq<char>, b: Seq<char>, c: Seq<char>|
        #[trigger] text_order()(a, b) && #[trigger] text_order()(b, c) implies text_order()(a, c) by {
        lemma_seq_lt_transitive(a, b, c);
    }
    assert forall|a: Seq<char>, b: Seq<char>|
        a != b implies #[trigger] text_order()(a, b) || #[trigger] text_order()(b, a) by {
        lemma_seq_lt_total(a, b);
    }
}

/// Compares two texts lexicographically.
pub fn text_less(a: &Vec<char>, b: &Vec<char>) -> (r: bool)
    ensures
        r == seq_lt(a@, b@),
{
    let mut i: usize = 0;
    assert(a@.skip(0) =~= a@);
    assert(b@.skip(0) =~= b@);
    while i < a.len() && i < b.len() && a[i] == b[i]
        invariant
            i <= a.len(),
            i <= b.len(),
            seq_lt(a@, b@) == seq_lt(a@.skip(i as int), b@.skip(i as int)),
        decreases a.len() - i,
    {
        let ghost sa = a@.skip(i as int);
        let ghost sb = b@.skip(i as int);
        assert(sa.drop_first() =~= a@.skip(i + 1));
        assert(sb.drop_first() =~= b@.skip(i + 1));
        i = i + 1;
    }
    let ghost sa = a@.skip(i as int);
    let ghost sb = b@.skip(i as int);
    if i == a.len() {
        assert(sa.len() == 0);
        i < b.len()
    } else if i == b.len() {
        false
    } else {
        assert(sa[0] == a@[i as int]);
        assert(sb[0] == b@[i as int]);
        a[i] < b[i]
    }
}

/// The characters of a string slice.
pub fn chars_of(s: &str) -> (v: Vec<char>)
    ensures
        v@ == s@,
{
    let mut v: Vec<char> = Vec::new();
    for c in it: s.chars()
        invariant
            v@ == it.seq().take(it.index() as int),
    {
        v.push(c);
    }
    v
}

/// Inserts `c` into a vector sorted strictly ascending, unless it is there
/// already.
pub fn insert_char_sorted(v: &mut Vec<char>, c: char)
    requires
        strictly_sorted(old(v)@, char_order()),
    ensures
        strictly_sorted(final(v)@, char_order()),
        forall|x: char| final(v)@.contains(x) <==> (old(v)@.contains(x) || x == c),
{
    let mut i: usize = 0;
    while i < v.len() && v[i] < c
        invariant
            i <= v.len(),
            v@ == old(v)@,
            forall|j: int| 0 <= j < i ==> v@[j] < c,
        decreases v.len() - i,
    {
        i = i + 1;
    }
    if i < v.len() && v[i] == c {
        assert(v@[i as int] == c);
        assert(v@.contains(c));
        return;
    }
    let ghost old_v = v@;
    v.insert(i, c);
    assert(v@ =~= old_v.take(i as int).push(c) + old_v.skip(i as int));
    assert forall|a: int, b: int| 0 <= a < b < v@.len() implies #[trigger] char_order()(
        v@[a],
        v@[b],
    ) by {
        if b < i {
            assert(char_order()(old_v[a], old_v[b]));
        } else if a > i {
            assert(char_order()(old_v[a - 1], old_v[b - 1]));
        } else if a < i && b == i {
        } else if a < i {
            assert(char_order()(old_v[i as int], old_v[b - 1]) || b - 1 == i);
        } else {
            assert(char_order()(old_v[i as int], old_v[b - 1]) || b - 1 == i);
        }
    }
    assert forall|x: char| v@.contains(x) <==> (old_v.contains(x) || x == c) by {
        if v@.contains(x) {
            let k = choose|k: int| 0 <= k < v@.len() && v@[k] == x;
            if k < i {
                assert(old_v[k] == x);
            } else if k > i {
                assert(old_v[k - 1] == x);
            }
        }
        if old_v.contains(x) {
            let k = choose|k: int| 0 <= k < old_v.len() && old_v[k] == x;
            if k < i {
                assert(v@[k] == x);
            } else {
                assert(v@[k + 1] == x);
            }
        }
        if x == c {
            assert(v@[i as int] == x);
        }
    }
    assert(old_v == old(v)@);
    assert forall|x: char| v@.contains(x) <==> (old(v)@.contains(x) || x == c) by {
        assert(v@.contains(x) <==> (old_v.contains(x) || x == c));
    }
}

/// Inserts `x` into a vector of strings sorted strictly ascending by
/// `seq_lt`, unless it is there already.
pub fn insert_string_sorted(v: &mut Vec<String>, x: String)
    requires
        strictly_sorted(string_views(old(v)@), text_order()),
    ensures
        strictly_sorted(string_views(final(v)@), text_order()),
        forall|t: Seq<char>|
            string_views(final(v)@).contains(t) <==> (string_views(old(v)@).contains(t) || t
                == x@),
{
    proof {
        lemma_text_order();
    }
    let xs = chars_of(x.as_str());
    let mut i: usize = 0;
    let mut found = false;
    while i < v.len() && !found
        invariant
            i <= v.len(),
            v@ == old(v)@,
            xs@ == x@,
            forall|j: int| 0 <= j < i ==> seq_lt(#[trigger] v@[j]@, x@),
            found ==> i < v.len() && !seq_lt(v@[i as int]@, x@),
        decreases v.len() - i + (if found { 0int } else { 1int }),
    {
        let vs = chars_of(v[i].as_str());
        if text_less(&vs, &xs) {
            i = i + 1;
        } else {
            found = true;
        }
    }
    let ghost old_v = v@;
    let ghost ov = string_views(old_v);
    assert(forall|j: int| 0 <= j < ov.len() ==> ov[j] == #[trigger] old_v[j]@);
    if i < v.len() && v[i] == x {
        assert(ov[i as int] == x@);
        assert(ov.contains(x@));
        return;
    }
    proof {
        if i < v.len() {
            assert(!seq_lt(ov[i as int], x@));
            assert(ov[i as int] != x@);
            lemma_seq_lt_total(ov[i as int], x@);
            assert(text_order()(x@, ov[i as int]));
        }
    }
    v.insert(i, x);
    let ghost nv = string_views(v@);
    assert(nv =~= ov.take(i as int).push(x@) + ov.skip(i as int));
    assert forall|a: int, b: int| 0 <= a < b < nv.len() implies #[trigger] text_order()(
        nv[a],
        nv[b],
    ) by {
        if b < i {
            assert(text_order()(ov[a], ov[b]));
        } else if a > i {
            assert(text_order()(ov[a - 1], ov[b - 1]));
        } else if a < i && b == i {
            assert(seq_lt(old_v[a]@, x@));
        } else if a < i {
            assert(seq_lt(old_v[a]@, x@));
            if b - 1 > i {
                assert(text_order()(ov[i as int], ov[b - 1]));
            }
        } else {
            if b - 1 > i {
                assert(text_order()(ov[i as int], ov[b - 1]));
            }
        }
    }
    assert forall|t: Seq<char>| nv.contains(t) <==> (ov.contains(t) || t == x@) by {
        if nv.contains(t) {
            let k = choose|k: int| 0 <= k < nv.len() && nv[k] == t;
            if k < i {
                assert(ov[k] == t);
            } else if k > i {
                assert(ov[k - 1] == t);
            }
        }
        if ov.contains(t) {
            let k = choose|k: int| 0 <= k < ov.len() && ov[k] == t;
            if k < i {
                assert(nv[k] == t);
            } else {
                assert(nv[k + 1] == t);
            }
        }
        if t == x@ {
            assert(nv[i as int] == t);
        }
    }
}

} // verus!
