//! The order of `String` (code point by code point, shorter prefix first) and sorted sets of
//! texts kept in a `Vec`, as a `BTreeSet<String>` iterates them.
use vstd::prelude::*;

use crate::text::chars_of;

verus! {

/// `a` comes strictly before `b` in the order of `String`.
pub open spec fn lex_lt(a: Seq<char>, b: Seq<char>) -> bool
    decreases a.len(),
{
    if a.len() == 0 {
        b.len() > 0
    } else if b.len() == 0 {
        false
    } else if a[0] != b[0] {
        (a[0] as int) < (b[0] as int)
    } else {
        lex_lt(a.drop_first(), b.drop_first())
    }
}

/// No text comes before itself.
pub proof fn lemma_lex_irreflexive(a: Seq<char>)
    ensures
        !lex_lt(a, a),
    decreases a.len(),
{
    if a.len() > 0 {
        lemma_lex_irreflexive(a.drop_first());
    }
}

/// Two texts do not both come before each other.
pub proof fn lemma_lex_asymmetric(a: Seq<char>, b: Seq<char>)
    ensures
        !(lex_lt(a, b) && lex_lt(b, a)),
    decreases a.len(),
{
    if a.len() > 0 && b.len() > 0 && a[0] == b[0] {
        lemma_lex_asymmetric(a.drop_first(), b.drop_first());
    }
}

/// Coming before is transitive.
pub proof fn lemma_lex_transitive(a: Seq<char>, b: Seq<char>, c: Seq<char>)
    requires
        lex_lt(a, b),
        lex_lt(b, c),
    ensures
        lex_lt(a, c),
    decreases a.len(),
{
    if a.len() > 0 && b.len() > 0 && c.len() > 0 && a[0] == b[0] && b[0] == c[0] {
        lemma_lex_transitive(a.drop_first(), b.drop_first(), c.drop_first());
    }
}

/// Of two different texts, one comes before the other.
pub proof fn lemma_lex_total(a: Seq<char>, b: Seq<char>)
    ensures
        a == b || lex_lt(a, b) || lex_lt(b, a),
    decreases a.len(),
{
    if a.len() > 0 && b.len() > 0 {
        if a[0] == b[0] {
            lemma_lex_total(a.drop_first(), b.drop_first());
            if a.drop_first() == b.drop_first() {
                assert(a =~= seq![a[0]] + a.drop_first());
                assert(b =~= seq![b[0]] + b.drop_first());
            }
        } else {
            assert((a[0] as int) != (b[0] as int));
        }
    } else if a.len() == 0 && b.len() == 0 {
        assert(a =~= b);
    }
}

/// Whether `a` comes strictly before `b`.
pub fn chars_lt(a: &[char], b: &[char]) -> (r: bool)
    ensures
        r == lex_lt(a@, b@),
{
    let mut i: usize = 0;
    assert(a@.skip(0) =~= a@);
    assert(b@.skip(0) =~= b@);
    while i < a.len() && i < b.len() && a[i] == b[i]
        invariant
            i <= a@.len(),
            i <= b@.len(),
            lex_lt(a@, b@) == lex_lt(a@.skip(i as int), b@.skip(i as int)),
        decreases a@.len() - i,
    {
        assert(a@.skip(i as int).drop_first() =~= a@.skip(i + 1));
        assert(b@.skip(i as int).drop_first() =~= b@.skip(i + 1));
        i = i + 1;
    }
    if i == a.len() {
        i < b.len()
    } else if i == b.len() {
        false
    } else {
        a[i] < b[i]
    }
}

/// Whether the text `a` comes strictly before the text `b`.
pub fn str_lt(a: &str, b: &str) -> (r: bool)
    ensures
        r == lex_lt(a@, b@),
{
    let x = chars_of(a);
    let y = chars_of(b);
    chars_lt(x.as_slice(), y.as_slice())
}

/// The texts held by a sequence of strings.
pub open spec fn texts(v: Seq<String>) -> Seq<Seq<char>> {
    v.map_values(|s: String| s@)
}

/// Each text comes strictly before the next: sorted, and nothing occurs twice.
pub open spec fn strictly_sorted(s: Seq<Seq<char>>) -> bool {
    forall|i: int, j: int| 0 <= i < j < s.len() ==> lex_lt(s[i], s[j])
}

/// Adds `x` to the sorted set `v` (`BTreeSet::insert`); returns whether it was new.
pub fn sorted_insert(v: &mut Vec<String>, x: String) -> (added: bool)
    requires
        strictly_sorted(texts(old(v)@)),
    ensures
        strictly_sorted(texts(final(v)@)),
        texts(final(v)@).to_set() == texts(old(v)@).to_set().insert(x@),
        added == !texts(old(v)@).contains(x@),
{
    let ghost old_t = texts(v@);
    let mut k: usize = 0;
    while k < v.len() && str_lt(v[k].as_str(), x.as_str())
        invariant
            k <= v@.len(),
            texts(v@) == old_t,
            strictly_sorted(old_t),
            forall|j: int| 0 <= j < k ==> lex_lt(#[trigger] old_t[j], x@),
        decreases v@.len() - k,
    {
        k = k + 1;
    }
    if k < v.len() && crate::text::str_eq(v[k].as_str(), x.as_str()) {
        assert(old_t[k as int] == x@);
        assert(old_t.contains(x@));
        assert(texts(v@).to_set() =~= old_t.to_set().insert(x@));
        return false;
    }
    proof {
        if k < old_t.len() {
            lemma_lex_total(old_t[k as int], x@);
            lemma_lex_asymmetric(old_t[k as int], x@);
        }
        assert forall|j: int| k <= j < old_t.len() implies lex_lt(x@, #[trigger] old_t[j]) by {
            if j > k {
                lemma_lex_transitive(x@, old_t[k as int], old_t[j]);
            }
        }
        assert forall|j: int| 0 <= j < old_t.len() implies old_t[j] != x@ by {
            if j < k {
                lemma_lex_irreflexive(x@);
            } else {
                lemma_lex_irreflexive(x@);
            }
        }
    }
    v.insert(k, x);
    let ghost new_t = texts(v@);
    assert(new_t =~= old_t.subrange(0, k as int).push(x@) + old_t.subrange(k as int, old_t.len() as int));
    assert forall|i: int, j: int| 0 <= i < j < new_t.len() implies lex_lt(new_t[i], new_t[j]) by {
        if j < k {
        } else if j == k {
        } else if i < k {
            lemma_lex_transitive(new_t[i], x@, new_t[j]);
        } else if i == k {
        } else {
        }
    }
    assert forall|t: Seq<char>| new_t.to_set().contains(t) <==> old_t.to_set().insert(x@).contains(t) by {
        if new_t.contains(t) {
            let i = choose|i: int| 0 <= i < new_t.len() && new_t[i] == t;
            if i < k {
                assert(old_t[i] == t);
            } else if i > k {
                assert(old_t[i - 1] == t);
            }
        }
        if old_t.contains(t) {
            let i = choose|i: int| 0 <= i < old_t.len() && old_t[i] == t;
            if i < k {
                assert(new_t[i] == t);
            } else {
                assert(new_t[i + 1] == t);
            }
        }
        if t == x@ {
            assert(new_t[k as int] == t);
        }
    }
    assert(new_t.to_set() =~= old_t.to_set().insert(x@));
    true
}

/// Two strictly sorted sequences with the same elements are the same sequence.
pub proof fn lemma_sorted_unique(a: Seq<Seq<char>>, b: Seq<Seq<char>>)
    requires
        strictly_sorted(a),
        strictly_sorted(b),
        a.to_set() == b.to_set(),
    ensures
        a == b,
    decreases a.len(),
{
    if a.len() == 0 || b.len() == 0 {
        if a.len() > 0 {
            assert(a.to_set().contains(a[0]));
        }
        if b.len() > 0 {
            assert(b.to_set().contains(b[0]));
        }
        assert(a =~= b);
        return;
    }
    let x = a.last();
    let y = b.last();
    assert(a.to_set().contains(x));
    assert(b.to_set().contains(y));
    assert(b.contains(x));
    assert(a.contains(y));
    let ix = choose|i: int| 0 <= i < b.len() && b[i] == x;
    let iy = choose|i: int| 0 <= i < a.len() && a[i] == y;
    if x != y {
        if ix < b.len() - 1 {
            assert(lex_lt(b[ix], b[b.len() - 1]));
        }
        if iy < a.len() - 1 {
            assert(lex_lt(a[iy], a[a.len() - 1]));
        }
        lemma_lex_asymmetric(x, y);
    }
    let a1 = a.drop_last();
    let b1 = b.drop_last();
    assert forall|t: Seq<char>| a1.to_set().contains(t) <==> b1.to_set().contains(t) by {
        if a1.contains(t) {
            let i = choose|i: int| 0 <= i < a1.len() && a1[i] == t;
            assert(lex_lt(a[i], a[a.len() - 1]));
            lemma_lex_irreflexive(t);
            assert(a.to_set().contains(t));
            assert(b.contains(t));
            let j = choose|j: int| 0 <= j < b.len() && b[j] == t;
            assert(j != b.len() - 1);
            assert(b1[j] == t);
        }
        if b1.contains(t) {
            let i = choose|i: int| 0 <= i < b1.len() && b1[i] == t;
            assert(lex_lt(b[i], b[b.len() - 1]));
            lemma_lex_irreflexive(t);
            assert(b.to_set().contains(t));
            assert(a.contains(t));
            let j = choose|j: int| 0 <= j < a.len() && a[j] == t;
            assert(j != a.len() - 1);
            assert(a1[j] == t);
        }
    }
    assert(a1.to_set() =~= b1.to_set());
    lemma_sorted_unique(a1, b1);
    assert(a =~= a1.push(x));
    assert(b =~= b1.push(y));
}

/// The elements of the finite set `s` in the order of `String` (as a `BTreeSet` iterates
/// them).
pub open spec fn sorted_elements(s: Set<Seq<char>>) -> Seq<Seq<char>> {
    choose|q: Seq<Seq<char>>| strictly_sorted(q) && q.to_set() == s
}

/// A strictly sorted sequence is the sorted sequence of its elements.
pub proof fn lemma_is_sorted_elements(q: Seq<Seq<char>>)
    requires
        strictly_sorted(q),
    ensures
        sorted_elements(q.to_set()) == q,
{
    let r = sorted_elements(q.to_set());
    assert(strictly_sorted(q) && q.to_set() == q.to_set());
    lemma_sorted_unique(r, q);
}


/// `r` with `x` put in its place (nothing changes when `x` is already in `r`).
pub open spec fn insert_sorted(r: Seq<Seq<char>>, x: Seq<char>) -> Seq<Seq<char>>
    decreases r.len(),
{
    if r.len() == 0 {
        seq![x]
    } else if lex_lt(r.last(), x) {
        r.push(x)
    } else if r.last() == x {
        r
    } else {
        insert_sorted(r.drop_last(), x).push(r.last())
    }
}

/// Putting `x` in its place keeps a sequence strictly sorted and adds `x` to its elements.
pub proof fn lemma_insert_sorted(r: Seq<Seq<char>>, x: Seq<char>)
    requires
        strictly_sorted(r),
    ensures
        strictly_sorted(insert_sorted(r, x)),
        insert_sorted(r, x).to_set() == r.to_set().insert(x),
    decreases r.len(),
{
    if r.len() == 0 {
        assert(seq![x].to_set() =~= r.to_set().insert(x)) by {
            assert(seq![x].to_set().contains(x)) by {
                assert(seq![x][0] == x);
            }
        }
    } else if lex_lt(r.last(), x) {
        let n = r.push(x);
        assert forall|i: int, j: int| 0 <= i < j < n.len() implies lex_lt(n[i], n[j]) by {
            if j == r.len() && i < r.len() - 1 {
                lemma_lex_transitive(r[i], r.last(), x);
            }
        }
        assert(n.to_set() =~= r.to_set().insert(x)) by {
            assert(n[r.len() as int] == x);
            assert forall|y: Seq<char>| r.contains(y) implies n.contains(y) by {
                let k = choose|k: int| 0 <= k < r.len() && r[k] == y;
                assert(n[k] == y);
            }
            assert forall|y: Seq<char>| n.contains(y) implies r.contains(y) || y == x by {
                let k = choose|k: int| 0 <= k < n.len() && n[k] == y;
                if k < r.len() {
                    assert(r[k] == y);
                }
            }
        }
    } else if r.last() == x {
        assert(r.contains(r.last()));
        assert(r.to_set().insert(x) =~= r.to_set());
    } else {
        lemma_lex_total(r.last(), x);
        let m = r.drop_last();
        assert(strictly_sorted(m));
        lemma_insert_sorted(m, x);
        let s = insert_sorted(m, x);
        let n = s.push(r.last());
        assert forall|k: int| 0 <= k < s.len() implies lex_lt(#[trigger] s[k], r.last()) by {
            assert(s.to_set().contains(s[k]));
            if s[k] != x {
                assert(m.contains(s[k]));
                let q = choose|q: int| 0 <= q < m.len() && m[q] == s[k];
                assert(r[q] == m[q]);
            }
        }
        assert forall|i: int, j: int| 0 <= i < j < n.len() implies lex_lt(n[i], n[j]) by {
            if j == s.len() {
                assert(n[i] == s[i]);
            } else {
                assert(n[i] == s[i]);
                assert(n[j] == s[j]);
            }
        }
        assert(r =~= m.push(r.last()));
        assert(n.to_set() =~= r.to_set().insert(x)) by {
            assert forall|y: Seq<char>| n.contains(y) <==> (r.contains(y) || y == x) by {
                if n.contains(y) {
                    let k = choose|k: int| 0 <= k < n.len() && n[k] == y;
                    if k < s.len() {
                        assert(s[k] == y);
                        assert(s.to_set().contains(y));
                        if y != x {
                            assert(m.contains(y));
                            let q = choose|q: int| 0 <= q < m.len() && m[q] == y;
                            assert(r[q] == y);
                        }
                    } else {
                        assert(r[r.len() - 1] == y);
                    }
                }
                if r.contains(y) {
                    let k = choose|k: int| 0 <= k < r.len() && r[k] == y;
                    if k < r.len() - 1 {
                        assert(m[k] == y);
                        assert(s.to_set().contains(y));
                        let q = choose|q: int| 0 <= q < s.len() && s[q] == y;
                        assert(n[q] == y);
                    } else {
                        assert(n[s.len() as int] == y);
                    }
                }
                if y == x {
                    assert(s.to_set().contains(x));
                    let q = choose|q: int| 0 <= q < s.len() && s[q] == x;
                    assert(n[q] == x);
                }
            }
        }
    }
}

/// Every finite sequence of texts has its elements in a strictly sorted sequence.
pub proof fn lemma_sorted_elements_exist(q: Seq<Seq<char>>)
    ensures
        strictly_sorted(sorted_elements(q.to_set())),
        sorted_elements(q.to_set()).to_set() == q.to_set(),
    decreases q.len(),
{
    if q.len() == 0 {
        let e = Seq::<Seq<char>>::empty();
        assert(e.to_set() =~= q.to_set());
        assert(strictly_sorted(e) && e.to_set() == q.to_set());
    } else {
        let p = q.drop_last();
        lemma_sorted_elements_exist(p);
        let r = sorted_elements(p.to_set());
        lemma_insert_sorted(r, q.last());
        let n = insert_sorted(r, q.last());
        assert(q =~= p.push(q.last()));
        assert(q.to_set() =~= p.to_set().insert(q.last())) by {
            p.lemma_push_to_set_commute(q.last());
        }
        assert(strictly_sorted(n) && n.to_set() == q.to_set());
    }
}

} // verus!
