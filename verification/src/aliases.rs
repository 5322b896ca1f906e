//! Friendly names for binaries, kept sorted by friendly name (as a `BTreeMap` keeps them)
//! and matched case-insensitively.
use vstd::prelude::*;

use crate::order::{
    lemma_lex_asymmetric, lemma_lex_irreflexive, lemma_lex_total, lemma_lex_transitive, lex_lt,
    str_lt, strictly_sorted,
};
use crate::paths::{join_path, joined};
use crate::json::{json_parse, parse_json, Json};
use crate::output::{BOLD, DIM, RESET};
use crate::text::{decimal, decimal_chars, lowercase, str_eq, string_of, to_lowercase};

verus! {

/// The keys of a sequence of (key, value) pairs.
pub open spec fn pair_keys(p: Seq<(Seq<char>, Seq<char>)>) -> Seq<Seq<char>> {
    p.map_values(|e: (Seq<char>, Seq<char>)| e.0)
}

/// The map that inserting the pairs one after the other builds (a later pair wins).
pub open spec fn pairs_map(p: Seq<(Seq<char>, Seq<char>)>) -> Map<Seq<char>, Seq<char>>
    decreases p.len(),
{
    if p.len() == 0 {
        Map::empty()
    } else {
        pairs_map(p.drop_last()).insert(p.last().0, p.last().1)
    }
}

/// The keys of `pairs_map(p)` are the keys of `p`; with no key twice, each pair's value is
/// the map's value at its key.
pub proof fn lemma_pairs_map(p: Seq<(Seq<char>, Seq<char>)>)
    ensures
        forall|k: Seq<char>|
            #![trigger pairs_map(p).contains_key(k)]
            #![trigger pair_keys(p).contains(k)]
            pairs_map(p).contains_key(k) <==> pair_keys(p).contains(k),
        strictly_sorted(pair_keys(p)) ==> forall|i: int|
            0 <= i < p.len() ==> #[trigger] pairs_map(p)[p[i].0] == p[i].1,
    decreases p.len(),
{
    if p.len() > 0 {
        let q = p.drop_last();
        let last = p.last();
        lemma_pairs_map(q);
        let kp = pair_keys(p);
        let kq = pair_keys(q);
        assert(kq =~= kp.drop_last());
        assert(kp[p.len() - 1] == last.0);
        assert forall|k: Seq<char>| pairs_map(p).contains_key(k) <==> kp.contains(k) by {
            if k == last.0 {
                assert(kp[p.len() - 1] == k);
            } else {
                if kq.contains(k) {
                    let i = choose|i: int| 0 <= i < kq.len() && kq[i] == k;
                    assert(kp[i] == k);
                }
                if kp.contains(k) {
                    let i = choose|i: int| 0 <= i < kp.len() && kp[i] == k;
                    assert(i < q.len());
                    assert(kq[i] == k);
                }
            }
        }
        if strictly_sorted(kp) {
            assert(strictly_sorted(kq));
            assert forall|i: int| 0 <= i < p.len() implies #[trigger] pairs_map(p)[p[i].0]
                == p[i].1 by {
                if i < q.len() {
                    assert(kp[i] == p[i].0);
                    assert(lex_lt(kp[i], kp[p.len() - 1]));
                    lemma_lex_irreflexive(p[i].0);
                    assert(q[i] == p[i]);
                    assert(pairs_map(q)[q[i].0] == q[i].1);
                }
            }
        }
    }
}

/// Two sorted pair lists that build the same map are the same list.
pub proof fn lemma_sorted_pairs_determined(p: Seq<(Seq<char>, Seq<char>)>, q: Seq<(Seq<char>, Seq<char>)>)
    requires
        strictly_sorted(pair_keys(p)),
        strictly_sorted(pair_keys(q)),
        pairs_map(p) == pairs_map(q),
    ensures
        p == q,
    decreases p.len(),
{
    lemma_pairs_map(p);
    lemma_pairs_map(q);
    if p.len() == 0 || q.len() == 0 {
        if p.len() > 0 {
            assert(pair_keys(p)[0] == p[0].0);
            assert(pair_keys(p).contains(p[0].0));
            assert(pairs_map(p).contains_key(p[0].0));
            assert(!pair_keys(q).contains(p[0].0));
        }
        if q.len() > 0 {
            assert(pair_keys(q)[0] == q[0].0);
            assert(pair_keys(q).contains(q[0].0));
            assert(pairs_map(q).contains_key(q[0].0));
            assert(!pair_keys(p).contains(q[0].0));
        }
        assert(p =~= q);
        return;
    }
    // the last keys are the largest of each, hence equal
    let a = p.last();
    let b = q.last();
    let kp = pair_keys(p);
    let kq = pair_keys(q);
    assert(kp[p.len() - 1] == a.0);
    assert(kq[q.len() - 1] == b.0);
    assert(pairs_map(q).contains_key(a.0));
    assert(pairs_map(p).contains_key(b.0));
    let ia = choose|i: int| 0 <= i < kq.len() && kq[i] == a.0;
    let ib = choose|i: int| 0 <= i < kp.len() && kp[i] == b.0;
    if a.0 != b.0 {
        if ia < q.len() - 1 {
            assert(lex_lt(kq[ia], kq[q.len() - 1]));
        } else {
            assert(kq[ia] == b.0);
        }
        if ib < p.len() - 1 {
            assert(lex_lt(kp[ib], kp[p.len() - 1]));
        } else {
            assert(kp[ib] == a.0);
        }
        lemma_lex_asymmetric(a.0, b.0);
    }
    assert(a.0 == b.0);
    assert(pairs_map(p)[p[p.len() - 1].0] == a.1);
    assert(pairs_map(q)[q[q.len() - 1].0] == b.1);
    assert(a == b);
    let p1 = p.drop_last();
    let q1 = q.drop_last();
    assert(pair_keys(p1) =~= kp.drop_last());
    assert(pair_keys(q1) =~= kq.drop_last());
    lemma_pairs_map(p1);
    lemma_pairs_map(q1);
    // removing the same largest key from both maps leaves the same maps
    assert forall|k: Seq<char>| pairs_map(p1).contains_key(k) implies k != a.0 by {
        let i = choose|i: int| 0 <= i < pair_keys(p1).len() && pair_keys(p1)[i] == k;
        assert(lex_lt(kp[i], kp[p.len() - 1]));
        lemma_lex_irreflexive(k);
    }
    assert forall|k: Seq<char>| pairs_map(q1).contains_key(k) implies k != b.0 by {
        let i = choose|i: int| 0 <= i < pair_keys(q1).len() && pair_keys(q1)[i] == k;
        assert(lex_lt(kq[i], kq[q.len() - 1]));
        lemma_lex_irreflexive(k);
    }
    assert(pairs_map(p1) =~= pairs_map(p).remove(a.0));
    assert(pairs_map(q1) =~= pairs_map(q).remove(b.0));
    lemma_sorted_pairs_determined(p1, q1);
    assert(p =~= p1.push(a));
    assert(q =~= q1.push(b));
}

/// The texts of a sequence of string pairs.
pub open spec fn pair_views(s: Seq<(String, String)>) -> Seq<(Seq<char>, Seq<char>)> {
    s.map_values(|e: (String, String)| (e.0@, e.1@))
}

/// Friendly names (stored in lower case) mapped to binary names, sorted by friendly name.
pub struct AliasTable {
    entries: Vec<(String, String)>,
}

impl AliasTable {
    /// The (friendly name, binary name) pairs, in the table's order.
    pub closed spec fn pairs(&self) -> Seq<(Seq<char>, Seq<char>)> {
        pair_views(self.entries@)
    }

    /// The friendly names are strictly sorted, so none occurs twice.
    pub open spec fn wf(&self) -> bool {
        strictly_sorted(pair_keys(self.pairs()))
    }

    /// An empty table.
    pub fn new() -> (r: AliasTable)
        ensures
            r.wf(),
            r.pairs() == Seq::<(Seq<char>, Seq<char>)>::empty(),
            r@ == Map::<Seq<char>, Seq<char>>::empty(),
    {
        let r = AliasTable { entries: Vec::new() };
        assert(r.pairs() =~= Seq::<(Seq<char>, Seq<char>)>::empty());
        r
    }

    /// The number of aliases.
    pub fn len(&self) -> (r: usize)
        ensures
            r == self.pairs().len(),
    {
        self.entries.len()
    }

    /// Where `key` stands, or would stand, among the sorted friendly names.
    fn position(&self, key: &str) -> (r: (bool, usize))
        requires
            self.wf(),
        ensures
            r.1 <= self.pairs().len(),
            forall|j: int| 0 <= j < r.1 ==> lex_lt(#[trigger] self.pairs()[j].0, key@),
            r.1 < self.pairs().len() ==> !lex_lt(self.pairs()[r.1 as int].0, key@),
            r.0 == (r.1 < self.pairs().len() && self.pairs()[r.1 as int].0 == key@),
            r.0 == pair_keys(self.pairs()).contains(key@),
    {
        let ghost p = self.pairs();
        let mut k: usize = 0;
        while k < self.entries.len() && str_lt(self.entries[k].0.as_str(), key)
            invariant
                k <= self.entries@.len(),
                p == self.pairs(),
                p.len() == self.entries@.len(),
                forall|j: int| 0 <= j < k ==> lex_lt(#[trigger] p[j].0, key@),
            decreases self.entries@.len() - k,
        {
            assert(p[k as int].0 == self.entries@[k as int].0@);
            k = k + 1;
        }
        let found = k < self.entries.len() && str_eq(self.entries[k].0.as_str(), key);
        proof {
            if k < p.len() {
                assert(p[k as int].0 == self.entries@[k as int].0@);
            }
            let ks = pair_keys(p);
            if found {
                assert(ks[k as int] == key@);
            } else {
                assert forall|j: int| 0 <= j < ks.len() implies ks[j] != key@ by {
                    lemma_lex_irreflexive(key@);
                    if j > k {
                        lemma_lex_total(p[k as int].0, key@);
                        if ks[j] == key@ {
                            assert(lex_lt(ks[k as int], ks[j]));
                        }
                    }
                }
            }
        }
        (found, k)
    }

    /// Sets the value of `key` to `value`, adding the key when it is new.
    fn put(&mut self, key: String, value: String)
        requires
            old(self).wf(),
        ensures
            final(self).wf(),
            final(self)@ == old(self)@.insert(key@, value@),
    {
        let ghost p = self.pairs();
        let (found, k) = self.position(key.as_str());
        proof {
            lemma_pairs_map(p);
        }
        if found {
            let ghost kv = key@;
            self.entries.set(k, (key, value));
            let ghost p2 = self.pairs();
            assert(p2 =~= p.update(k as int, (kv, value@)));
            assert(pair_keys(p2) =~= pair_keys(p));
            proof {
                lemma_pairs_map(p2);
                assert forall|x: Seq<char>| #[trigger] pairs_map(p2).contains_key(x)
                    <==> pairs_map(p).insert(kv, value@).contains_key(x) by {}
                assert forall|x: Seq<char>| pairs_map(p2).contains_key(x) implies #[trigger] pairs_map(p2)[x]
                    == pairs_map(p).insert(kv, value@)[x] by {
                    let i = choose|i: int| 0 <= i < pair_keys(p2).len() && pair_keys(p2)[i] == x;
                    assert(pairs_map(p2)[p2[i].0] == p2[i].1);
                    if i != k {
                        assert(p2[i] == p[i]);
                        assert(pairs_map(p)[p[i].0] == p[i].1);
                        if i < k {
                            assert(lex_lt(pair_keys(p)[i], pair_keys(p)[k as int]));
                        } else {
                            assert(lex_lt(pair_keys(p)[k as int], pair_keys(p)[i]));
                        }
                        lemma_lex_irreflexive(x);
                    } else {
                        assert(p2[i] == (kv, value@));
                    }
                }
                assert(pairs_map(p2) =~= pairs_map(p).insert(kv, value@));
            }
        } else {
            let ghost kv = key@;
            self.entries.insert(k, (key, value));
            let ghost p2 = self.pairs();
            assert(p2 =~= p.subrange(0, k as int).push((kv, value@)) + p.subrange(k as int, p.len() as int));
            let ghost ks = pair_keys(p);
            let ghost ks2 = pair_keys(p2);
            assert(ks2 =~= ks.subrange(0, k as int).push(kv) + ks.subrange(k as int, ks.len() as int));
            proof {
                if k < p.len() {
                    lemma_lex_total(ks[k as int], kv);
                }
                assert forall|j: int| k <= j < ks.len() implies lex_lt(kv, #[trigger] ks[j]) by {
                    if j > k {
                        lemma_lex_transitive(kv, ks[k as int], ks[j]);
                    }
                }
                assert forall|i: int, j: int| 0 <= i < j < ks2.len() implies lex_lt(ks2[i], ks2[j]) by {
                    if i < k && j == k {
                        assert(lex_lt(p[i].0, kv));
                    } else if i < k && j > k {
                        assert(lex_lt(p[i].0, kv));
                        if j - 1 > k {
                            lemma_lex_transitive(kv, ks[k as int], ks[j - 1]);
                        }
                        lemma_lex_transitive(ks2[i], kv, ks2[j]);
                    } else if i == k {
                        if j - 1 > k {
                            lemma_lex_transitive(kv, ks[k as int], ks[j - 1]);
                        }
                    } else if i > k {
                        assert(ks2[i] == ks[i - 1]);
                        assert(ks2[j] == ks[j - 1]);
                    }
                }
                lemma_pairs_map(p2);
                assert forall|x: Seq<char>| #[trigger] pairs_map(p2).contains_key(x)
                    <==> pairs_map(p).insert(kv, value@).contains_key(x) by {
                    if ks2.contains(x) {
                        let i = choose|i: int| 0 <= i < ks2.len() && ks2[i] == x;
                        if i < k {
                            assert(ks[i] == x);
                        } else if i > k {
                            assert(ks[i - 1] == x);
                        }
                    }
                    if ks.contains(x) {
                        let i = choose|i: int| 0 <= i < ks.len() && ks[i] == x;
                        if i < k {
                            assert(ks2[i] == x);
                        } else {
                            assert(ks2[i + 1] == x);
                        }
                    }
                    if x == kv {
                        assert(ks2[k as int] == x);
                    }
                }
                assert forall|x: Seq<char>| pairs_map(p2).contains_key(x) implies #[trigger] pairs_map(p2)[x]
                    == pairs_map(p).insert(kv, value@)[x] by {
                    let i = choose|i: int| 0 <= i < ks2.len() && ks2[i] == x;
                    assert(pairs_map(p2)[p2[i].0] == p2[i].1);
                    if i < k {
                        assert(pairs_map(p)[p[i].0] == p[i].1);
                        assert(lex_lt(x, kv));
                        lemma_lex_irreflexive(x);
                    } else if i > k {
                        assert(pairs_map(p)[p[i - 1].0] == p[i - 1].1);
                        assert(lex_lt(kv, x));
                        lemma_lex_irreflexive(x);
                    }
                }
                assert(pairs_map(p2) =~= pairs_map(p).insert(kv, value@));
            }
        }
    }

    /// Removes `key`; returns whether it was there.
    fn take_out(&mut self, key: &str) -> (removed: bool)
        requires
            old(self).wf(),
        ensures
            final(self).wf(),
            removed == old(self)@.contains_key(key@),
            final(self)@ == old(self)@.remove(key@),
    {
        let ghost p = self.pairs();
        let (found, k) = self.position(key);
        proof {
            lemma_pairs_map(p);
        }
        if !found {
            assert(pairs_map(p) =~= pairs_map(p).remove(key@));
            return false;
        }
        self.entries.remove(k);
        let ghost p2 = self.pairs();
        let ghost ks = pair_keys(p);
        let ghost ks2 = pair_keys(p2);
        assert(p2 =~= p.subrange(0, k as int) + p.subrange(k + 1, p.len() as int));
        assert(ks2 =~= ks.subrange(0, k as int) + ks.subrange(k + 1, ks.len() as int));
        proof {
            assert forall|i: int, j: int| 0 <= i < j < ks2.len() implies lex_lt(ks2[i], ks2[j]) by {
                if i < k && j >= k {
                    assert(ks2[j] == ks[j + 1]);
                } else if i >= k {
                    assert(ks2[i] == ks[i + 1]);
                    assert(ks2[j] == ks[j + 1]);
                }
            }
            lemma_pairs_map(p2);
            assert forall|x: Seq<char>| #[trigger] pairs_map(p2).contains_key(x)
                <==> pairs_map(p).remove(key@).contains_key(x) by {
                if ks2.contains(x) {
                    let i = choose|i: int| 0 <= i < ks2.len() && ks2[i] == x;
                    if i < k {
                        assert(ks[i] == x);
                        assert(lex_lt(ks[i], ks[k as int]));
                        lemma_lex_irreflexive(x);
                    } else {
                        assert(ks[i + 1] == x);
                        assert(lex_lt(ks[k as int], ks[i + 1]));
                        lemma_lex_irreflexive(x);
                    }
                }
                if ks.contains(x) && x != key@ {
                    let i = choose|i: int| 0 <= i < ks.len() && ks[i] == x;
                    if i < k {
                        assert(ks2[i] == x);
                    } else {
                        assert(i != k);
                        assert(ks2[i - 1] == x);
                    }
                }
            }
            assert forall|x: Seq<char>| pairs_map(p2).contains_key(x) implies #[trigger] pairs_map(p2)[x]
                == pairs_map(p).remove(key@)[x] by {
                let i = choose|i: int| 0 <= i < ks2.len() && ks2[i] == x;
                assert(pairs_map(p2)[p2[i].0] == p2[i].1);
                if i < k {
                    assert(pairs_map(p)[p[i].0] == p[i].1);
                } else {
                    assert(pairs_map(p)[p[i + 1].0] == p[i + 1].1);
                }
            }
            assert(pairs_map(p2) =~= pairs_map(p).remove(key@));
        }
        true
    }
}

impl View for AliasTable {
    type V = Map<Seq<char>, Seq<char>>;

    open spec fn view(&self) -> Map<Seq<char>, Seq<char>> {
        pairs_map(self.pairs())
    }
}

/// The key under which a friendly name is stored and looked up.
pub open spec fn alias_key(friendly_name: Seq<char>) -> Seq<char> {
    lowercase(friendly_name)
}

/// Sets an alias: `friendly_name`, in lower case, now stands for `binary`.
pub fn set_alias(aliases: &mut AliasTable, binary: &str, friendly_name: &str)
    requires
        old(aliases).wf(),
    ensures
        final(aliases).wf(),
        final(aliases)@ == old(aliases)@.insert(alias_key(friendly_name@), binary@),
{
    let key = to_lowercase(friendly_name);
    let value = String::from_str(binary);
    aliases.put(key, value);
}

/// Removes the alias of `friendly_name` (matched in lower case); returns whether there was one.
pub fn remove_alias(aliases: &mut AliasTable, friendly_name: &str) -> (removed: bool)
    requires
        old(aliases).wf(),
    ensures
        final(aliases).wf(),
        removed == old(aliases)@.contains_key(alias_key(friendly_name@)),
        final(aliases)@ == old(aliases)@.remove(alias_key(friendly_name@)),
{
    let key = to_lowercase(friendly_name);
    aliases.take_out(key.as_str())
}

/// The binary that `name` stands for, matched case-insensitively; `None` when there is no
/// such alias.
pub fn resolve_alias(aliases: &AliasTable, name: &str) -> (r: Option<String>)
    requires
        aliases.wf(),
    ensures
        match r {
            Some(b) => aliases@.contains_key(alias_key(name@)) && b@ == aliases@[alias_key(
                name@,
            )],
            None => !aliases@.contains_key(alias_key(name@)),
        },
{
    let key = to_lowercase(name);
    let (found, k) = aliases.position(key.as_str());
    proof {
        lemma_pairs_map(aliases.pairs());
    }
    if found {
        assert(aliases.pairs()[k as int].1 == aliases.entries@[k as int].1@);
        Some(aliases.entries[k].1.clone())
    } else {
        None
    }
}

/// All aliases as (friendly name, binary name) pairs, sorted by friendly name.
pub fn all_aliases(aliases: &AliasTable) -> (r: Vec<(String, String)>)
    requires
        aliases.wf(),
    ensures
        pair_views(r@) == aliases.pairs(),
        strictly_sorted(pair_keys(aliases.pairs())),
{
    let mut r: Vec<(String, String)> = Vec::new();
    let mut i: usize = 0;
    while i < aliases.entries.len()
        invariant
            i <= aliases.entries@.len(),
            pair_views(r@) == aliases.pairs().subrange(
                0,
                i as int,
            ),
        decreases aliases.entries@.len() - i,
    {
        let a = aliases.entries[i].0.clone();
        let b = aliases.entries[i].1.clone();
        let ghost before = r@;
        r.push((a, b));
        assert(r@ == before.push((a, b)));
        assert(pair_views(r@) =~= pair_views(before).push((a@, b@)));
        assert(aliases.pairs()[i as int] == (aliases.entries@[i as int].0@, aliases.entries@[i as int].1@));
        assert(pair_views(r@) =~= aliases.pairs().subrange(
            0,
            i + 1,
        ));
        i = i + 1;
    }
    assert(aliases.pairs().subrange(0, i as int) =~= aliases.pairs());
    r
}

/// Builds a table from (friendly name, binary) pairs taken as they are, a later pair
/// replacing an earlier one with the same friendly name.
pub fn alias_table_from_pairs(pairs: &[(String, String)]) -> (r: AliasTable)
    ensures
        r.wf(),
        r@ == pairs_map(pair_views(pairs@)),
{
    let ghost src = pair_views(pairs@);
    let mut t = AliasTable::new();
    let mut i: usize = 0;
    let n = pairs.len();
    while i < n
        invariant
            n == src.len(),
            n == pairs@.len(),
            src == pair_views(pairs@),
            i <= n,
            t.wf(),
            t@ == pairs_map(src.subrange(0, i as int)),
        decreases n - i,
    {
        let k = pairs[i].0.clone();
        let v = pairs[i].1.clone();
        assert((k@, v@) == src[i as int]);
        t.put(k, v);
        assert(src.subrange(0, i + 1).drop_last() =~= src.subrange(0, i as int));
        i = i + 1;
    }
    assert(src.subrange(0, n as int) =~= src);
    t
}

/// The file in which aliases are kept, under the home directory `home`.
pub fn aliases_file(home: &str) -> (r: String)
    ensures
        r@ == joined(joined(home@, ".wherearethey"@), "aliases.json"@),
{
    let dir = join_path(home, ".wherearethey");
    join_path(dir.as_str(), "aliases.json")
}

/// The (friendly name, binary) pairs that an aliases file holds: the members of a JSON
/// object whose values are all strings; nothing for any other text (`BTreeMap<String, String>`
/// deserialisation, which fails as a whole on any other value).
pub open spec fn alias_pairs_of(j: Option<Json>) -> Seq<(Seq<char>, Seq<char>)> {
    match j {
        Some(Json::Object(m)) => if forall|i: int| 0 <= i < m@.len() ==> (#[trigger] m@[i]).1 is Str {
            m@.map_values(|e: (String, Json)| (e.0@, str_text(e.1)))
        } else {
            seq![]
        },
        _ => seq![],
    }
}

/// The text of a JSON string (empty for any other value).
pub open spec fn str_text(j: Json) -> Seq<char> {
    match j {
        Json::Str(s) => s@,
        _ => seq![],
    }
}

/// The aliases that the text of an aliases file holds.
pub fn aliases_from_json(text: &str) -> (r: AliasTable)
    ensures
        r.wf(),
        r@ == pairs_map(alias_pairs_of(json_parse(text@))),
{
    let parsed = parse_json(text);
    aliases_from_value(&parsed)
}

/// The aliases of an aliases file, when it exists: none when there is no file, else those
/// that its text holds.
pub fn aliases_from_file(text: Option<String>) -> (r: AliasTable)
    ensures
        r.wf(),
        r@ == match text {
            Some(t) => pairs_map(alias_pairs_of(json_parse(t@))),
            None => Map::<Seq<char>, Seq<char>>::empty(),
        },
{
    match text {
        Some(t) => aliases_from_json(t.as_str()),
        None => AliasTable::new(),
    }
}

/// The aliases that a parsed aliases file holds.
pub fn aliases_from_value(parsed: &Option<Json>) -> (r: AliasTable)
    ensures
        r.wf(),
        r@ == pairs_map(alias_pairs_of(*parsed)),
{
    let mut pairs: Vec<(String, String)> = Vec::new();
    match parsed {
        Some(Json::Object(m)) => {
            let mut i: usize = 0;
            let mut all_text = true;
            while i < m.len()
                invariant
                    i <= m@.len(),
                    all_text ==> pair_views(pairs@) == m@.take(i as int).map_values(|e: (String, Json)| (e.0@, str_text(e.1))),
                    all_text ==> forall|j: int| 0 <= j < i ==> (#[trigger] m@[j]).1 is Str,
                    !all_text ==> exists|j: int| 0 <= j < m@.len() && !((#[trigger] m@[j]).1 is Str),
                decreases m@.len() - i,
            {
                match &m[i].1 {
                    Json::Str(v) => {
                        if all_text {
                            let ghost before = pairs@;
                            pairs.push((m[i].0.clone(), v.clone()));
                            assert(pair_views(pairs@) =~= pair_views(before).push((m@[i as int].0@, str_text(m@[i as int].1))));
                            assert(m@.take(i + 1).map_values(|e: (String, Json)| (e.0@, str_text(e.1))) =~= m@.take(i as int).map_values(|e: (String, Json)| (e.0@, str_text(e.1))).push((m@[i as int].0@, str_text(m@[i as int].1))));
                        }
                    },
                    _ => {
                        all_text = false;
                    },
                }
                i = i + 1;
            }
            if !all_text {
                let empty: Vec<(String, String)> = Vec::new();
                assert(pair_views(empty@) =~= seq![]);
                return alias_table_from_pairs(empty.as_slice());
            }
            assert(m@.take(i as int) =~= m@);
        },
        _ => {
            assert(pair_views(pairs@) =~= seq![]);
        },
    }
    alias_table_from_pairs(pairs.as_slice())
}

/// The line of one alias.
pub open spec fn alias_line(p: (Seq<char>, Seq<char>)) -> Seq<char> {
    "  "@ + BOLD@ + p.0 + RESET@ + " "@ + DIM@ + "→"@ + RESET@ + " "@ + p.1 + "\n"@
}

/// The lines of the aliases, in order.
pub open spec fn alias_lines(ps: Seq<(Seq<char>, Seq<char>)>) -> Seq<char>
    decreases ps.len(),
{
    if ps.len() == 0 {
        seq![]
    } else {
        alias_lines(ps.drop_last()) + alias_line(ps.last())
    }
}

/// The listing of the aliases: nothing when there are none, else a heading with their
/// number and one line per alias, in the table's order.
pub open spec fn alias_listing(ps: Seq<(Seq<char>, Seq<char>)>) -> Seq<char> {
    if ps.len() == 0 {
        seq![]
    } else {
        "\n  "@ + BOLD@ + "Aliases"@ + RESET@ + " "@ + DIM@ + "("@ + decimal(ps.len()) + " entries)"@
            + RESET@ + "\n\n"@ + alias_lines(ps) + "\n"@
    }
}

/// The text that lists all aliases (empty when there are none).
pub fn list_aliases(aliases: &AliasTable) -> (r: String)
    requires
        aliases.wf(),
    ensures
        r@ == alias_listing(aliases.pairs()),
{
    let ghost ps = aliases.pairs();
    let mut out = String::new();
    if aliases.entries.len() == 0 {
        return out;
    }
    out.append("\n  ");
    out.append(BOLD);
    out.append("Aliases");
    out.append(RESET);
    out.append(" ");
    out.append(DIM);
    out.append("(");
    out.append(string_of(decimal_chars(aliases.entries.len()).as_slice()).as_str());
    out.append(" entries)");
    out.append(RESET);
    out.append("\n\n");
    let ghost head = out@;
    let mut i: usize = 0;
    while i < aliases.entries.len()
        invariant
            i <= aliases.entries@.len(),
            ps == aliases.pairs(),
            out@ == head + alias_lines(ps.take(i as int)),
        decreases aliases.entries@.len() - i,
    {
        assert(ps.take(i + 1).drop_last() =~= ps.take(i as int));
        let ghost before = out@;
        out.append("  ");
        out.append(BOLD);
        out.append(aliases.entries[i].0.as_str());
        out.append(RESET);
        out.append(" ");
        out.append(DIM);
        out.append("→");
        out.append(RESET);
        out.append(" ");
        out.append(aliases.entries[i].1.as_str());
        out.append("\n");
        assert(ps[i as int] == (aliases.entries@[i as int].0@, aliases.entries@[i as int].1@));
        assert(out@ =~= before + alias_line(ps[i as int]));
        i = i + 1;
    }
    assert(ps.take(i as int) =~= ps);
    out.append("\n");
    out
}

} // verus!
