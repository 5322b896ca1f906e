//! The binaries on `PATH`, the ones that no package manager claims, and wildcard searches.
use vstd::prelude::*;

use crate::aliases::{alias_key, AliasTable};
use crate::managers::Fields;
use crate::order::{
    lemma_is_sorted_elements, sorted_elements, sorted_insert, strictly_sorted, texts,
};
use crate::text::{
    chars_of, find_char, find_from, has_infix, has_prefix, lemma_find_from, lowercase,
    slice_to_vec, str_contains, str_eq, str_starts_with, string_of, to_lowercase,
};
use crate::types::{opt_view, tool_fields, LookupResult, ToolInfo};
use crate::wildcard::{glob_match, wildcard_match};

verus! {

/// The pieces of `s[from..]` between the separators `c` (`str::split`), empty pieces
/// included.
pub open spec fn pieces_from(s: Seq<char>, c: char, from: int) -> Seq<Seq<char>>
    decreases s.len() - from + 1,
{
    if from < 0 || from > s.len() {
        seq![]
    } else {
        let e = find_from(s, c, from);
        if e >= s.len() {
            seq![s.subrange(from, s.len() as int)]
        } else {
            proof {
                lemma_find_from(s, c, from);
            }
            seq![s.subrange(from, e)] + pieces_from(s, c, e + 1)
        }
    }
}

/// The pieces of `s` between the separators `c` (`str::split`).
pub open spec fn pieces(s: Seq<char>, c: char) -> Seq<Seq<char>> {
    pieces_from(s, c, 0)
}

/// A directory of `PATH` that is scanned: not one of the system directories, nor one of the
/// Command Line Tools.
pub open spec fn scanned_dir(d: Seq<char>) -> bool {
    !(d == "/usr/bin"@ || d == "/bin"@ || d == "/sbin"@ || d == "/usr/sbin"@) && !has_infix(
        d,
        "/Library/Developer/CommandLineTools"@,
    )
}

/// The directories of the `PATH` value `path_var` that are scanned for binaries, in order.
pub open spec fn scanned_dirs(path_var: Seq<char>) -> Seq<Seq<char>> {
    pieces(path_var, ':').filter(|d: Seq<char>| scanned_dir(d))
}

/// The directories of `PATH` to scan for binaries (those of them that exist are read).
pub fn path_dirs(path_var: &str) -> (r: Vec<String>)
    ensures
        texts(r@) == scanned_dirs(path_var@),
{
    let v = chars_of(path_var);
    let n = v.len();
    let ghost keep = |d: Seq<char>| scanned_dir(d);
    let mut r: Vec<String> = Vec::new();
    let mut from: usize = 0;
    let mut done = false;
    while !done
        invariant
            n == v@.len(),
            v@ == path_var@,
            from <= n,
            keep == |d: Seq<char>| scanned_dir(d),
            !done ==> pieces(v@, ':').filter(keep) == texts(r@) + pieces_from(v@, ':', from as int).filter(keep),
            done ==> pieces(v@, ':').filter(keep) == texts(r@),
        decreases n - from + (if done { 0int } else { 1int }),
    {
        proof {
            lemma_find_from(v@, ':', from as int);
        }
        let e = find_char(v.as_slice(), ':', from);
        let piece = slice_to_vec(v.as_slice(), from, e);
        let d = string_of(piece.as_slice());
        let ok = !(str_eq(d.as_str(), "/usr/bin") || str_eq(d.as_str(), "/bin") || str_eq(d.as_str(), "/sbin") || str_eq(d.as_str(), "/usr/sbin")) && !str_contains(d.as_str(), "/Library/Developer/CommandLineTools");
        let ghost before = texts(r@);
        let ghost rest = if e >= n {
            Seq::<Seq<char>>::empty()
        } else {
            pieces_from(v@, ':', e + 1)
        };
        assert(pieces_from(v@, ':', from as int) == seq![d@] + rest);
        proof {
            rest.lemma_filter_prepend(d@, keep);
            assert(seq![d@] + rest =~= rest.insert(0, d@));
        }
        if ok {
            r.push(d);
            assert(texts(r@) =~= before.push(d@));
        }
        if e >= n {
            done = true;
            assert(rest.filter(keep) =~= Seq::<Seq<char>>::empty());
        } else {
            from = e + 1;
        }
    }
    r
}

/// The names that count as binaries: those that are not hidden.
pub open spec fn visible_names(names: Seq<Seq<char>>) -> Set<Seq<char>> {
    names.filter(|b: Seq<char>| !has_prefix(b, "."@)).to_set()
}

/// The binaries in the scanned directories, from the names of their entries: the visible
/// ones, each once, in the order of `String` (a `BTreeSet<String>`).
pub fn get_all_path_binaries(names: &[String]) -> (r: Vec<String>)
    ensures
        strictly_sorted(texts(r@)),
        texts(r@) == sorted_elements(visible_names(texts(names@))),
{
    let ghost ns = texts(names@);
    let ghost vis = |b: Seq<char>| !has_prefix(b, "."@);
    let mut r: Vec<String> = Vec::new();
    let mut i: usize = 0;
    while i < names.len()
        invariant
            i <= names@.len(),
            ns == texts(names@),
            vis == |b: Seq<char>| !has_prefix(b, "."@),
            strictly_sorted(texts(r@)),
            texts(r@).to_set() == ns.take(i as int).filter(vis).to_set(),
        decreases names@.len() - i,
    {
        assert(ns.take(i + 1) =~= ns.take(i as int).push(ns[i as int]));
        proof {
            ns.take(i as int).lemma_filter_push(ns[i as int], vis);
        }
        if !str_starts_with(names[i].as_str(), ".") {
            proof {
                ns.take(i as int).filter(vis).lemma_push_to_set_commute(ns[i as int]);
            }
            sorted_insert(&mut r, names[i].clone());
        }
        i = i + 1;
    }
    assert(ns.take(i as int) =~= ns);
    proof {
        lemma_is_sorted_elements(texts(r@));
    }
    r
}

/// The names of a sequence of tools.
pub open spec fn tool_names(tools: Seq<Fields>) -> Seq<Seq<char>> {
    tools.map_values(|t: Fields| t.0)
}

/// The binaries that no tool of the scan claims by name, in their order.
pub open spec fn unclaimed_of(binaries: Seq<Seq<char>>, tools: Seq<Fields>) -> Seq<Seq<char>> {
    binaries.filter(|b: Seq<char>| !tool_names(tools).contains(b))
}

fn claimed(tools: &[ToolInfo], name: &str) -> (r: bool)
    ensures
        r == tool_names(tool_fields(tools@)).contains(name@),
{
    let ghost tn = tool_names(tool_fields(tools@));
    let mut i: usize = 0;
    while i < tools.len()
        invariant
            i <= tools@.len(),
            tn == tool_names(tool_fields(tools@)),
            forall|j: int| 0 <= j < i ==> tn[j] != name@,
        decreases tools@.len() - i,
    {
        assert(tn[i as int] == tools@[i as int].name@);
        if str_eq(tools[i].name.as_str(), name) {
            return true;
        }
        i = i + 1;
    }
    false
}

/// The binaries on `PATH` that no package manager claims by name; each is then looked up,
/// and `unmanaged` keeps those whose source is unknown.
pub fn unclaimed(binaries: &[String], tools: &[ToolInfo]) -> (r: Vec<String>)
    ensures
        texts(r@) == unclaimed_of(texts(binaries@), tool_fields(tools@)),
{
    let ghost bs = texts(binaries@);
    let ghost ts = tool_fields(tools@);
    let ghost keep = |b: Seq<char>| !tool_names(ts).contains(b);
    let mut r: Vec<String> = Vec::new();
    let mut i: usize = 0;
    while i < binaries.len()
        invariant
            i <= binaries@.len(),
            bs == texts(binaries@),
            ts == tool_fields(tools@),
            keep == |b: Seq<char>| !tool_names(ts).contains(b),
            texts(r@) == bs.take(i as int).filter(keep),
        decreases binaries@.len() - i,
    {
        assert(bs.take(i + 1) =~= bs.take(i as int).push(bs[i as int]));
        proof {
            bs.take(i as int).lemma_filter_push(bs[i as int], keep);
        }
        if !claimed(tools, binaries[i].as_str()) {
            let ghost before = r@;
            r.push(binaries[i].clone());
            assert(texts(r@) =~= texts(before).push(bs[i as int]));
        }
        i = i + 1;
    }
    assert(bs.take(i as int) =~= bs);
    r
}

/// The records of the lookups that found their binary.
pub open spec fn found(results: Seq<Option<LookupResult>>) -> Seq<LookupResult>
    decreases results.len(),
{
    if results.len() == 0 {
        seq![]
    } else {
        match results.last() {
            Some(r) => found(results.drop_last()).push(r),
            None => found(results.drop_last()),
        }
    }
}

/// The results whose source is unknown: the binaries that no package manager manages.
pub open spec fn unmanaged_of(results: Seq<Option<LookupResult>>) -> Seq<(Seq<char>, Seq<char>, Option<Seq<char>>, Seq<char>, Option<Seq<char>>)> {
    found(results).map_values(|r: LookupResult| r.fields()).filter(
        |f: (Seq<char>, Seq<char>, Option<Seq<char>>, Seq<char>, Option<Seq<char>>)| f.3 == "unknown"@,
    )
}

/// Of the fast lookups of the unclaimed binaries, those that found the binary and whose
/// source is unknown, in order.
pub fn unmanaged(results: &[Option<LookupResult>]) -> (r: Vec<LookupResult>)
    ensures
        r@.map_values(|x: LookupResult| x.fields()) == unmanaged_of(results@),
{
    let ghost keep = |f: (Seq<char>, Seq<char>, Option<Seq<char>>, Seq<char>, Option<Seq<char>>)| f.3 == "unknown"@;
    let mut r: Vec<LookupResult> = Vec::new();
    let mut i: usize = 0;
    while i < results.len()
        invariant
            i <= results@.len(),
            keep == |f: (Seq<char>, Seq<char>, Option<Seq<char>>, Seq<char>, Option<Seq<char>>)| f.3 == "unknown"@,
            r@.map_values(|x: LookupResult| x.fields()) == unmanaged_of(results@.take(i as int)),
        decreases results@.len() - i,
    {
        let ghost prev = results@.take(i as int);
        assert(results@.take(i + 1).drop_last() =~= prev);
        match &results[i] {
            Some(x) => {
                let ghost fs = found(prev).map_values(|y: LookupResult| y.fields());
                assert(found(results@.take(i + 1)) == found(prev).push(*x));
                assert(found(prev).push(*x).map_values(|y: LookupResult| y.fields()) =~= fs.push(x.fields()));
                proof {
                    fs.lemma_filter_push(x.fields(), keep);
                }
                if str_eq(x.source.as_str(), "unknown") {
                    let ghost before = r@;
                    r.push(x.copy());
                    assert(r@.map_values(|y: LookupResult| y.fields()) =~= before.map_values(|y: LookupResult| y.fields()).push(x.fields()));
                }
            },
            None => {
                assert(found(results@.take(i + 1)) == found(prev));
            },
        }
        i = i + 1;
    }
    assert(results@.take(i as int) =~= results@);
    r
}

/// What a name given on the command line looks up: the binary of its alias, matched
/// case-insensitively, or else the name itself.
pub open spec fn lookup_target_of(aliases: Map<Seq<char>, Seq<char>>, name: Seq<char>) -> Seq<char> {
    if aliases.contains_key(alias_key(name)) {
        aliases[alias_key(name)]
    } else {
        name
    }
}

/// The binary that a name given on the command line stands for.
pub fn lookup_target(aliases: &AliasTable, name: &str) -> (r: String)
    requires
        aliases.wf(),
    ensures
        r@ == lookup_target_of(aliases@, name@),
{
    match crate::aliases::resolve_alias(aliases, name) {
        Some(b) => b,
        None => String::from_str(name),
    }
}

/// The names that a wildcard pattern finds: the binaries on `PATH` and the tools of the
/// scan whose names it matches, and the binaries of the aliases whose friendly names its
/// lower-case form matches.
pub open spec fn wildcard_hits(
    pattern: Seq<char>,
    binaries: Seq<Seq<char>>,
    tools: Seq<Fields>,
    aliases: Seq<(Seq<char>, Seq<char>)>,
) -> Set<Seq<char>> {
    binaries.filter(|b: Seq<char>| glob_match(pattern, b)).to_set() + tool_names(tools).filter(
        |n: Seq<char>| glob_match(pattern, n),
    ).to_set() + aliases.filter(|p: (Seq<char>, Seq<char>)| glob_match(lowercase(pattern), p.0)).map_values(
        |p: (Seq<char>, Seq<char>)| p.1,
    ).to_set()
}

/// The names that the wildcard `pattern` finds, each once, in the order of `String`.
pub fn wildcard_search(
    pattern: &str,
    binaries: &[String],
    tools: &[ToolInfo],
    aliases: &AliasTable,
) -> (r: Vec<String>)
    requires
        aliases.wf(),
    ensures
        strictly_sorted(texts(r@)),
        texts(r@) == sorted_elements(
            wildcard_hits(pattern@, texts(binaries@), tool_fields(tools@), aliases.pairs()),
        ),
{
    let ghost p = pattern@;
    let ghost bs = texts(binaries@);
    let ghost ts = tool_fields(tools@);
    let ghost ps = aliases.pairs();
    let ghost m1 = |b: Seq<char>| glob_match(p, b);
    let ghost m3 = |q: (Seq<char>, Seq<char>)| glob_match(lowercase(p), q.0);
    let ghost snd = |q: (Seq<char>, Seq<char>)| q.1;
    let mut r: Vec<String> = Vec::new();
    // binaries on PATH
    let mut i: usize = 0;
    while i < binaries.len()
        invariant
            i <= binaries@.len(),
            bs == texts(binaries@),
            m1 == |b: Seq<char>| glob_match(p, b),
            p == pattern@,
            strictly_sorted(texts(r@)),
            texts(r@).to_set() == bs.take(i as int).filter(m1).to_set(),
        decreases binaries@.len() - i,
    {
        assert(bs.take(i + 1) =~= bs.take(i as int).push(bs[i as int]));
        proof {
            bs.take(i as int).lemma_filter_push(bs[i as int], m1);
            bs.take(i as int).filter(m1).lemma_push_to_set_commute(bs[i as int]);
        }
        if wildcard_match(pattern, binaries[i].as_str()) {
            sorted_insert(&mut r, binaries[i].clone());
        }
        i = i + 1;
    }
    assert(bs.take(i as int) =~= bs);
    let ghost set1 = bs.filter(m1).to_set();
    // tools of the scan
    let ghost tn = tool_names(ts);
    let mut k: usize = 0;
    while k < tools.len()
        invariant
            k <= tools@.len(),
            ts == tool_fields(tools@),
            tn == tool_names(ts),
            m1 == |b: Seq<char>| glob_match(p, b),
            p == pattern@,
            strictly_sorted(texts(r@)),
            texts(r@).to_set() == set1 + tn.take(k as int).filter(m1).to_set(),
        decreases tools@.len() - k,
    {
        assert(tn.take(k + 1) =~= tn.take(k as int).push(tn[k as int]));
        assert(tn[k as int] == tools@[k as int].name@);
        proof {
            tn.take(k as int).lemma_filter_push(tn[k as int], m1);
            tn.take(k as int).filter(m1).lemma_push_to_set_commute(tn[k as int]);
        }
        if wildcard_match(pattern, tools[k].name.as_str()) {
            sorted_insert(&mut r, tools[k].name.clone());
            assert(texts(r@).to_set() =~= set1 + tn.take(k + 1).filter(m1).to_set());
        }
        k = k + 1;
    }
    assert(tn.take(k as int) =~= tn);
    let ghost set2 = set1 + tn.filter(m1).to_set();
    // aliases, by friendly name
    let lower = to_lowercase(pattern);
    let all = crate::aliases::all_aliases(aliases);
    let mut j: usize = 0;
    while j < all.len()
        invariant
            j <= all@.len(),
            crate::aliases::pair_views(all@) == ps,
            ps == aliases.pairs(),
            lower@ == lowercase(p),
            m3 == |q: (Seq<char>, Seq<char>)| glob_match(lowercase(p), q.0),
            snd == |q: (Seq<char>, Seq<char>)| q.1,
            strictly_sorted(texts(r@)),
            texts(r@).to_set() == set2 + ps.take(j as int).filter(m3).map_values(snd).to_set(),
        decreases all@.len() - j,
    {
        assert(ps.take(j + 1) =~= ps.take(j as int).push(ps[j as int]));
        assert(ps[j as int] == (all@[j as int].0@, all@[j as int].1@));
        proof {
            ps.take(j as int).lemma_filter_push(ps[j as int], m3);
            ps.take(j as int).filter(m3).lemma_push_map_commute(snd, ps[j as int]);
            ps.take(j as int).filter(m3).map_values(snd).lemma_push_to_set_commute(ps[j as int].1);
        }
        if wildcard_match(lower.as_str(), all[j].0.as_str()) {
            sorted_insert(&mut r, all[j].1.clone());
            assert(texts(r@).to_set() =~= set2 + ps.take(j + 1).filter(m3).map_values(snd).to_set());
        }
        j = j + 1;
    }
    assert(ps.take(j as int) =~= ps);
    assert(ps.filter(m3).map_values(snd) =~= ps.filter(|q: (Seq<char>, Seq<char>)| glob_match(lowercase(p), q.0)).map_values(|q: (Seq<char>, Seq<char>)| q.1));
    proof {
        lemma_is_sorted_elements(texts(r@));
    }
    r
}

/// What a wildcard match shows: its name, and the source and version of the lookup that
/// found it on `PATH`, or else of the first tool of the scan with its name.
pub open spec fn match_description(
    name: Seq<char>,
    found: Option<(Seq<char>, Seq<char>, Option<Seq<char>>, Seq<char>, Option<Seq<char>>)>,
    tools: Seq<Fields>,
) -> Option<(Seq<char>, Seq<char>, Option<Seq<char>>)> {
    match found {
        Some(f) => Some((name, f.3, f.4)),
        None => {
            let i = tool_names(tools).index_of_first(name);
            match i {
                Some(k) => Some((name, tools[k].2, tools[k].3)),
                None => None,
            }
        },
    }
}

/// The view of an optional lookup result.
pub open spec fn opt_result(r: Option<LookupResult>) -> Option<(Seq<char>, Seq<char>, Option<Seq<char>>, Seq<char>, Option<Seq<char>>)> {
    match r {
        Some(x) => Some(x.fields()),
        None => None,
    }
}

/// The view of a match description.
pub open spec fn description_view(d: (String, String, Option<String>)) -> (Seq<char>, Seq<char>, Option<Seq<char>>) {
    (d.0@, d.1@, opt_view(d.2))
}

/// What to show of one name that a wildcard found (`None` when neither `PATH` nor the scan
/// knows it).
#[verifier::loop_isolation(false)]
pub fn describe_match(name: &str, found: Option<LookupResult>, tools: &[ToolInfo]) -> (r: Option<(String, String, Option<String>)>)
    ensures
        match r {
            Some(d) => match_description(name@, opt_result(found), tool_fields(tools@)) == Some(description_view(d)),
            None => match_description(name@, opt_result(found), tool_fields(tools@)) is None,
        },
{
    match found {
        Some(f) => Some((String::from_str(name), f.source, f.version)),
        None => {
            let ghost tn = tool_names(tool_fields(tools@));
            let mut i: usize = 0;
            while i < tools.len()
                invariant
                    i <= tools@.len(),
                    tn == tool_names(tool_fields(tools@)),
                    forall|j: int| 0 <= j < i ==> tn[j] != name@,
                decreases tools@.len() - i,
            {
                assert(tn[i as int] == tools@[i as int].name@);
                if str_eq(tools[i].name.as_str(), name) {
                    proof {
                        assert(tn[i as int] == name@);
                        assert(tn.contains(name@));
                        tn.index_of_first_ensures(name@);
                        let k = tn.index_of_first(name@).unwrap();
                        if k < i {
                            assert(tn[k] != name@);
                        }
                        if k > i {
                            assert(tn[i as int] != name@);
                        }
                        assert(k == i);
                        assert(tool_fields(tools@)[k] == tools@[k].fields());
                    }
                    return Some((String::from_str(name), tools[i].source.clone(), crate::types::copy_opt(&tools[i].version)));
                }
                i = i + 1;
            }
            proof {
                tn.index_of_first_ensures(name@);
            }
            None
        },
    }
}

} // verus!
