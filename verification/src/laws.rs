//! Properties of the library as a whole, each proved over the spec functions that the
//! operations' contracts use.
use vstd::prelude::*;

use crate::aliases::{alias_key, lemma_sorted_pairs_determined, AliasTable};
use crate::detect::{source_for_path, source_of};
use crate::managers::{
    after_first, all_from, concat_all, lemma_collect_some_contains, manager_order, npm_entry,
    npm_tools, or_empty, Fields,
};
use crate::order::{lemma_sorted_elements_exist, sorted_elements};
use crate::output::{from_source, of_source, sources_of};
use crate::paths::{file_name_of, file_name_upto, joined, rfind_before, strip_end_index};
use crate::scan::{
    found, lookup_target_of, pieces, pieces_from, scanned_dirs, tool_names, unclaimed_of, unmanaged_of,
    wildcard_hits,
};
use crate::text::{
    find_from, has_infix, has_prefix, lemma_find_from, lines_of, lowercase, occurs_at, trimmed,
};
use crate::types::LookupResult;
use crate::wildcard::{glob_from, glob_match, has_wildcard};

verus! {

/// `c` is an ordinary character of a pattern: it stands for itself.
pub open spec fn literal_char(c: char) -> bool {
    c != '*' && c != '?'
}

/// With only ordinary characters in `p[i..]`, it matches `s[j..]` exactly when the two are
/// the same text.
proof fn lemma_glob_literal(p: Seq<char>, s: Seq<char>, i: int, j: int)
    requires
        0 <= i <= p.len(),
        0 <= j <= s.len(),
        forall|k: int| i <= k < p.len() ==> literal_char(#[trigger] p[k]),
    ensures
        glob_from(p, s, i, j) <==> (p.len() - i == s.len() - j && p.subrange(i, p.len() as int)
            == s.subrange(j, s.len() as int)),
    decreases p.len() - i,
{
    if i == p.len() {
        if j < s.len() {
            assert(p.subrange(i, p.len() as int).len() != s.subrange(j, s.len() as int).len());
        } else {
            assert(p.subrange(i, p.len() as int) =~= s.subrange(j, s.len() as int));
        }
    } else if j == s.len() {
        assert(p.subrange(i, p.len() as int).len() != s.subrange(j, s.len() as int).len());
    } else {
        lemma_glob_literal(p, s, i + 1, j + 1);
        let a = p.subrange(i, p.len() as int);
        let b = s.subrange(j, s.len() as int);
        if p[i] == s[j] {
            if a == b {
                assert(a.drop_first() =~= p.subrange(i + 1, p.len() as int));
                assert(b.drop_first() =~= s.subrange(j + 1, s.len() as int));
            }
            if p.subrange(i + 1, p.len() as int) == s.subrange(j + 1, s.len() as int) {
                let ta = p.subrange(i + 1, p.len() as int);
                let tb = s.subrange(j + 1, s.len() as int);
                assert(ta.len() == tb.len());
                assert(a.len() == b.len());
                assert forall|k: int| 0 <= k < a.len() implies a[k] == b[k] by {
                    if k > 0 {
                        assert(a[k] == ta[k - 1]);
                        assert(b[k] == tb[k - 1]);
                    }
                }
                assert(a =~= b);
            }
        } else {
            assert(a[0] != b[0]);
        }
    }
}

/// A pattern `q*` with only ordinary characters in `q = p[i..p.len() - 1]` matches `s[j..]`
/// exactly when `s[j..]` starts with `q`.
proof fn lemma_glob_literal_star(p: Seq<char>, s: Seq<char>, i: int, j: int)
    requires
        p.len() >= 1,
        p.last() == '*',
        0 <= i <= p.len() - 1,
        0 <= j <= s.len(),
        forall|k: int| i <= k < p.len() - 1 ==> literal_char(#[trigger] p[k]),
    ensures
        glob_from(p, s, i, j) <==> (j + (p.len() - 1 - i) <= s.len() && s.subrange(
            j,
            j + (p.len() - 1 - i),
        ) == p.subrange(i, p.len() - 1)),
    decreases p.len() - i, s.len() - j,
{
    let n = p.len() - 1 - i;
    if i == p.len() - 1 {
        // a final star matches every rest
        lemma_glob_final_star(p, s, j);
        assert(s.subrange(j, j) =~= p.subrange(i, p.len() - 1));
    } else if j == s.len() {
        assert(!glob_from(p, s, i, j));
    } else {
        lemma_glob_literal_star(p, s, i + 1, j + 1);
        let a = s.subrange(j, j + n);
        let b = p.subrange(i, p.len() - 1);
        if j + n <= s.len() {
            if p[i] == s[j] {
                if a == b {
                    assert(a.drop_first() =~= s.subrange(j + 1, j + n));
                    assert(b.drop_first() =~= p.subrange(i + 1, p.len() - 1));
                }
                if s.subrange(j + 1, j + n) == p.subrange(i + 1, p.len() - 1) {
                    let ta = s.subrange(j + 1, j + n);
                    assert(a.len() == b.len());
                    assert forall|k: int| 0 <= k < a.len() implies a[k] == b[k] by {
                        if k > 0 {
                            assert(a[k] == ta[k - 1]);
                        }
                    }
                    assert(a =~= b);
                }
            } else {
                assert(a[0] != b[0]);
            }
        }
    }
}

/// A final star matches any rest of the text.
proof fn lemma_glob_final_star(p: Seq<char>, s: Seq<char>, j: int)
    requires
        p.len() >= 1,
        p.last() == '*',
        0 <= j <= s.len(),
    ensures
        glob_from(p, s, p.len() - 1, j),
    decreases s.len() - j,
{
    if j < s.len() {
        lemma_glob_final_star(p, s, j + 1);
    } else {
        assert(glob_from(p, s, p.len() as int, j));
    }
}

/// A pattern `*q*` with only ordinary characters in `q` matches `s[j..]` exactly when `q`
/// occurs in `s` at or after `j`.
proof fn lemma_glob_star_literal_star(p: Seq<char>, s: Seq<char>, j: int)
    requires
        p.len() >= 2,
        p[0] == '*',
        p.last() == '*',
        0 <= j <= s.len(),
        forall|k: int| 1 <= k < p.len() - 1 ==> literal_char(#[trigger] p[k]),
    ensures
        glob_from(p, s, 0, j) <==> exists|k: int|
            j <= k && #[trigger] occurs_at(s, p.subrange(1, p.len() - 1), k),
    decreases s.len() - j,
{
    let q = p.subrange(1, p.len() - 1);
    lemma_glob_literal_star(p, s, 1, j);
    if glob_from(p, s, 1, j) {
        assert(occurs_at(s, q, j));
    }
    if j < s.len() {
        lemma_glob_star_literal_star(p, s, j + 1);
        if exists|k: int| j <= k && #[trigger] occurs_at(s, q, k) {
            let k = choose|k: int| j <= k && #[trigger] occurs_at(s, q, k);
            if k == j {
                assert(glob_from(p, s, 1, j));
            } else {
                assert(j + 1 <= k && occurs_at(s, q, k));
            }
        }
    } else {
        if exists|k: int| j <= k && #[trigger] occurs_at(s, q, k) {
            let k = choose|k: int| j <= k && #[trigger] occurs_at(s, q, k);
            assert(k + q.len() <= s.len());
            assert(k == j);
            assert(glob_from(p, s, 1, j));
        }
    }
}

/// `*` finds every name.
pub proof fn law_star_matches_all(name: Seq<char>)
    ensures
        glob_match(seq!['*'], name),
{
    lemma_glob_final_star(seq!['*'], name, 0);
}

/// A pattern without wildcards finds exactly the name that it spells.
pub proof fn law_plain_pattern_matches_itself_only(pattern: Seq<char>, name: Seq<char>)
    requires
        !has_wildcard(pattern),
    ensures
        glob_match(pattern, name) <==> pattern == name,
{
    assert forall|k: int| 0 <= k < pattern.len() implies literal_char(#[trigger] pattern[k]) by {
        if !literal_char(pattern[k]) {
            assert(has_wildcard(pattern));
        }
    }
    lemma_glob_literal(pattern, name, 0, 0);
    assert(pattern.subrange(0, pattern.len() as int) =~= pattern);
    assert(name.subrange(0, name.len() as int) =~= name);
}

/// `q*`, with no wildcard in `q`, finds the names that start with `q` (`cargo-*` finds the
/// cargo subcommands).
pub proof fn law_prefix_pattern(q: Seq<char>, name: Seq<char>)
    requires
        !has_wildcard(q),
    ensures
        glob_match(q + seq!['*'], name) <==> has_prefix(name, q),
{
    let p = q + seq!['*'];
    assert forall|k: int| 0 <= k < p.len() - 1 implies literal_char(#[trigger] p[k]) by {
        assert(p[k] == q[k]);
        if !literal_char(q[k]) {
            assert(has_wildcard(q));
        }
    }
    lemma_glob_literal_star(p, name, 0, 0);
    assert(p.subrange(0, p.len() - 1) =~= q);
}

/// `*q*`, with no wildcard in `q`, finds the names that contain `q` (`*cli*` finds every
/// name with `cli` in it).
pub proof fn law_infix_pattern(q: Seq<char>, name: Seq<char>)
    requires
        !has_wildcard(q),
    ensures
        glob_match(seq!['*'] + q + seq!['*'], name) <==> has_infix(name, q),
{
    let p = seq!['*'] + q + seq!['*'];
    assert forall|k: int| 1 <= k < p.len() - 1 implies literal_char(#[trigger] p[k]) by {
        assert(p[k] == q[k - 1]);
        if !literal_char(q[k - 1]) {
            assert(has_wildcard(q));
        }
    }
    lemma_glob_star_literal_star(p, name, 0);
    assert(p.subrange(1, p.len() - 1) =~= q);
    if has_infix(name, q) {
        let k = choose|k: int| occurs_at(name, q, k);
        assert(0 <= k && occurs_at(name, p.subrange(1, p.len() - 1), k));
    }
}

/// `?` finds exactly the names of one character.
pub proof fn law_question_mark_is_one_char(name: Seq<char>)
    ensures
        glob_match(seq!['?'], name) <==> name.len() == 1,
{
    if name.len() >= 1 {
        assert(glob_from(seq!['?'], name, 1, 1) <==> name.len() == 1);
    }
}

// ── paths ───────────────────────────────────────────────────────────
proof fn lemma_rfind_skip(s: Seq<char>, c: char, start: int, end: int)
    requires
        0 <= start <= end <= s.len(),
        forall|k: int| start <= k < end ==> s[k] != c,
    ensures
        rfind_before(s, c, end) == rfind_before(s, c, start),
    decreases end - start,
{
    if end > start {
        lemma_rfind_skip(s, c, start, end - 1);
    }
}

/// The path of a name joined to a directory ends in that name: the final component of
/// `dir` joined with a plain name (no `/`, not `.` or `..`, not empty) is the name. This is
/// what ties each tool's name to the last part of its path.
#[verifier::rlimit(40)]
pub proof fn law_file_name_of_joined(dir: Seq<char>, name: Seq<char>)
    requires
        name.len() > 0,
        forall|k: int| 0 <= k < name.len() ==> name[k] != '/',
        name != seq!['.'],
        name != seq!['.', '.'],
    ensures
        file_name_of(joined(dir, name)) == Some(name),
{
    let s = joined(dir, name);
    let l = s.len() as int;
    let n = name.len() as int;
    assert(s.subrange(l - n, l) =~= name);
    assert forall|k: int| l - n <= k < l implies s[k] != '/' by {
        assert(s[k] == name[k - (l - n)]);
    }
    assert(s[l - 1] != '/');
    assert(strip_end_index(s, '/', l) == l);
    lemma_rfind_skip(s, '/', l - n, l);
    if l - n > 0 {
        assert(s[l - n - 1] == '/');
        assert(rfind_before(s, '/', l - n) == l - n - 1);
    } else {
        assert(rfind_before(s, '/', 0) == -1);
    }
    assert(file_name_upto(s, l) == Some(s.subrange(l - n, l)));
}

// ── sources ─────────────────────────────────────────────────────────
/// The binary's own path decides whenever it is recognised; the resolved path is asked only
/// when it is not.
pub proof fn law_recognised_path_decides(bin_path: Seq<char>, final_path: Seq<char>)
    ensures
        source_for_path(bin_path) != "unknown"@ ==> source_of(bin_path, final_path)
            == source_for_path(bin_path),
        source_for_path(bin_path) == "unknown"@ ==> source_of(bin_path, final_path)
            == source_for_path(final_path),
{
}

/// Anything under a rustup directory is reported as rustup's, before every other rule.
pub proof fn law_rustup_first(path: Seq<char>)
    requires
        has_infix(path, "/rustup"@),
    ensures
        source_for_path(path) == "rustup (cargo)"@,
{
}

// ── aliases ─────────────────────────────────────────────────────────
/// After an alias is set, any spelling of its friendly name that is the same in lower case
/// stands for the binary, and every other alias is as it was.
pub proof fn law_alias_set_then_resolve(
    aliases: Map<Seq<char>, Seq<char>>,
    binary: Seq<char>,
    friendly_name: Seq<char>,
    name: Seq<char>,
)
    requires
        alias_key(name) == alias_key(friendly_name),
    ensures
        lookup_target_of(aliases.insert(alias_key(friendly_name), binary), name) == binary,
        forall|k: Seq<char>| k != alias_key(friendly_name) ==> (aliases.insert(alias_key(friendly_name), binary).contains_key(k) == aliases.contains_key(k)
            && aliases.insert(alias_key(friendly_name), binary)[k] == aliases[k]),
{
}

/// After an alias is removed, its friendly name (in any spelling with the same lower case)
/// stands for itself again.
pub proof fn law_alias_remove_then_resolve(aliases: Map<Seq<char>, Seq<char>>, friendly_name: Seq<char>, name: Seq<char>)
    requires
        alias_key(name) == alias_key(friendly_name),
    ensures
        lookup_target_of(aliases.remove(alias_key(friendly_name)), name) == name,
{
}

/// Setting the same alias twice leaves the table as setting it once.
pub proof fn law_alias_set_idempotent(aliases: Map<Seq<char>, Seq<char>>, binary: Seq<char>, friendly_name: Seq<char>)
    ensures
        aliases.insert(alias_key(friendly_name), binary).insert(alias_key(friendly_name), binary)
            == aliases.insert(alias_key(friendly_name), binary),
{
    assert(aliases.insert(alias_key(friendly_name), binary).insert(alias_key(friendly_name), binary)
        =~= aliases.insert(alias_key(friendly_name), binary));
}

/// The listing of aliases depends on the aliases alone: two tables with the same aliases
/// list them in the same order (sorted by friendly name).
pub proof fn law_alias_listing_determined(a: AliasTable, b: AliasTable)
    requires
        a.wf(),
        b.wf(),
        a@ == b@,
    ensures
        a.pairs() == b.pairs(),
{
    lemma_sorted_pairs_determined(a.pairs(), b.pairs());
}

// ── unmanaged binaries ──────────────────────────────────────────────
/// The unclaimed binaries are exactly the binaries on `PATH` that no tool of the scan names:
/// each one listed is such a binary, and each such binary is listed.
pub proof fn law_unclaimed_are_unnamed(binaries: Seq<Seq<char>>, tools: Seq<Fields>, b: Seq<char>)
    ensures
        unclaimed_of(binaries, tools).contains(b) <==> (binaries.contains(b) && !tool_names(
            tools,
        ).contains(b)),
{
    broadcast use vstd::seq_lib::group_filter_ensures;

    let keep = |x: Seq<char>| !tool_names(tools).contains(x);
    if unclaimed_of(binaries, tools).contains(b) {
        binaries.lemma_filter_contains_rev(keep, b);
        let k = choose|k: int| 0 <= k < unclaimed_of(binaries, tools).len() && unclaimed_of(binaries, tools)[k] == b;
        assert(keep(unclaimed_of(binaries, tools)[k]));
    }
    if binaries.contains(b) && !tool_names(tools).contains(b) {
        let k = choose|k: int| 0 <= k < binaries.len() && binaries[k] == b;
        assert(keep(binaries[k]));
    }
}

/// Every binary reported as unmanaged has the source `unknown`.
pub proof fn law_unmanaged_are_unknown(results: Seq<Option<LookupResult>>, i: int)
    requires
        0 <= i < unmanaged_of(results).len(),
    ensures
        unmanaged_of(results)[i].3 == "unknown"@,
{
    broadcast use vstd::seq_lib::group_filter_ensures;
}


// ── listing every tool by source ────────────────────────────────────
/// How many tool lines the blocks of `sources` hold, together.
pub open spec fn listed_count(tools: Seq<Fields>, sources: Seq<Seq<char>>) -> int
    decreases sources.len(),
{
    if sources.len() == 0 {
        0
    } else {
        listed_count(tools, sources.drop_last()) + of_source(tools, sources.last()).len()
    }
}

/// No blocks list anything of no tools.
proof fn lemma_listed_count_empty(sources: Seq<Seq<char>>)
    ensures
        listed_count(Seq::<Fields>::empty(), sources) == 0,
    decreases sources.len(),
{
    if sources.len() > 0 {
        lemma_listed_count_empty(sources.drop_last());
        assert(of_source(Seq::<Fields>::empty(), sources.last()) =~= Seq::<Fields>::empty());
    }
}

/// One more tool adds one line to the blocks when its source is among `sources`, and none
/// otherwise (`sources` holds no source twice).
proof fn lemma_listed_count_push(tools: Seq<Fields>, t: Fields, sources: Seq<Seq<char>>)
    requires
        forall|i: int, j: int| 0 <= i < j < sources.len() ==> sources[i] != sources[j],
    ensures
        listed_count(tools.push(t), sources) == listed_count(tools, sources) + if sources.contains(t.2) {
            1int
        } else {
            0int
        },
    decreases sources.len(),
{
    if sources.len() > 0 {
        let rest = sources.drop_last();
        lemma_listed_count_push(tools, t, rest);
        let s = sources.last();
        let pred = from_source(s);
        tools.lemma_filter_push(t, pred);
        assert(of_source(tools.push(t), s).len() == of_source(tools, s).len() + if t.2 == s {
            1int
        } else {
            0int
        });
        if rest.contains(t.2) {
            let k = choose|k: int| 0 <= k < rest.len() && rest[k] == t.2;
            assert(sources[k] == t.2);
            assert(sources.contains(t.2));
        }
        if sources.contains(t.2) && t.2 != s {
            let k = choose|k: int| 0 <= k < sources.len() && sources[k] == t.2;
            assert(rest[k] == t.2);
        }
        if t.2 == s {
            assert(sources[sources.len() - 1] == t.2);
        }
    }
}

/// Blocks for sources without repeats that include the source of every tool list every
/// tool once.
proof fn lemma_listed_count_all(tools: Seq<Fields>, sources: Seq<Seq<char>>)
    requires
        forall|i: int, j: int| 0 <= i < j < sources.len() ==> sources[i] != sources[j],
        forall|i: int| 0 <= i < tools.len() ==> sources.contains(#[trigger] tools[i].2),
    ensures
        listed_count(tools, sources) == tools.len(),
    decreases tools.len(),
{
    if tools.len() == 0 {
        assert(tools =~= Seq::<Fields>::empty());
        lemma_listed_count_empty(sources);
    } else {
        let rest = tools.drop_last();
        assert forall|i: int| 0 <= i < rest.len() implies sources.contains(#[trigger] rest[i].2) by {
            assert(rest[i] == tools[i]);
        }
        lemma_listed_count_all(rest, sources);
        assert(sources.contains(tools[tools.len() - 1].2));
        lemma_listed_count_push(rest, tools.last(), sources);
        assert(rest.push(tools.last()) =~= tools);
    }
}

/// `--all` lists every tool exactly once: each tool stands in the block of its own source,
/// that block is printed, and the blocks hold as many lines as there are tools.
pub proof fn law_all_lists_every_tool_once(tools: Seq<Fields>, i: int)
    requires
        0 <= i < tools.len(),
    ensures
        sorted_elements(sources_of(tools)).contains(tools[i].2),
        of_source(tools, tools[i].2).contains(tools[i]),
        listed_count(tools, sorted_elements(sources_of(tools))) == tools.len(),
{
    let names = tools.map_values(|t: Fields| t.2);
    lemma_sorted_elements_exist(names);
    let ss = sorted_elements(sources_of(tools));
    assert(names[i] == tools[i].2);
    assert(names.to_set().contains(tools[i].2));
    assert forall|a: int, b: int| 0 <= a < b < ss.len() implies ss[a] != ss[b] by {
        crate::order::lemma_lex_irreflexive(ss[a]);
    }
    assert forall|k: int| 0 <= k < tools.len() implies ss.contains(#[trigger] tools[k].2) by {
        assert(names[k] == tools[k].2);
        assert(names.to_set().contains(tools[k].2));
    }
    lemma_listed_count_all(tools, ss);
    assert(of_source(tools, tools[i].2).contains(tools[i])) by {
        broadcast use vstd::seq_lib::group_filter_ensures;
    }
}


// ── scanning ────────────────────────────────────────────────────────
/// A scan reports only the managers' own sources: when the block of each manager holds
/// records of that manager (as each lister states of what it returns), every record of the
/// concatenated scan has the source of one of the managers.
pub proof fn law_scan_sources(blocks: Seq<Seq<Fields>>, i: int)
    requires
        blocks.len() <= manager_order().len(),
        forall|k: int| 0 <= k < blocks.len() ==> all_from(#[trigger] blocks[k], manager_order()[k]),
        0 <= i < concat_all(blocks).len(),
    ensures
        manager_order().contains(concat_all(blocks)[i].2),
    decreases blocks.len(),
{
    let rest = blocks.drop_last();
    let p = concat_all(rest);
    let n = blocks.len() - 1;
    if i < p.len() {
        assert forall|k: int| 0 <= k < rest.len() implies all_from(#[trigger] rest[k], manager_order()[k]) by {
            assert(rest[k] == blocks[k]);
        }
        law_scan_sources(rest, i);
        assert(concat_all(blocks)[i] == p[i]);
    } else {
        assert(all_from(blocks[n], manager_order()[n]));
        assert(concat_all(blocks)[i] == blocks[n][i - p.len()]);
        assert(manager_order()[n] == concat_all(blocks)[i].2);
    }
}

// ── a history of alias changes ──────────────────────────────────────
/// A change of the aliases: `SetAlias(binary, friendly_name)` or `RemoveAlias(friendly_name)`.
pub enum AliasOp {
    SetAlias(Seq<char>, Seq<char>),
    RemoveAlias(Seq<char>),
}

/// The aliases after the changes `ops`, made one after the other from no aliases at all,
/// each as `set_alias` and `remove_alias` state it.
pub open spec fn after_alias_ops(ops: Seq<AliasOp>) -> Map<Seq<char>, Seq<char>>
    decreases ops.len(),
{
    if ops.len() == 0 {
        Map::empty()
    } else {
        match ops.last() {
            AliasOp::SetAlias(b, f) => after_alias_ops(ops.drop_last()).insert(alias_key(f), b),
            AliasOp::RemoveAlias(f) => after_alias_ops(ops.drop_last()).remove(alias_key(f)),
        }
    }
}

/// The binary of the last change of `ops` whose friendly name has the key `k`, when that
/// change sets it; `None` when it removes it or when no change has that key.
pub open spec fn last_binding(ops: Seq<AliasOp>, k: Seq<char>) -> Option<Seq<char>>
    decreases ops.len(),
{
    if ops.len() == 0 {
        None
    } else {
        match ops.last() {
            AliasOp::SetAlias(b, f) => if alias_key(f) == k {
                Some(b)
            } else {
                last_binding(ops.drop_last(), k)
            },
            AliasOp::RemoveAlias(f) => if alias_key(f) == k {
                None
            } else {
                last_binding(ops.drop_last(), k)
            },
        }
    }
}

/// Starting from no aliases, after any changes a key stands for the binary of the last
/// `set_alias` of a friendly name with that key, unless a `remove_alias` of such a name came
/// after it; and every key is the key (the lower case) of some friendly name that was set.
pub proof fn law_alias_history(ops: Seq<AliasOp>, k: Seq<char>)
    ensures
        after_alias_ops(ops).contains_key(k) <==> last_binding(ops, k) is Some,
        after_alias_ops(ops).contains_key(k) ==> after_alias_ops(ops)[k] == last_binding(ops, k).unwrap(),
        after_alias_ops(ops).contains_key(k) ==> exists|j: int|
            0 <= j < ops.len() && (#[trigger] ops[j] matches AliasOp::SetAlias(b, f) && alias_key(f) == k),
    decreases ops.len(),
{
    if ops.len() > 0 {
        let rest = ops.drop_last();
        law_alias_history(rest, k);
        if after_alias_ops(rest).contains_key(k) {
            let j = choose|j: int|
                0 <= j < rest.len() && (#[trigger] rest[j] matches AliasOp::SetAlias(b, f) && alias_key(f) == k);
            assert(ops[j] == rest[j]);
        }
        let n = ops.len() - 1;
        assert(ops[n] == ops.last());
    }
}


// ── wildcard search ─────────────────────────────────────────────────
/// What a wildcard search finds: a name is found exactly when it is a binary on `PATH` that
/// the pattern matches, or the name of a tool of the scan that the pattern matches, or the
/// binary of an alias (any alias of the table) whose friendly name the pattern matches in
/// lower case.
pub proof fn law_wildcard_finds(
    pattern: Seq<char>,
    binaries: Seq<Seq<char>>,
    tools: Seq<Fields>,
    aliases: Seq<(Seq<char>, Seq<char>)>,
    x: Seq<char>,
)
    ensures
        wildcard_hits(pattern, binaries, tools, aliases).contains(x) <==> {
            ||| binaries.contains(x) && glob_match(pattern, x)
            ||| (exists|i: int| 0 <= i < tools.len() && #[trigger] tools[i].0 == x && glob_match(pattern, x))
            ||| (exists|i: int|
                0 <= i < aliases.len() && #[trigger] aliases[i].1 == x && glob_match(
                    lowercase(pattern),
                    aliases[i].0,
                ))
        },
{
    broadcast use vstd::seq_lib::group_filter_ensures;

    let m1 = |b: Seq<char>| glob_match(pattern, b);
    let m3 = |p: (Seq<char>, Seq<char>)| glob_match(lowercase(pattern), p.0);
    let snd = |p: (Seq<char>, Seq<char>)| p.1;
    let a = binaries.filter(m1);
    let tn = tool_names(tools);
    let b = tn.filter(m1);
    let c0 = aliases.filter(m3);
    let c = c0.map_values(snd);
    assert(wildcard_hits(pattern, binaries, tools, aliases) == a.to_set() + b.to_set() + c.to_set());
    // binaries
    if a.contains(x) {
        binaries.lemma_filter_contains_rev(m1, x);
        let k = choose|k: int| 0 <= k < a.len() && a[k] == x;
        assert(m1(a[k]));
    }
    if binaries.contains(x) && glob_match(pattern, x) {
        let k = choose|k: int| 0 <= k < binaries.len() && binaries[k] == x;
        assert(m1(binaries[k]));
        assert(a.contains(x));
    }
    // tools
    if b.contains(x) {
        tn.lemma_filter_contains_rev(m1, x);
        let k = choose|k: int| 0 <= k < b.len() && b[k] == x;
        assert(m1(b[k]));
        let j = choose|j: int| 0 <= j < tn.len() && tn[j] == x;
        assert(tools[j].0 == x);
    }
    if exists|i: int| 0 <= i < tools.len() && #[trigger] tools[i].0 == x && glob_match(pattern, x) {
        let i = choose|i: int| 0 <= i < tools.len() && #[trigger] tools[i].0 == x && glob_match(pattern, x);
        assert(tn[i] == x);
        assert(m1(tn[i]));
        assert(b.contains(x));
    }
    // aliases
    if c.contains(x) {
        let k = choose|k: int| 0 <= k < c.len() && c[k] == x;
        assert(c[k] == c0[k].1);
        assert(m3(c0[k]));
        assert(c0.contains(c0[k]));
        aliases.lemma_filter_contains_rev(m3, c0[k]);
        let j = choose|j: int| 0 <= j < aliases.len() && aliases[j] == c0[k];
        assert(aliases[j].1 == x);
    }
    if exists|i: int| 0 <= i < aliases.len() && #[trigger] aliases[i].1 == x && glob_match(lowercase(pattern), aliases[i].0) {
        let i = choose|i: int| 0 <= i < aliases.len() && #[trigger] aliases[i].1 == x && glob_match(lowercase(pattern), aliases[i].0);
        assert(m3(aliases[i]));
        assert(c0.contains(aliases[i]));
        let k = choose|k: int| 0 <= k < c0.len() && c0[k] == aliases[i];
        assert(c[k] == x);
        assert(c.contains(x));
    }
}

/// The search's result holds exactly what it finds: for a result `r` as `wildcard_search`
/// states it, `r` holds a name exactly when `law_wildcard_finds` says the search finds it.
pub proof fn law_wildcard_result(
    pattern: Seq<char>,
    binaries: Seq<Seq<char>>,
    tools: Seq<Fields>,
    aliases: Seq<(Seq<char>, Seq<char>)>,
    r: Seq<Seq<char>>,
    x: Seq<char>,
)
    requires
        r == sorted_elements(wildcard_hits(pattern, binaries, tools, aliases)),
    ensures
        r.contains(x) <==> wildcard_hits(pattern, binaries, tools, aliases).contains(x),
{
    let m1 = |b: Seq<char>| glob_match(pattern, b);
    let m3 = |p: (Seq<char>, Seq<char>)| glob_match(lowercase(pattern), p.0);
    let snd = |p: (Seq<char>, Seq<char>)| p.1;
    let a = binaries.filter(m1);
    let b = tool_names(tools).filter(m1);
    let c = aliases.filter(m3).map_values(snd);
    vstd::seq_lib::seq_to_set_distributes_over_add(a, b);
    vstd::seq_lib::seq_to_set_distributes_over_add(a + b, c);
    assert(wildcard_hits(pattern, binaries, tools, aliases) == (a + b + c).to_set());
    lemma_sorted_elements_exist(a + b + c);
    assert(r.to_set().contains(x) <==> r.contains(x));
}


// ── npm ─────────────────────────────────────────────────────────────
/// Every global npm package is listed, except npm and corepack themselves: a non-empty line
/// after the first of `npm list -g --parseable` whose last path component is any other name
/// gives a tool of that name in npm's bin directory (the trimmed output of `npm bin -g`),
/// with the source `npm` and no version.
pub proof fn law_npm_lists_every_package(list_output: Seq<char>, bin_output: Option<Seq<char>>, i: int, pkg: Seq<char>)
    requires
        1 <= i < lines_of(list_output).len(),
        lines_of(list_output)[i].len() > 0,
        file_name_of(trimmed(lines_of(list_output)[i])) == Some(pkg),
        pkg != "npm"@,
        pkg != "corepack"@,
    ensures
        npm_tools(list_output, bin_output).contains(
            (pkg, trimmed(or_empty(bin_output)) + "/"@ + pkg, "npm"@, None::<Seq<char>>),
        ),
{
    let ls = lines_of(list_output);
    let s = after_first(ls);
    let bin_dir = trimmed(or_empty(bin_output));
    let f = |l: Seq<char>| npm_entry(l, bin_dir);
    assert(s[i - 1] == ls[i]);
    assert(f(s[i - 1]) == Some((pkg, bin_dir + "/"@ + pkg, "npm"@, None::<Seq<char>>)));
    lemma_collect_some_contains(s, f, i - 1);
    assert(npm_tools(list_output, bin_output) == crate::managers::collect_some(s, f));
}


// ── unmanaged binaries ──────────────────────────────────────────────
/// A lookup that found its binary is among the found records.
proof fn lemma_found_contains(results: Seq<Option<LookupResult>>, i: int)
    requires
        0 <= i < results.len(),
        results[i] is Some,
    ensures
        found(results).contains(results[i].unwrap()),
    decreases results.len(),
{
    let rest = results.drop_last();
    if i == results.len() - 1 {
        assert(found(results) == found(rest).push(results[i].unwrap()));
        assert(found(results)[found(rest).len() as int] == results[i].unwrap());
    } else {
        assert(rest[i] == results[i]);
        lemma_found_contains(rest, i);
        let k = choose|k: int| 0 <= k < found(rest).len() && found(rest)[k] == results[i].unwrap();
        match results.last() {
            Some(y) => {
                assert(found(results)[k] == found(rest)[k]);
            },
            None => {},
        }
    }
}

/// Every lookup that found its binary and reports the source `unknown` is listed as
/// unmanaged, whatever else it reports (a symlink target, a version).
pub proof fn law_unknown_results_are_unmanaged(results: Seq<Option<LookupResult>>, i: int)
    requires
        0 <= i < results.len(),
        results[i] is Some,
        results[i].unwrap().source@ == "unknown"@,
    ensures
        unmanaged_of(results).contains(results[i].unwrap().fields()),
{
    broadcast use vstd::seq_lib::group_filter_ensures;

    let x = results[i].unwrap();
    lemma_found_contains(results, i);
    let fs = found(results);
    let k = choose|k: int| 0 <= k < fs.len() && fs[k] == x;
    let mapped = fs.map_values(|r: LookupResult| r.fields());
    assert(mapped[k] == x.fields());
    let keep = |f: (Seq<char>, Seq<char>, Option<Seq<char>>, Seq<char>, Option<Seq<char>>)| f.3 == "unknown"@;
    assert(keep(mapped[k]));
    mapped.lemma_filter_contains(keep, k);
    assert(unmanaged_of(results) == mapped.filter(keep));
}

// ── PATH directories ────────────────────────────────────────────────
/// The directories of `PATH` that are scanned are exactly its entries other than `/usr/bin`,
/// `/bin`, `/sbin` and `/usr/sbin` and other than those inside the Command Line Tools.
pub proof fn law_path_dirs_skip_only_system(path_var: Seq<char>, d: Seq<char>)
    ensures
        scanned_dirs(path_var).contains(d) <==> (pieces(path_var, ':').contains(d) && d != "/usr/bin"@
            && d != "/bin"@ && d != "/sbin"@ && d != "/usr/sbin"@ && !has_infix(
            d,
            "/Library/Developer/CommandLineTools"@,
        )),
{
    broadcast use vstd::seq_lib::group_filter_ensures;

    let ps = pieces(path_var, ':');
    let keep = |e: Seq<char>| crate::scan::scanned_dir(e);
    assert(scanned_dirs(path_var) == ps.filter(keep));
    if ps.filter(keep).contains(d) {
        ps.lemma_filter_contains_rev(keep, d);
        let k = choose|k: int| 0 <= k < ps.filter(keep).len() && ps.filter(keep)[k] == d;
        assert(keep(ps.filter(keep)[k]));
    }
    if ps.contains(d) && keep(d) {
        let k = choose|k: int| 0 <= k < ps.len() && ps[k] == d;
        ps.lemma_filter_contains(keep, k);
    }
}


/// The pieces of a text joined again, with `c` between each two.
pub open spec fn joined_pieces(ps: Seq<Seq<char>>, c: char) -> Seq<char>
    decreases ps.len(),
{
    if ps.len() == 0 {
        seq![]
    } else if ps.len() == 1 {
        ps[0]
    } else {
        ps[0] + seq![c] + joined_pieces(ps.drop_first(), c)
    }
}

/// Splitting at `c` loses nothing and cuts only at `c`: the pieces of `s[from..]` hold no
/// `c`, there is at least one, and joined with `c` they give back `s[from..]`.
proof fn lemma_pieces_from(s: Seq<char>, c: char, from: int)
    requires
        0 <= from <= s.len(),
    ensures
        pieces_from(s, c, from).len() >= 1,
        joined_pieces(pieces_from(s, c, from), c) == s.subrange(from, s.len() as int),
        forall|k: int, j: int|
            0 <= k < pieces_from(s, c, from).len() && 0 <= j < pieces_from(s, c, from)[k].len()
                ==> #[trigger] pieces_from(s, c, from)[k][j] != c,
    decreases s.len() - from,
{
    lemma_find_from(s, c, from);
    let e = find_from(s, c, from);
    let ps = pieces_from(s, c, from);
    if e >= s.len() {
        assert(ps == seq![s.subrange(from, s.len() as int)]);
    } else {
        lemma_pieces_from(s, c, e + 1);
        let rest = pieces_from(s, c, e + 1);
        assert(ps == seq![s.subrange(from, e)] + rest);
        assert(ps.drop_first() =~= rest);
        assert(ps[0] == s.subrange(from, e));
        assert(s.subrange(from, e) + seq![c] + s.subrange(e + 1, s.len() as int) =~= s.subrange(
            from,
            s.len() as int,
        ));
        assert forall|k: int, j: int| 0 <= k < ps.len() && 0 <= j < ps[k].len() implies #[trigger] ps[k][j]
            != c by {
            if k > 0 {
                assert(ps[k] == rest[k - 1]);
            }
        }
    }
}

/// `PATH` is split at every `':'` and nowhere else: its entries hold no `':'`, and joined
/// with `':'` between them they give back the whole `PATH` value.
pub proof fn law_path_entries_split_path(path_var: Seq<char>)
    ensures
        joined_pieces(pieces(path_var, ':'), ':') == path_var,
        forall|k: int, j: int|
            0 <= k < pieces(path_var, ':').len() && 0 <= j < pieces(path_var, ':')[k].len()
                ==> #[trigger] pieces(path_var, ':')[k][j] != ':',
{
    lemma_pieces_from(path_var, ':', 0);
    assert(path_var.subrange(0, path_var.len() as int) =~= path_var);
}


// ── the source of a path ────────────────────────────────────────────
/// Each path rule decides exactly when its markers occur in the path and no marker of an
/// earlier rule does (the rules are tried in order, the first that applies wins); with no
/// marker at all the source is `unknown`. So, for instance, a path under
/// `~/.local/share/mise/` is mise's even when a `/go/` directory follows, and `go` is
/// reported only for paths that hold `/go/bin`.
pub proof fn law_source_rules_in_order(p: Seq<char>)
    ensures
        (has_infix(p, "/rustup"@)) ==> source_for_path(p) == "rustup (cargo)"@,
        (has_infix(p, "/opt/homebrew/"@) || has_infix(p, "/usr/local/Cellar/"@) || has_infix(p, "/Homebrew/"@)) && !has_infix(p, "/rustup"@) ==> source_for_path(p) == "brew"@,
        (has_infix(p, "/.cargo/bin"@)) && !has_infix(p, "/rustup"@) && !has_infix(p, "/opt/homebrew/"@) && !has_infix(p, "/usr/local/Cellar/"@) && !has_infix(p, "/Homebrew/"@) ==> source_for_path(p) == "cargo"@,
        (has_infix(p, "/go/bin"@)) && !has_infix(p, "/rustup"@) && !has_infix(p, "/opt/homebrew/"@) && !has_infix(p, "/usr/local/Cellar/"@) && !has_infix(p, "/Homebrew/"@) && !has_infix(p, "/.cargo/bin"@) ==> source_for_path(p) == "go"@,
        (has_infix(p, "/.bun/bin"@) || has_infix(p, "/.bun/install"@)) && !has_infix(p, "/rustup"@) && !has_infix(p, "/opt/homebrew/"@) && !has_infix(p, "/usr/local/Cellar/"@) && !has_infix(p, "/Homebrew/"@) && !has_infix(p, "/.cargo/bin"@) && !has_infix(p, "/go/bin"@) ==> source_for_path(p) == "bun"@,
        (has_infix(p, "/.deno/bin"@)) && !has_infix(p, "/rustup"@) && !has_infix(p, "/opt/homebrew/"@) && !has_infix(p, "/usr/local/Cellar/"@) && !has_infix(p, "/Homebrew/"@) && !has_infix(p, "/.cargo/bin"@) && !has_infix(p, "/go/bin"@) && !has_infix(p, "/.bun/bin"@) && !has_infix(p, "/.bun/install"@) ==> source_for_path(p) == "deno"@,
        (has_infix(p, "/.nvm/"@) || has_infix(p, "/nodejs/"@)) && !has_infix(p, "/rustup"@) && !has_infix(p, "/opt/homebrew/"@) && !has_infix(p, "/usr/local/Cellar/"@) && !has_infix(p, "/Homebrew/"@) && !has_infix(p, "/.cargo/bin"@) && !has_infix(p, "/go/bin"@) && !has_infix(p, "/.bun/bin"@) && !has_infix(p, "/.bun/install"@) && !has_infix(p, "/.deno/bin"@) ==> source_for_path(p) == "npm (via nvm)"@,
        (has_infix(p, "/.local/share/mise/"@)) && !has_infix(p, "/rustup"@) && !has_infix(p, "/opt/homebrew/"@) && !has_infix(p, "/usr/local/Cellar/"@) && !has_infix(p, "/Homebrew/"@) && !has_infix(p, "/.cargo/bin"@) && !has_infix(p, "/go/bin"@) && !has_infix(p, "/.bun/bin"@) && !has_infix(p, "/.bun/install"@) && !has_infix(p, "/.deno/bin"@) && !has_infix(p, "/.nvm/"@) && !has_infix(p, "/nodejs/"@) ==> source_for_path(p) == "mise"@,
        (has_infix(p, "/.asdf/"@)) && !has_infix(p, "/rustup"@) && !has_infix(p, "/opt/homebrew/"@) && !has_infix(p, "/usr/local/Cellar/"@) && !has_infix(p, "/Homebrew/"@) && !has_infix(p, "/.cargo/bin"@) && !has_infix(p, "/go/bin"@) && !has_infix(p, "/.bun/bin"@) && !has_infix(p, "/.bun/install"@) && !has_infix(p, "/.deno/bin"@) && !has_infix(p, "/.nvm/"@) && !has_infix(p, "/nodejs/"@) && !has_infix(p, "/.local/share/mise/"@) ==> source_for_path(p) == "asdf"@,
        (has_infix(p, "/.nix-profile/"@) || has_infix(p, "/nix/store/"@)) && !has_infix(p, "/rustup"@) && !has_infix(p, "/opt/homebrew/"@) && !has_infix(p, "/usr/local/Cellar/"@) && !has_infix(p, "/Homebrew/"@) && !has_infix(p, "/.cargo/bin"@) && !has_infix(p, "/go/bin"@) && !has_infix(p, "/.bun/bin"@) && !has_infix(p, "/.bun/install"@) && !has_infix(p, "/.deno/bin"@) && !has_infix(p, "/.nvm/"@) && !has_infix(p, "/nodejs/"@) && !has_infix(p, "/.local/share/mise/"@) && !has_infix(p, "/.asdf/"@) ==> source_for_path(p) == "nix"@,
        (has_infix(p, "/opt/local/"@)) && !has_infix(p, "/rustup"@) && !has_infix(p, "/opt/homebrew/"@) && !has_infix(p, "/usr/local/Cellar/"@) && !has_infix(p, "/Homebrew/"@) && !has_infix(p, "/.cargo/bin"@) && !has_infix(p, "/go/bin"@) && !has_infix(p, "/.bun/bin"@) && !has_infix(p, "/.bun/install"@) && !has_infix(p, "/.deno/bin"@) && !has_infix(p, "/.nvm/"@) && !has_infix(p, "/nodejs/"@) && !has_infix(p, "/.local/share/mise/"@) && !has_infix(p, "/.asdf/"@) && !has_infix(p, "/.nix-profile/"@) && !has_infix(p, "/nix/store/"@) ==> source_for_path(p) == "macports"@,
        (has_infix(p, "/.pipx/"@) || has_infix(p, "/pipx/venvs/"@)) && !has_infix(p, "/rustup"@) && !has_infix(p, "/opt/homebrew/"@) && !has_infix(p, "/usr/local/Cellar/"@) && !has_infix(p, "/Homebrew/"@) && !has_infix(p, "/.cargo/bin"@) && !has_infix(p, "/go/bin"@) && !has_infix(p, "/.bun/bin"@) && !has_infix(p, "/.bun/install"@) && !has_infix(p, "/.deno/bin"@) && !has_infix(p, "/.nvm/"@) && !has_infix(p, "/nodejs/"@) && !has_infix(p, "/.local/share/mise/"@) && !has_infix(p, "/.asdf/"@) && !has_infix(p, "/.nix-profile/"@) && !has_infix(p, "/nix/store/"@) && !has_infix(p, "/opt/local/"@) ==> source_for_path(p) == "pipx"@,
        (has_infix(p, "/.local/bin"@)) && !has_infix(p, "/rustup"@) && !has_infix(p, "/opt/homebrew/"@) && !has_infix(p, "/usr/local/Cellar/"@) && !has_infix(p, "/Homebrew/"@) && !has_infix(p, "/.cargo/bin"@) && !has_infix(p, "/go/bin"@) && !has_infix(p, "/.bun/bin"@) && !has_infix(p, "/.bun/install"@) && !has_infix(p, "/.deno/bin"@) && !has_infix(p, "/.nvm/"@) && !has_infix(p, "/nodejs/"@) && !has_infix(p, "/.local/share/mise/"@) && !has_infix(p, "/.asdf/"@) && !has_infix(p, "/.nix-profile/"@) && !has_infix(p, "/nix/store/"@) && !has_infix(p, "/opt/local/"@) && !has_infix(p, "/.pipx/"@) && !has_infix(p, "/pipx/venvs/"@) ==> source_for_path(p) == "pipx/uv/manual (~/.local/bin)"@,
        (has_infix(p, "/Library/Python/"@)) && !has_infix(p, "/rustup"@) && !has_infix(p, "/opt/homebrew/"@) && !has_infix(p, "/usr/local/Cellar/"@) && !has_infix(p, "/Homebrew/"@) && !has_infix(p, "/.cargo/bin"@) && !has_infix(p, "/go/bin"@) && !has_infix(p, "/.bun/bin"@) && !has_infix(p, "/.bun/install"@) && !has_infix(p, "/.deno/bin"@) && !has_infix(p, "/.nvm/"@) && !has_infix(p, "/nodejs/"@) && !has_infix(p, "/.local/share/mise/"@) && !has_infix(p, "/.asdf/"@) && !has_infix(p, "/.nix-profile/"@) && !has_infix(p, "/nix/store/"@) && !has_infix(p, "/opt/local/"@) && !has_infix(p, "/.pipx/"@) && !has_infix(p, "/pipx/venvs/"@) && !has_infix(p, "/.local/bin"@) ==> source_for_path(p) == "pip"@,
        (has_infix(p, "/.gem/"@) || has_infix(p, "/ruby/gems/"@)) && !has_infix(p, "/rustup"@) && !has_infix(p, "/opt/homebrew/"@) && !has_infix(p, "/usr/local/Cellar/"@) && !has_infix(p, "/Homebrew/"@) && !has_infix(p, "/.cargo/bin"@) && !has_infix(p, "/go/bin"@) && !has_infix(p, "/.bun/bin"@) && !has_infix(p, "/.bun/install"@) && !has_infix(p, "/.deno/bin"@) && !has_infix(p, "/.nvm/"@) && !has_infix(p, "/nodejs/"@) && !has_infix(p, "/.local/share/mise/"@) && !has_infix(p, "/.asdf/"@) && !has_infix(p, "/.nix-profile/"@) && !has_infix(p, "/nix/store/"@) && !has_infix(p, "/opt/local/"@) && !has_infix(p, "/.pipx/"@) && !has_infix(p, "/pipx/venvs/"@) && !has_infix(p, "/.local/bin"@) && !has_infix(p, "/Library/Python/"@) ==> source_for_path(p) == "gem"@,
        (has_infix(p, "/.composer/"@)) && !has_infix(p, "/rustup"@) && !has_infix(p, "/opt/homebrew/"@) && !has_infix(p, "/usr/local/Cellar/"@) && !has_infix(p, "/Homebrew/"@) && !has_infix(p, "/.cargo/bin"@) && !has_infix(p, "/go/bin"@) && !has_infix(p, "/.bun/bin"@) && !has_infix(p, "/.bun/install"@) && !has_infix(p, "/.deno/bin"@) && !has_infix(p, "/.nvm/"@) && !has_infix(p, "/nodejs/"@) && !has_infix(p, "/.local/share/mise/"@) && !has_infix(p, "/.asdf/"@) && !has_infix(p, "/.nix-profile/"@) && !has_infix(p, "/nix/store/"@) && !has_infix(p, "/opt/local/"@) && !has_infix(p, "/.pipx/"@) && !has_infix(p, "/pipx/venvs/"@) && !has_infix(p, "/.local/bin"@) && !has_infix(p, "/Library/Python/"@) && !has_infix(p, "/.gem/"@) && !has_infix(p, "/ruby/gems/"@) ==> source_for_path(p) == "composer"@,
        (has_infix(p, "/.dotnet/tools"@)) && !has_infix(p, "/rustup"@) && !has_infix(p, "/opt/homebrew/"@) && !has_infix(p, "/usr/local/Cellar/"@) && !has_infix(p, "/Homebrew/"@) && !has_infix(p, "/.cargo/bin"@) && !has_infix(p, "/go/bin"@) && !has_infix(p, "/.bun/bin"@) && !has_infix(p, "/.bun/install"@) && !has_infix(p, "/.deno/bin"@) && !has_infix(p, "/.nvm/"@) && !has_infix(p, "/nodejs/"@) && !has_infix(p, "/.local/share/mise/"@) && !has_infix(p, "/.asdf/"@) && !has_infix(p, "/.nix-profile/"@) && !has_infix(p, "/nix/store/"@) && !has_infix(p, "/opt/local/"@) && !has_infix(p, "/.pipx/"@) && !has_infix(p, "/pipx/venvs/"@) && !has_infix(p, "/.local/bin"@) && !has_infix(p, "/Library/Python/"@) && !has_infix(p, "/.gem/"@) && !has_infix(p, "/ruby/gems/"@) && !has_infix(p, "/.composer/"@) ==> source_for_path(p) == "dotnet"@,
        (has_infix(p, "/.mint/bin"@)) && !has_infix(p, "/rustup"@) && !has_infix(p, "/opt/homebrew/"@) && !has_infix(p, "/usr/local/Cellar/"@) && !has_infix(p, "/Homebrew/"@) && !has_infix(p, "/.cargo/bin"@) && !has_infix(p, "/go/bin"@) && !has_infix(p, "/.bun/bin"@) && !has_infix(p, "/.bun/install"@) && !has_infix(p, "/.deno/bin"@) && !has_infix(p, "/.nvm/"@) && !has_infix(p, "/nodejs/"@) && !has_infix(p, "/.local/share/mise/"@) && !has_infix(p, "/.asdf/"@) && !has_infix(p, "/.nix-profile/"@) && !has_infix(p, "/nix/store/"@) && !has_infix(p, "/opt/local/"@) && !has_infix(p, "/.pipx/"@) && !has_infix(p, "/pipx/venvs/"@) && !has_infix(p, "/.local/bin"@) && !has_infix(p, "/Library/Python/"@) && !has_infix(p, "/.gem/"@) && !has_infix(p, "/ruby/gems/"@) && !has_infix(p, "/.composer/"@) && !has_infix(p, "/.dotnet/tools"@) ==> source_for_path(p) == "mint"@,
        (has_infix(p, "/.proto/"@)) && !has_infix(p, "/rustup"@) && !has_infix(p, "/opt/homebrew/"@) && !has_infix(p, "/usr/local/Cellar/"@) && !has_infix(p, "/Homebrew/"@) && !has_infix(p, "/.cargo/bin"@) && !has_infix(p, "/go/bin"@) && !has_infix(p, "/.bun/bin"@) && !has_infix(p, "/.bun/install"@) && !has_infix(p, "/.deno/bin"@) && !has_infix(p, "/.nvm/"@) && !has_infix(p, "/nodejs/"@) && !has_infix(p, "/.local/share/mise/"@) && !has_infix(p, "/.asdf/"@) && !has_infix(p, "/.nix-profile/"@) && !has_infix(p, "/nix/store/"@) && !has_infix(p, "/opt/local/"@) && !has_infix(p, "/.pipx/"@) && !has_infix(p, "/pipx/venvs/"@) && !has_infix(p, "/.local/bin"@) && !has_infix(p, "/Library/Python/"@) && !has_infix(p, "/.gem/"@) && !has_infix(p, "/ruby/gems/"@) && !has_infix(p, "/.composer/"@) && !has_infix(p, "/.dotnet/tools"@) && !has_infix(p, "/.mint/bin"@) ==> source_for_path(p) == "proto"@,
        (has_infix(p, "/.sdkman/"@)) && !has_infix(p, "/rustup"@) && !has_infix(p, "/opt/homebrew/"@) && !has_infix(p, "/usr/local/Cellar/"@) && !has_infix(p, "/Homebrew/"@) && !has_infix(p, "/.cargo/bin"@) && !has_infix(p, "/go/bin"@) && !has_infix(p, "/.bun/bin"@) && !has_infix(p, "/.bun/install"@) && !has_infix(p, "/.deno/bin"@) && !has_infix(p, "/.nvm/"@) && !has_infix(p, "/nodejs/"@) && !has_infix(p, "/.local/share/mise/"@) && !has_infix(p, "/.asdf/"@) && !has_infix(p, "/.nix-profile/"@) && !has_infix(p, "/nix/store/"@) && !has_infix(p, "/opt/local/"@) && !has_infix(p, "/.pipx/"@) && !has_infix(p, "/pipx/venvs/"@) && !has_infix(p, "/.local/bin"@) && !has_infix(p, "/Library/Python/"@) && !has_infix(p, "/.gem/"@) && !has_infix(p, "/ruby/gems/"@) && !has_infix(p, "/.composer/"@) && !has_infix(p, "/.dotnet/tools"@) && !has_infix(p, "/.mint/bin"@) && !has_infix(p, "/.proto/"@) ==> source_for_path(p) == "sdkman"@,
        (has_infix(p, "/.ghcup/"@)) && !has_infix(p, "/rustup"@) && !has_infix(p, "/opt/homebrew/"@) && !has_infix(p, "/usr/local/Cellar/"@) && !has_infix(p, "/Homebrew/"@) && !has_infix(p, "/.cargo/bin"@) && !has_infix(p, "/go/bin"@) && !has_infix(p, "/.bun/bin"@) && !has_infix(p, "/.bun/install"@) && !has_infix(p, "/.deno/bin"@) && !has_infix(p, "/.nvm/"@) && !has_infix(p, "/nodejs/"@) && !has_infix(p, "/.local/share/mise/"@) && !has_infix(p, "/.asdf/"@) && !has_infix(p, "/.nix-profile/"@) && !has_infix(p, "/nix/store/"@) && !has_infix(p, "/opt/local/"@) && !has_infix(p, "/.pipx/"@) && !has_infix(p, "/pipx/venvs/"@) && !has_infix(p, "/.local/bin"@) && !has_infix(p, "/Library/Python/"@) && !has_infix(p, "/.gem/"@) && !has_infix(p, "/ruby/gems/"@) && !has_infix(p, "/.composer/"@) && !has_infix(p, "/.dotnet/tools"@) && !has_infix(p, "/.mint/bin"@) && !has_infix(p, "/.proto/"@) && !has_infix(p, "/.sdkman/"@) ==> source_for_path(p) == "ghcup"@,
        (has_infix(p, "/.pkgx/"@)) && !has_infix(p, "/rustup"@) && !has_infix(p, "/opt/homebrew/"@) && !has_infix(p, "/usr/local/Cellar/"@) && !has_infix(p, "/Homebrew/"@) && !has_infix(p, "/.cargo/bin"@) && !has_infix(p, "/go/bin"@) && !has_infix(p, "/.bun/bin"@) && !has_infix(p, "/.bun/install"@) && !has_infix(p, "/.deno/bin"@) && !has_infix(p, "/.nvm/"@) && !has_infix(p, "/nodejs/"@) && !has_infix(p, "/.local/share/mise/"@) && !has_infix(p, "/.asdf/"@) && !has_infix(p, "/.nix-profile/"@) && !has_infix(p, "/nix/store/"@) && !has_infix(p, "/opt/local/"@) && !has_infix(p, "/.pipx/"@) && !has_infix(p, "/pipx/venvs/"@) && !has_infix(p, "/.local/bin"@) && !has_infix(p, "/Library/Python/"@) && !has_infix(p, "/.gem/"@) && !has_infix(p, "/ruby/gems/"@) && !has_infix(p, "/.composer/"@) && !has_infix(p, "/.dotnet/tools"@) && !has_infix(p, "/.mint/bin"@) && !has_infix(p, "/.proto/"@) && !has_infix(p, "/.sdkman/"@) && !has_infix(p, "/.ghcup/"@) ==> source_for_path(p) == "pkgx"@,
        (has_infix(p, "/miniforge"@) || has_infix(p, "/miniconda"@) || has_infix(p, "/anaconda"@)) && !has_infix(p, "/rustup"@) && !has_infix(p, "/opt/homebrew/"@) && !has_infix(p, "/usr/local/Cellar/"@) && !has_infix(p, "/Homebrew/"@) && !has_infix(p, "/.cargo/bin"@) && !has_infix(p, "/go/bin"@) && !has_infix(p, "/.bun/bin"@) && !has_infix(p, "/.bun/install"@) && !has_infix(p, "/.deno/bin"@) && !has_infix(p, "/.nvm/"@) && !has_infix(p, "/nodejs/"@) && !has_infix(p, "/.local/share/mise/"@) && !has_infix(p, "/.asdf/"@) && !has_infix(p, "/.nix-profile/"@) && !has_infix(p, "/nix/store/"@) && !has_infix(p, "/opt/local/"@) && !has_infix(p, "/.pipx/"@) && !has_infix(p, "/pipx/venvs/"@) && !has_infix(p, "/.local/bin"@) && !has_infix(p, "/Library/Python/"@) && !has_infix(p, "/.gem/"@) && !has_infix(p, "/ruby/gems/"@) && !has_infix(p, "/.composer/"@) && !has_infix(p, "/.dotnet/tools"@) && !has_infix(p, "/.mint/bin"@) && !has_infix(p, "/.proto/"@) && !has_infix(p, "/.sdkman/"@) && !has_infix(p, "/.ghcup/"@) && !has_infix(p, "/.pkgx/"@) ==> source_for_path(p) == "conda"@,
        (has_infix(p, "/Library/Developer/CommandLineTools/"@)) && !has_infix(p, "/rustup"@) && !has_infix(p, "/opt/homebrew/"@) && !has_infix(p, "/usr/local/Cellar/"@) && !has_infix(p, "/Homebrew/"@) && !has_infix(p, "/.cargo/bin"@) && !has_infix(p, "/go/bin"@) && !has_infix(p, "/.bun/bin"@) && !has_infix(p, "/.bun/install"@) && !has_infix(p, "/.deno/bin"@) && !has_infix(p, "/.nvm/"@) && !has_infix(p, "/nodejs/"@) && !has_infix(p, "/.local/share/mise/"@) && !has_infix(p, "/.asdf/"@) && !has_infix(p, "/.nix-profile/"@) && !has_infix(p, "/nix/store/"@) && !has_infix(p, "/opt/local/"@) && !has_infix(p, "/.pipx/"@) && !has_infix(p, "/pipx/venvs/"@) && !has_infix(p, "/.local/bin"@) && !has_infix(p, "/Library/Python/"@) && !has_infix(p, "/.gem/"@) && !has_infix(p, "/ruby/gems/"@) && !has_infix(p, "/.composer/"@) && !has_infix(p, "/.dotnet/tools"@) && !has_infix(p, "/.mint/bin"@) && !has_infix(p, "/.proto/"@) && !has_infix(p, "/.sdkman/"@) && !has_infix(p, "/.ghcup/"@) && !has_infix(p, "/.pkgx/"@) && !has_infix(p, "/miniforge"@) && !has_infix(p, "/miniconda"@) && !has_infix(p, "/anaconda"@) ==> source_for_path(p) == "xcode-clt"@,
        (has_prefix(p, "/usr/bin"@)) && !has_infix(p, "/rustup"@) && !has_infix(p, "/opt/homebrew/"@) && !has_infix(p, "/usr/local/Cellar/"@) && !has_infix(p, "/Homebrew/"@) && !has_infix(p, "/.cargo/bin"@) && !has_infix(p, "/go/bin"@) && !has_infix(p, "/.bun/bin"@) && !has_infix(p, "/.bun/install"@) && !has_infix(p, "/.deno/bin"@) && !has_infix(p, "/.nvm/"@) && !has_infix(p, "/nodejs/"@) && !has_infix(p, "/.local/share/mise/"@) && !has_infix(p, "/.asdf/"@) && !has_infix(p, "/.nix-profile/"@) && !has_infix(p, "/nix/store/"@) && !has_infix(p, "/opt/local/"@) && !has_infix(p, "/.pipx/"@) && !has_infix(p, "/pipx/venvs/"@) && !has_infix(p, "/.local/bin"@) && !has_infix(p, "/Library/Python/"@) && !has_infix(p, "/.gem/"@) && !has_infix(p, "/ruby/gems/"@) && !has_infix(p, "/.composer/"@) && !has_infix(p, "/.dotnet/tools"@) && !has_infix(p, "/.mint/bin"@) && !has_infix(p, "/.proto/"@) && !has_infix(p, "/.sdkman/"@) && !has_infix(p, "/.ghcup/"@) && !has_infix(p, "/.pkgx/"@) && !has_infix(p, "/miniforge"@) && !has_infix(p, "/miniconda"@) && !has_infix(p, "/anaconda"@) && !has_infix(p, "/Library/Developer/CommandLineTools/"@) ==> source_for_path(p) == "macos-system"@,
        !has_infix(p, "/rustup"@) && !has_infix(p, "/opt/homebrew/"@) && !has_infix(p, "/usr/local/Cellar/"@) && !has_infix(p, "/Homebrew/"@) && !has_infix(p, "/.cargo/bin"@) && !has_infix(p, "/go/bin"@) && !has_infix(p, "/.bun/bin"@) && !has_infix(p, "/.bun/install"@) && !has_infix(p, "/.deno/bin"@) && !has_infix(p, "/.nvm/"@) && !has_infix(p, "/nodejs/"@) && !has_infix(p, "/.local/share/mise/"@) && !has_infix(p, "/.asdf/"@) && !has_infix(p, "/.nix-profile/"@) && !has_infix(p, "/nix/store/"@) && !has_infix(p, "/opt/local/"@) && !has_infix(p, "/.pipx/"@) && !has_infix(p, "/pipx/venvs/"@) && !has_infix(p, "/.local/bin"@) && !has_infix(p, "/Library/Python/"@) && !has_infix(p, "/.gem/"@) && !has_infix(p, "/ruby/gems/"@) && !has_infix(p, "/.composer/"@) && !has_infix(p, "/.dotnet/tools"@) && !has_infix(p, "/.mint/bin"@) && !has_infix(p, "/.proto/"@) && !has_infix(p, "/.sdkman/"@) && !has_infix(p, "/.ghcup/"@) && !has_infix(p, "/.pkgx/"@) && !has_infix(p, "/miniforge"@) && !has_infix(p, "/miniconda"@) && !has_infix(p, "/anaconda"@) && !has_infix(p, "/Library/Developer/CommandLineTools/"@) && !has_prefix(p, "/usr/bin"@) ==> source_for_path(p) == "unknown"@,
{
}


/// A path is reported as coming from a source only when one of that source's markers occurs
/// in it (`go` only for paths that hold `/go/bin`, `mise` only for paths under
/// `/.local/share/mise/`, and so on).
#[verifier::rlimit(80)]
pub proof fn law_source_needs_its_marker(p: Seq<char>)
    ensures
        source_for_path(p) == "rustup (cargo)"@ ==> has_infix(p, "/rustup"@),
        source_for_path(p) == "brew"@ ==> has_infix(p, "/opt/homebrew/"@) || has_infix(p, "/usr/local/Cellar/"@) || has_infix(p, "/Homebrew/"@),
        source_for_path(p) == "cargo"@ ==> has_infix(p, "/.cargo/bin"@),
        source_for_path(p) == "go"@ ==> has_infix(p, "/go/bin"@),
        source_for_path(p) == "bun"@ ==> has_infix(p, "/.bun/bin"@) || has_infix(p, "/.bun/install"@),
        source_for_path(p) == "deno"@ ==> has_infix(p, "/.deno/bin"@),
        source_for_path(p) == "npm (via nvm)"@ ==> has_infix(p, "/.nvm/"@) || has_infix(p, "/nodejs/"@),
        source_for_path(p) == "mise"@ ==> has_infix(p, "/.local/share/mise/"@),
        source_for_path(p) == "asdf"@ ==> has_infix(p, "/.asdf/"@),
        source_for_path(p) == "nix"@ ==> has_infix(p, "/.nix-profile/"@) || has_infix(p, "/nix/store/"@),
        source_for_path(p) == "macports"@ ==> has_infix(p, "/opt/local/"@),
        source_for_path(p) == "pipx"@ ==> has_infix(p, "/.pipx/"@) || has_infix(p, "/pipx/venvs/"@),
        source_for_path(p) == "pipx/uv/manual (~/.local/bin)"@ ==> has_infix(p, "/.local/bin"@),
        source_for_path(p) == "pip"@ ==> has_infix(p, "/Library/Python/"@),
        source_for_path(p) == "gem"@ ==> has_infix(p, "/.gem/"@) || has_infix(p, "/ruby/gems/"@),
        source_for_path(p) == "composer"@ ==> has_infix(p, "/.composer/"@),
        source_for_path(p) == "dotnet"@ ==> has_infix(p, "/.dotnet/tools"@),
        source_for_path(p) == "mint"@ ==> has_infix(p, "/.mint/bin"@),
        source_for_path(p) == "proto"@ ==> has_infix(p, "/.proto/"@),
        source_for_path(p) == "sdkman"@ ==> has_infix(p, "/.sdkman/"@),
        source_for_path(p) == "ghcup"@ ==> has_infix(p, "/.ghcup/"@),
        source_for_path(p) == "pkgx"@ ==> has_infix(p, "/.pkgx/"@),
        source_for_path(p) == "conda"@ ==> has_infix(p, "/miniforge"@) || has_infix(p, "/miniconda"@) || has_infix(p, "/anaconda"@),
        source_for_path(p) == "xcode-clt"@ ==> has_infix(p, "/Library/Developer/CommandLineTools/"@),
        source_for_path(p) == "macos-system"@ ==> has_prefix(p, "/usr/bin"@),
{
    reveal_strlit("rustup (cargo)");
    assert("rustup (cargo)"@.len() == 14 && "rustup (cargo)"@[0] == 'r' && "rustup (cargo)"@[1] == 'u' && "rustup (cargo)"@[2] == 's');
    reveal_strlit("brew");
    assert("brew"@.len() == 4 && "brew"@[0] == 'b' && "brew"@[1] == 'r' && "brew"@[2] == 'e');
    reveal_strlit("cargo");
    assert("cargo"@.len() == 5 && "cargo"@[0] == 'c' && "cargo"@[1] == 'a' && "cargo"@[2] == 'r');
    reveal_strlit("go");
    assert("go"@.len() == 2 && "go"@[0] == 'g' && "go"@[1] == 'o');
    reveal_strlit("bun");
    assert("bun"@.len() == 3 && "bun"@[0] == 'b' && "bun"@[1] == 'u' && "bun"@[2] == 'n');
    reveal_strlit("deno");
    assert("deno"@.len() == 4 && "deno"@[0] == 'd' && "deno"@[1] == 'e' && "deno"@[2] == 'n');
    reveal_strlit("npm (via nvm)");
    assert("npm (via nvm)"@.len() == 13 && "npm (via nvm)"@[0] == 'n' && "npm (via nvm)"@[1] == 'p' && "npm (via nvm)"@[2] == 'm');
    reveal_strlit("mise");
    assert("mise"@.len() == 4 && "mise"@[0] == 'm' && "mise"@[1] == 'i' && "mise"@[2] == 's');
    reveal_strlit("asdf");
    assert("asdf"@.len() == 4 && "asdf"@[0] == 'a' && "asdf"@[1] == 's' && "asdf"@[2] == 'd');
    reveal_strlit("nix");
    assert("nix"@.len() == 3 && "nix"@[0] == 'n' && "nix"@[1] == 'i' && "nix"@[2] == 'x');
    reveal_strlit("macports");
    assert("macports"@.len() == 8 && "macports"@[0] == 'm' && "macports"@[1] == 'a' && "macports"@[2] == 'c');
    reveal_strlit("pipx");
    assert("pipx"@.len() == 4 && "pipx"@[0] == 'p' && "pipx"@[1] == 'i' && "pipx"@[2] == 'p');
    reveal_strlit("pipx/uv/manual (~/.local/bin)");
    assert("pipx/uv/manual (~/.local/bin)"@.len() == 29 && "pipx/uv/manual (~/.local/bin)"@[0] == 'p' && "pipx/uv/manual (~/.local/bin)"@[1] == 'i' && "pipx/uv/manual (~/.local/bin)"@[2] == 'p');
    reveal_strlit("pip");
    assert("pip"@.len() == 3 && "pip"@[0] == 'p' && "pip"@[1] == 'i' && "pip"@[2] == 'p');
    reveal_strlit("gem");
    assert("gem"@.len() == 3 && "gem"@[0] == 'g' && "gem"@[1] == 'e' && "gem"@[2] == 'm');
    reveal_strlit("composer");
    assert("composer"@.len() == 8 && "composer"@[0] == 'c' && "composer"@[1] == 'o' && "composer"@[2] == 'm');
    reveal_strlit("dotnet");
    assert("dotnet"@.len() == 6 && "dotnet"@[0] == 'd' && "dotnet"@[1] == 'o' && "dotnet"@[2] == 't');
    reveal_strlit("mint");
    assert("mint"@.len() == 4 && "mint"@[0] == 'm' && "mint"@[1] == 'i' && "mint"@[2] == 'n');
    reveal_strlit("proto");
    assert("proto"@.len() == 5 && "proto"@[0] == 'p' && "proto"@[1] == 'r' && "proto"@[2] == 'o');
    reveal_strlit("sdkman");
    assert("sdkman"@.len() == 6 && "sdkman"@[0] == 's' && "sdkman"@[1] == 'd' && "sdkman"@[2] == 'k');
    reveal_strlit("ghcup");
    assert("ghcup"@.len() == 5 && "ghcup"@[0] == 'g' && "ghcup"@[1] == 'h' && "ghcup"@[2] == 'c');
    reveal_strlit("pkgx");
    assert("pkgx"@.len() == 4 && "pkgx"@[0] == 'p' && "pkgx"@[1] == 'k' && "pkgx"@[2] == 'g');
    reveal_strlit("conda");
    assert("conda"@.len() == 5 && "conda"@[0] == 'c' && "conda"@[1] == 'o' && "conda"@[2] == 'n');
    reveal_strlit("xcode-clt");
    assert("xcode-clt"@.len() == 9 && "xcode-clt"@[0] == 'x' && "xcode-clt"@[1] == 'c' && "xcode-clt"@[2] == 'o');
    reveal_strlit("macos-system");
    assert("macos-system"@.len() == 12 && "macos-system"@[0] == 'm' && "macos-system"@[1] == 'a' && "macos-system"@[2] == 'c');
    reveal_strlit("unknown");
    assert("unknown"@.len() == 7 && "unknown"@[0] == 'u' && "unknown"@[1] == 'n' && "unknown"@[2] == 'k');
}

} // verus!
