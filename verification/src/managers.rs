//! What each package manager reports, read from the output of its listing command or from
//! the entries of its bin directory.
use vstd::prelude::*;

use crate::json::{json_parse, member, parse_json, text_field, text_member, Json};
use crate::paths::{file_name, file_name_of, join_path, joined};
use crate::text::{
    after_char, after_char_vec, before_char, before_char_vec, chars_of, contains, decimal,
    decimal_chars, has_infix, has_prefix, lines, lines_of, slice_to_vec, starts_with, str_eq,
    string_of, strip_trailing, trim_bounds, trim_str, trimmed, views, without_trailing,
};
use crate::types::{opt_view, tool_fields, ToolInfo};

verus! {

/// The texts of a tool record: name, path, source, version.
pub type Fields = (Seq<char>, Seq<char>, Seq<char>, Option<Seq<char>>);

/// The records that `f` makes of the items of `s`, in order, skipping the items it rejects.
pub open spec fn collect_some<A>(s: Seq<A>, f: spec_fn(A) -> Option<Fields>) -> Seq<Fields>
    decreases s.len(),
{
    if s.len() == 0 {
        seq![]
    } else {
        let rest = collect_some(s.drop_last(), f);
        match f(s.last()) {
            Some(x) => rest.push(x),
            None => rest,
        }
    }
}

/// One more item extends the collected records by the record of that item, if any.
pub proof fn lemma_collect_some_step<A>(s: Seq<A>, f: spec_fn(A) -> Option<Fields>, i: int)
    requires
        0 <= i < s.len(),
    ensures
        collect_some(s.take(i + 1), f) == (match f(s[i]) {
            Some(x) => collect_some(s.take(i), f).push(x),
            None => collect_some(s.take(i), f),
        }),
{
    assert(s.take(i + 1).drop_last() =~= s.take(i));
    assert(s.take(i + 1).last() == s[i]);
}

/// The record that `f` makes of an item of `s` is among the collected records.
pub proof fn lemma_collect_some_contains<A>(s: Seq<A>, f: spec_fn(A) -> Option<Fields>, i: int)
    requires
        0 <= i < s.len(),
        f(s[i]) is Some,
    ensures
        collect_some(s, f).contains(f(s[i]).unwrap()),
    decreases s.len(),
{
    let t = s.drop_last();
    let rest = collect_some(t, f);
    if i == s.len() - 1 {
        assert(collect_some(s, f) == rest.push(f(s[i]).unwrap()));
        assert(collect_some(s, f)[rest.len() as int] == f(s[i]).unwrap());
    } else {
        assert(t[i] == s[i]);
        lemma_collect_some_contains(t, f, i);
        let k = choose|k: int| 0 <= k < rest.len() && rest[k] == f(s[i]).unwrap();
        match f(s.last()) {
            Some(y) => {
                assert(collect_some(s, f)[k] == rest[k]);
            },
            None => {},
        }
    }
}

/// Each collected record is the record that `f` makes of some item of `s`.
pub proof fn lemma_collect_some_origin<A>(s: Seq<A>, f: spec_fn(A) -> Option<Fields>, x: Fields)
    requires
        collect_some(s, f).contains(x),
    ensures
        exists|i: int| 0 <= i < s.len() && #[trigger] f(s[i]) == Some(x),
    decreases s.len(),
{
    let t = s.drop_last();
    let rest = collect_some(t, f);
    if rest.contains(x) {
        lemma_collect_some_origin(t, f, x);
        let i = choose|i: int| 0 <= i < t.len() && #[trigger] f(t[i]) == Some(x);
        assert(s[i] == t[i]);
    } else {
        let k = choose|k: int| 0 <= k < collect_some(s, f).len() && collect_some(s, f)[k] == x;
        match f(s.last()) {
            Some(y) => {
                if k < rest.len() {
                    assert(collect_some(s, f)[k] == rest[k]);
                }
                assert(f(s[s.len() - 1]) == Some(x));
            },
            None => {
                assert(collect_some(s, f)[k] == rest[k]);
            },
        }
    }
}

/// Every record of `ts` has the source `source`.
pub open spec fn all_from(ts: Seq<Fields>, source: Seq<char>) -> bool {
    forall|i: int| 0 <= i < ts.len() ==> (#[trigger] ts[i]).2 == source
}

/// When `f` gives only records of `source` on the items of `s`, so does `collect_some`.
pub proof fn lemma_collect_some_from<A>(s: Seq<A>, f: spec_fn(A) -> Option<Fields>, source: Seq<char>)
    requires
        forall|i: int| 0 <= i < s.len() && (#[trigger] f(s[i])) is Some ==> f(s[i]).unwrap().2 == source,
    ensures
        all_from(collect_some(s, f), source),
    decreases s.len(),
{
    if s.len() > 0 {
        let t = s.drop_last();
        assert forall|i: int| 0 <= i < t.len() && (#[trigger] f(t[i])) is Some implies f(t[i]).unwrap().2
            == source by {
            assert(t[i] == s[i]);
        }
        lemma_collect_some_from(t, f, source);
        assert(f(s[s.len() - 1]) is Some ==> f(s[s.len() - 1]).unwrap().2 == source);
    }
}

/// Keeping some of the records of one source leaves records of that source.
pub proof fn lemma_kept_from(ts: Seq<Fields>, exists: Seq<bool>, source: Seq<char>)
    requires
        all_from(ts, source),
    ensures
        all_from(kept(ts, exists), source),
    decreases ts.len(),
{
    if ts.len() > 0 && exists.len() > 0 {
        let t = ts.drop_last();
        assert(all_from(t, source)) by {
            assert forall|i: int| 0 <= i < t.len() implies (#[trigger] t[i]).2 == source by {
                assert(t[i] == ts[i]);
            }
        }
        lemma_kept_from(t, exists.drop_last(), source);
        assert(ts[ts.len() - 1].2 == source);
    }
}

/// Every binary that `cargo install --list` reports has the source `cargo`.
pub proof fn lemma_cargo_from(ls: Seq<Seq<char>>, bin_dir: Seq<char>)
    ensures
        all_from(cargo_scan(ls, bin_dir).0, "cargo"@),
    decreases ls.len(),
{
    if ls.len() > 0 {
        lemma_cargo_from(ls.drop_last(), bin_dir);
    }
}

/// Every version that mise reports has the source `mise`.
pub proof fn lemma_mise_from(m: Seq<(String, Json)>)
    ensures
        all_from(mise_members(m), "mise"@),
    decreases m.len(),
{
    if m.len() > 0 {
        lemma_mise_from(m.drop_last());
        let a = mise_members(m.drop_last());
        let b = mise_versions(m.last().0@, m.last().1);
        assert forall|i: int| 0 <= i < (a + b).len() implies (#[trigger] (a + b)[i]).2 == "mise"@ by {
            if i >= a.len() {
                assert((a + b)[i] == b[i - a.len()]);
            }
        }
    }
}

/// All of `s` but its first item (`skip(1)`).
pub open spec fn after_first<A>(s: Seq<A>) -> Seq<A> {
    if s.len() > 0 {
        s.drop_first()
    } else {
        s
    }
}

/// The record texts of an optional tool.
pub open spec fn opt_fields(t: Option<ToolInfo>) -> Option<Fields> {
    match t {
        Some(x) => Some(x.fields()),
        None => None,
    }
}

/// The text `s`, or the empty text.
pub open spec fn or_empty(s: Option<Seq<char>>) -> Seq<char> {
    match s {
        Some(x) => x,
        None => seq![],
    }
}

fn make_tool(name: String, path: String, source: &str, version: Option<String>) -> (r: ToolInfo)
    ensures
        r.fields() == (name@, path@, source@, opt_view(version)),
{
    ToolInfo { name, path, source: String::from_str(source), version }
}

fn trimmed_vec(v: &[char]) -> (r: Vec<char>)
    ensures
        r@ == trimmed(v@),
{
    let (lo, hi) = trim_bounds(v);
    slice_to_vec(v, lo, hi)
}

fn push_some(r: &mut Vec<ToolInfo>, t: Option<ToolInfo>)
    ensures
        tool_fields(final(r)@) == match opt_fields(t) {
            Some(x) => tool_fields(old(r)@).push(x),
            None => tool_fields(old(r)@),
        },
{
    match t {
        Some(x) => {
            let ghost before = r@;
            r.push(x);
            assert(tool_fields(r@) =~= tool_fields(before).push(x.fields()));
        },
        None => {},
    }
}

// ── npm ─────────────────────────────────────────────────────────────
/// The tool that one line of `npm list -g --parseable` stands for.
pub open spec fn npm_entry(line: Seq<char>, bin_dir: Seq<char>) -> Option<Fields> {
    if line.len() == 0 {
        None
    } else {
        match file_name_of(trimmed(line)) {
            Some(pkg) => if pkg == "npm"@ || pkg == "corepack"@ {
                None
            } else {
                Some((pkg, bin_dir + "/"@ + pkg, "npm"@, None))
            },
            None => None,
        }
    }
}

/// The npm tools: every line but the first names a package directory.
pub open spec fn npm_tools(list_output: Seq<char>, bin_output: Option<Seq<char>>) -> Seq<Fields> {
    let bin_dir = trimmed(or_empty(bin_output));
    collect_some(after_first(lines_of(list_output)), |l: Seq<char>| npm_entry(l, bin_dir))
}

fn npm_line(line: &[char], bin_dir: &str) -> (r: Option<ToolInfo>)
    ensures
        opt_fields(r) == npm_entry(line@, bin_dir@),
{
    if line.len() == 0 {
        return None;
    }
    let t = trimmed_vec(line);
    let ts = string_of(t.as_slice());
    match file_name(ts.as_str()) {
        Some(pkg) => {
            if str_eq(pkg.as_str(), "npm") || str_eq(pkg.as_str(), "corepack") {
                None
            } else {
                let mut path = String::from_str(bin_dir);
                path.append("/");
                path.append(pkg.as_str());
                let name = pkg.clone();
                Some(make_tool(name, path, "npm", None))
            }
        },
        None => None,
    }
}

/// The tools that npm lists, from the output of `npm list -g --depth=0 --parseable` and of
/// `npm bin -g` (`None` when that failed).
pub fn list_npm(list_output: &str, bin_output: Option<String>) -> (r: Vec<ToolInfo>)
    ensures
        tool_fields(r@) == npm_tools(list_output@, opt_view(bin_output)),
        all_from(tool_fields(r@), "npm"@),
{
    let bin_dir = match bin_output {
        Some(b) => trim_str(b.as_str()),
        None => trim_str(""),
    };
    proof {
        reveal_strlit("");
        assert(""@ =~= seq![]);
    }
    let ghost f = |l: Seq<char>| npm_entry(l, bin_dir@);
    let v = chars_of(list_output);
    let ls = lines(v.as_slice());
    let ghost s = after_first(views(ls@));
    let mut r: Vec<ToolInfo> = Vec::new();
    if ls.len() == 0 {
        return r;
    }
    let mut i: usize = 1;
    while i < ls.len()
        invariant
            1 <= i <= ls@.len(),
            s == views(ls@).drop_first(),
            f == |l: Seq<char>| npm_entry(l, bin_dir@),
            tool_fields(r@) == collect_some(s.take(i - 1), f),
        decreases ls@.len() - i,
    {
        proof {
            lemma_collect_some_step(s, f, i - 1);
        }
        assert(s[i - 1] == ls@[i as int]@);
        let t = npm_line(ls[i].as_slice(), bin_dir.as_str());
        assert(f(s[i - 1]) == opt_fields(t));
        push_some(&mut r, t);
        i = i + 1;
    }
    assert(s.take(i - 1) =~= s);
    proof {
        lemma_collect_some_from(s, f, "npm"@);
    }
    r
}

// ── pnpm ────────────────────────────────────────────────────────────
/// The tool that one line of `pnpm list -g --parseable` stands for.
pub open spec fn pnpm_entry(line: Seq<char>) -> Option<Fields> {
    if line.len() == 0 {
        None
    } else {
        match file_name_of(trimmed(line)) {
            Some(pkg) => Some((pkg, trimmed(line), "pnpm"@, None)),
            None => None,
        }
    }
}

/// The pnpm tools: every line but the first names a package directory.
pub open spec fn pnpm_tools(list_output: Seq<char>) -> Seq<Fields> {
    collect_some(after_first(lines_of(list_output)), |l: Seq<char>| pnpm_entry(l))
}

fn pnpm_line(line: &[char]) -> (r: Option<ToolInfo>)
    ensures
        opt_fields(r) == pnpm_entry(line@),
{
    if line.len() == 0 {
        return None;
    }
    let t = trimmed_vec(line);
    let ts = string_of(t.as_slice());
    match file_name(ts.as_str()) {
        Some(pkg) => Some(make_tool(pkg, ts, "pnpm", None)),
        None => None,
    }
}

/// The tools that pnpm lists, from the output of `pnpm list -g --depth=0 --parseable`.
pub fn list_pnpm(list_output: &str) -> (r: Vec<ToolInfo>)
    ensures
        tool_fields(r@) == pnpm_tools(list_output@),
        all_from(tool_fields(r@), "pnpm"@),
{
    let ghost f = |l: Seq<char>| pnpm_entry(l);
    let v = chars_of(list_output);
    let ls = lines(v.as_slice());
    let ghost s = after_first(views(ls@));
    let mut r: Vec<ToolInfo> = Vec::new();
    if ls.len() == 0 {
        return r;
    }
    let mut i: usize = 1;
    while i < ls.len()
        invariant
            1 <= i <= ls@.len(),
            s == views(ls@).drop_first(),
            f == |l: Seq<char>| pnpm_entry(l),
            tool_fields(r@) == collect_some(s.take(i - 1), f),
        decreases ls@.len() - i,
    {
        proof {
            lemma_collect_some_step(s, f, i - 1);
        }
        assert(s[i - 1] == ls@[i as int]@);
        let t = pnpm_line(ls[i].as_slice());
        assert(f(s[i - 1]) == opt_fields(t));
        push_some(&mut r, t);
        i = i + 1;
    }
    assert(s.take(i - 1) =~= s);
    proof {
        lemma_collect_some_from(s, f, "pnpm"@);
    }
    r
}

// ── pipx and uv ────────────────────────────────────────────────────
/// The tool that one line `<name> <version...>` stands for, installed in `bin_dir`.
pub open spec fn name_version_entry(line: Seq<char>, bin_dir: Seq<char>, source: Seq<char>) -> Option<Fields> {
    let name = before_char(line, ' ');
    Some((name, joined(bin_dir, name), source, after_char(line, ' ')))
}

/// The tool of one line of `pipx list --short`.
pub open spec fn pipx_entry(line: Seq<char>, bin_dir: Seq<char>) -> Option<Fields> {
    if line.len() == 0 {
        None
    } else {
        name_version_entry(line, bin_dir, "pipx"@)
    }
}

/// The tool of one line of `uv tool list`; lines that start with `-` list executables.
pub open spec fn uv_entry(line: Seq<char>, bin_dir: Seq<char>) -> Option<Fields> {
    if line.len() == 0 || has_prefix(line, "-"@) {
        None
    } else {
        name_version_entry(line, bin_dir, "uv"@)
    }
}

/// The directory where pipx and uv put their executables.
pub open spec fn local_bin(home: Seq<char>) -> Seq<char> {
    joined(home, ".local/bin"@)
}

/// The pipx tools from the output of `pipx list --short`; `home` is the home directory.
pub open spec fn pipx_tools(output: Seq<char>, home: Seq<char>) -> Seq<Fields> {
    collect_some(lines_of(output), |l: Seq<char>| pipx_entry(l, local_bin(home)))
}

/// The uv tools from the output of `uv tool list`; `home` is the home directory.
pub open spec fn uv_tools(output: Seq<char>, home: Seq<char>) -> Seq<Fields> {
    collect_some(lines_of(output), |l: Seq<char>| uv_entry(l, local_bin(home)))
}

fn name_version_line(line: &[char], bin_dir: &str, source: &str) -> (r: Option<ToolInfo>)
    ensures
        opt_fields(r) == name_version_entry(line@, bin_dir@, source@),
{
    let name = string_of(before_char_vec(line, ' ').as_slice());
    let path = join_path(bin_dir, name.as_str());
    let version = match after_char_vec(line, ' ') {
        Some(rest) => Some(string_of(rest.as_slice())),
        None => None,
    };
    Some(make_tool(name, path, source, version))
}

fn pipx_line(line: &[char], bin_dir: &str) -> (r: Option<ToolInfo>)
    ensures
        opt_fields(r) == pipx_entry(line@, bin_dir@),
{
    if line.len() == 0 {
        None
    } else {
        name_version_line(line, bin_dir, "pipx")
    }
}

fn uv_line(line: &[char], bin_dir: &str) -> (r: Option<ToolInfo>)
    ensures
        opt_fields(r) == uv_entry(line@, bin_dir@),
{
    if line.len() == 0 || starts_with(line, chars_of("-").as_slice()) {
        None
    } else {
        name_version_line(line, bin_dir, "uv")
    }
}

/// The tools that pipx lists, from the output of `pipx list --short`; `home` is the home
/// directory.
pub fn list_pipx(output: &str, home: &str) -> (r: Vec<ToolInfo>)
    ensures
        tool_fields(r@) == pipx_tools(output@, home@),
        all_from(tool_fields(r@), "pipx"@),
{
    let bin_dir = join_path(home, ".local/bin");
    let ghost f = |l: Seq<char>| pipx_entry(l, local_bin(home@));
    let v = chars_of(output);
    let ls = lines(v.as_slice());
    let ghost s = views(ls@);
    let mut r: Vec<ToolInfo> = Vec::new();
    let mut i: usize = 0;
    while i < ls.len()
        invariant
            i <= ls@.len(),
            s == views(ls@),
            f == |l: Seq<char>| pipx_entry(l, local_bin(home@)),
            bin_dir@ == local_bin(home@),
            tool_fields(r@) == collect_some(s.take(i as int), f),
        decreases ls@.len() - i,
    {
        proof {
            lemma_collect_some_step(s, f, i as int);
        }
        assert(s[i as int] == ls@[i as int]@);
        let t = pipx_line(ls[i].as_slice(), bin_dir.as_str());
        assert(f(s[i as int]) == opt_fields(t));
        push_some(&mut r, t);
        i = i + 1;
    }
    assert(s.take(i as int) =~= s);
    proof {
        lemma_collect_some_from(s, f, "pipx"@);
    }
    r
}

/// The tools that uv lists, from the output of `uv tool list`; `home` is the home directory.
pub fn list_uv(output: &str, home: &str) -> (r: Vec<ToolInfo>)
    ensures
        tool_fields(r@) == uv_tools(output@, home@),
        all_from(tool_fields(r@), "uv"@),
{
    let bin_dir = join_path(home, ".local/bin");
    let ghost f = |l: Seq<char>| uv_entry(l, local_bin(home@));
    let v = chars_of(output);
    let ls = lines(v.as_slice());
    let ghost s = views(ls@);
    let mut r: Vec<ToolInfo> = Vec::new();
    let mut i: usize = 0;
    while i < ls.len()
        invariant
            i <= ls@.len(),
            s == views(ls@),
            f == |l: Seq<char>| uv_entry(l, local_bin(home@)),
            bin_dir@ == local_bin(home@),
            tool_fields(r@) == collect_some(s.take(i as int), f),
        decreases ls@.len() - i,
    {
        proof {
            lemma_collect_some_step(s, f, i as int);
        }
        assert(s[i as int] == ls@[i as int]@);
        let t = uv_line(ls[i].as_slice(), bin_dir.as_str());
        assert(f(s[i as int]) == opt_fields(t));
        push_some(&mut r, t);
        i = i + 1;
    }
    assert(s.take(i as int) =~= s);
    proof {
        lemma_collect_some_from(s, f, "uv"@);
    }
    r
}

// ── gems ────────────────────────────────────────────────────────────
/// The version in a line `name (1.2, 1.1)`: the text between the first `(` and the next `(`
/// or the end, without trailing `)`.
pub open spec fn gem_version(line: Seq<char>) -> Option<Seq<char>> {
    match after_char(line, '(') {
        Some(rest) => Some(without_trailing(before_char(rest, '('), ')')),
        None => None,
    }
}

/// The gem of one line of `gem list --local --no-details`, with its executable in `gem_bin`.
pub open spec fn gem_entry(line: Seq<char>, gem_bin: Seq<char>) -> Option<Fields> {
    if line.len() == 0 {
        None
    } else {
        let name = before_char(line, ' ');
        Some((name, joined(gem_bin, name), "gem"@, gem_version(line)))
    }
}

/// The gems' bin directory from the output of `gem environment gemdir` (empty when that failed).
pub open spec fn gem_bin_of(gemdir_output: Option<Seq<char>>) -> Seq<char> {
    match gemdir_output {
        Some(p) => joined(trimmed(p), "bin"@),
        None => seq![],
    }
}

/// Every listed gem, whether or not its executable exists.
pub open spec fn gem_candidates(output: Seq<char>, gemdir_output: Option<Seq<char>>) -> Seq<Fields> {
    collect_some(lines_of(output), |l: Seq<char>| gem_entry(l, gem_bin_of(gemdir_output)))
}

fn gem_line(line: &[char], gem_bin: &str) -> (r: Option<ToolInfo>)
    ensures
        opt_fields(r) == gem_entry(line@, gem_bin@),
{
    if line.len() == 0 {
        return None;
    }
    let name = string_of(before_char_vec(line, ' ').as_slice());
    let path = join_path(gem_bin, name.as_str());
    let version = match after_char_vec(line, '(') {
        Some(rest) => {
            let inner = before_char_vec(rest.as_slice(), '(');
            Some(string_of(strip_trailing(inner.as_slice(), ')').as_slice()))
        },
        None => None,
    };
    Some(make_tool(name, path, "gem", version))
}

/// The gems whose executables may exist, from the output of `gem list --local --no-details`
/// and of `gem environment gemdir`; `keep_existing` then keeps those whose path exists.
pub fn list_gem(output: &str, gemdir_output: Option<String>) -> (r: Vec<ToolInfo>)
    ensures
        tool_fields(r@) == gem_candidates(output@, opt_view(gemdir_output)),
        all_from(tool_fields(r@), "gem"@),
{
    let gem_bin = match gemdir_output {
        Some(p) => {
            let t = trim_str(p.as_str());
            join_path(t.as_str(), "bin")
        },
        None => String::new(),
    };
    let ghost f = |l: Seq<char>| gem_entry(l, gem_bin_of(opt_view(gemdir_output)));
    let v = chars_of(output);
    let ls = lines(v.as_slice());
    let ghost s = views(ls@);
    let mut r: Vec<ToolInfo> = Vec::new();
    let mut i: usize = 0;
    while i < ls.len()
        invariant
            i <= ls@.len(),
            s == views(ls@),
            f == |l: Seq<char>| gem_entry(l, gem_bin_of(opt_view(gemdir_output))),
            gem_bin@ == gem_bin_of(opt_view(gemdir_output)),
            tool_fields(r@) == collect_some(s.take(i as int), f),
        decreases ls@.len() - i,
    {
        proof {
            lemma_collect_some_step(s, f, i as int);
        }
        assert(s[i as int] == ls@[i as int]@);
        let t = gem_line(ls[i].as_slice(), gem_bin.as_str());
        assert(f(s[i as int]) == opt_fields(t));
        push_some(&mut r, t);
        i = i + 1;
    }
    assert(s.take(i as int) =~= s);
    proof {
        lemma_collect_some_from(s, f, "gem"@);
    }
    r
}

// ── MacPorts ────────────────────────────────────────────────────────
/// The MacPorts package of one line of `port installed`: `  name @version (active)`.
pub open spec fn macports_entry(line: Seq<char>) -> Option<Fields> {
    if line.len() == 0 {
        None
    } else {
        let t = trimmed(line);
        let name = before_char(t, ' ');
        let version = match after_char(t, ' ') {
            Some(v) => Some(trimmed(v)),
            None => None,
        };
        Some((name, "/opt/local/bin/"@ + name, "macports"@, version))
    }
}

/// Every installed port, whether or not an executable of its name exists; the first line is
/// a heading.
pub open spec fn macports_candidates(output: Seq<char>) -> Seq<Fields> {
    collect_some(after_first(lines_of(output)), |l: Seq<char>| macports_entry(l))
}

fn macports_line(line: &[char]) -> (r: Option<ToolInfo>)
    ensures
        opt_fields(r) == macports_entry(line@),
{
    if line.len() == 0 {
        return None;
    }
    let t = trimmed_vec(line);
    let name = string_of(before_char_vec(t.as_slice(), ' ').as_slice());
    let mut path = String::from_str("/opt/local/bin/");
    path.append(name.as_str());
    let version = match after_char_vec(t.as_slice(), ' ') {
        Some(v) => Some(string_of(trimmed_vec(v.as_slice()).as_slice())),
        None => None,
    };
    Some(make_tool(name, path, "macports", version))
}

/// The ports whose executables may exist, from the output of `port installed`;
/// `keep_existing` then keeps those whose path exists.
pub fn list_macports(output: &str) -> (r: Vec<ToolInfo>)
    ensures
        tool_fields(r@) == macports_candidates(output@),
        all_from(tool_fields(r@), "macports"@),
{
    let ghost f = |l: Seq<char>| macports_entry(l);
    let v = chars_of(output);
    let ls = lines(v.as_slice());
    let ghost s = after_first(views(ls@));
    let mut r: Vec<ToolInfo> = Vec::new();
    if ls.len() == 0 {
        return r;
    }
    let mut i: usize = 1;
    while i < ls.len()
        invariant
            1 <= i <= ls@.len(),
            s == views(ls@).drop_first(),
            f == |l: Seq<char>| macports_entry(l),
            tool_fields(r@) == collect_some(s.take(i - 1), f),
        decreases ls@.len() - i,
    {
        proof {
            lemma_collect_some_step(s, f, i - 1);
        }
        assert(s[i - 1] == ls@[i as int]@);
        let t = macports_line(ls[i].as_slice());
        assert(f(s[i - 1]) == opt_fields(t));
        push_some(&mut r, t);
        i = i + 1;
    }
    assert(s.take(i - 1) =~= s);
    proof {
        lemma_collect_some_from(s, f, "macports"@);
    }
    r
}

// ── gh extensions ───────────────────────────────────────────────────
/// The extension of one line of `gh extension list`: tab-separated name and version.
pub open spec fn gh_entry(line: Seq<char>, ext_dir: Seq<char>) -> Option<Fields> {
    if line.len() == 0 {
        None
    } else {
        let name = trimmed(before_char(line, '\t'));
        let version = match after_char(line, '\t') {
            Some(rest) => Some(trimmed(before_char(rest, '\t'))),
            None => None,
        };
        Some((name, joined(ext_dir, name), "gh-extension"@, version))
    }
}

/// Where gh keeps its extensions, under the home directory.
pub open spec fn gh_ext_dir(home: Seq<char>) -> Seq<char> {
    joined(home, ".local/share/gh/extensions"@)
}

/// The gh extensions from the output of `gh extension list`; `home` is the home directory.
pub open spec fn gh_tools(output: Seq<char>, home: Seq<char>) -> Seq<Fields> {
    collect_some(lines_of(output), |l: Seq<char>| gh_entry(l, gh_ext_dir(home)))
}

fn gh_line(line: &[char], ext_dir: &str) -> (r: Option<ToolInfo>)
    ensures
        opt_fields(r) == gh_entry(line@, ext_dir@),
{
    if line.len() == 0 {
        return None;
    }
    let first = before_char_vec(line, '\t');
    let name = string_of(trimmed_vec(first.as_slice()).as_slice());
    let path = join_path(ext_dir, name.as_str());
    let version = match after_char_vec(line, '\t') {
        Some(rest) => {
            let second = before_char_vec(rest.as_slice(), '\t');
            Some(string_of(trimmed_vec(second.as_slice()).as_slice()))
        },
        None => None,
    };
    Some(make_tool(name, path, "gh-extension", version))
}

/// The gh extensions, from the output of `gh extension list`; `home` is the home directory.
pub fn list_gh_extensions(output: &str, home: &str) -> (r: Vec<ToolInfo>)
    ensures
        tool_fields(r@) == gh_tools(output@, home@),
        all_from(tool_fields(r@), "gh-extension"@),
{
    let ext_dir = join_path(home, ".local/share/gh/extensions");
    let ghost f = |l: Seq<char>| gh_entry(l, gh_ext_dir(home@));
    let v = chars_of(output);
    let ls = lines(v.as_slice());
    let ghost s = views(ls@);
    let mut r: Vec<ToolInfo> = Vec::new();
    let mut i: usize = 0;
    while i < ls.len()
        invariant
            i <= ls@.len(),
            s == views(ls@),
            f == |l: Seq<char>| gh_entry(l, gh_ext_dir(home@)),
            ext_dir@ == gh_ext_dir(home@),
            tool_fields(r@) == collect_some(s.take(i as int), f),
        decreases ls@.len() - i,
    {
        proof {
            lemma_collect_some_step(s, f, i as int);
        }
        assert(s[i as int] == ls@[i as int]@);
        let t = gh_line(ls[i].as_slice(), ext_dir.as_str());
        assert(f(s[i as int]) == opt_fields(t));
        push_some(&mut r, t);
        i = i + 1;
    }
    assert(s.take(i as int) =~= s);
    proof {
        lemma_collect_some_from(s, f, "gh-extension"@);
    }
    r
}

// ── cargo ─────────────────────────────────────────────────────────
/// What reading the lines of `cargo install --list` yields: the tools so far, and the
/// package line last seen (`name v1.2.3:` without its trailing `:`). A line that does not
/// start with a space and holds one names a package; a line indented by four spaces names a
/// binary of the current package.
pub open spec fn cargo_scan(ls: Seq<Seq<char>>, bin_dir: Seq<char>) -> (Seq<Fields>, Option<Seq<char>>)
    decreases ls.len(),
{
    if ls.len() == 0 {
        (seq![], None)
    } else {
        let prev = cargo_scan(ls.drop_last(), bin_dir);
        let l = ls.last();
        if !has_prefix(l, " "@) && has_infix(l, " "@) {
            (prev.0, Some(without_trailing(l, ':')))
        } else if has_prefix(l, "    "@) {
            let bin = trimmed(l);
            (prev.0.push((bin, joined(bin_dir, bin), "cargo"@, prev.1)), prev.1)
        } else {
            prev
        }
    }
}

/// The cargo binaries from the output of `cargo install --list`; `home` is the home directory.
pub open spec fn cargo_tools(output: Seq<char>, home: Seq<char>) -> Seq<Fields> {
    cargo_scan(lines_of(output), joined(home, ".cargo/bin"@)).0
}

/// The binaries that `cargo install --list` reports; `home` is the home directory.
pub fn list_cargo(output: &str, home: &str) -> (r: Vec<ToolInfo>)
    ensures
        tool_fields(r@) == cargo_tools(output@, home@),
        all_from(tool_fields(r@), "cargo"@),
{
    let bin_dir = join_path(home, ".cargo/bin");
    let v = chars_of(output);
    let ls = lines(v.as_slice());
    let ghost s = views(ls@);
    let space = chars_of(" ");
    let indent = chars_of("    ");
    let mut r: Vec<ToolInfo> = Vec::new();
    let mut current: Option<String> = None;
    let mut i: usize = 0;
    while i < ls.len()
        invariant
            i <= ls@.len(),
            s == views(ls@),
            space@ == " "@,
            indent@ == "    "@,
            bin_dir@ == joined(home@, ".cargo/bin"@),
            (tool_fields(r@), opt_view(current)) == cargo_scan(s.take(i as int), bin_dir@),
        decreases ls@.len() - i,
    {
        assert(s.take(i + 1).drop_last() =~= s.take(i as int));
        assert(s.take(i + 1).last() == ls@[i as int]@);
        let line = ls[i].as_slice();
        if !starts_with(line, space.as_slice()) && contains(line, space.as_slice()) {
            current = Some(string_of(strip_trailing(line, ':').as_slice()));
        } else if starts_with(line, indent.as_slice()) {
            let bin = string_of(trimmed_vec(line).as_slice());
            let path = join_path(bin_dir.as_str(), bin.as_str());
            let version = match &current {
                Some(c) => Some(c.clone()),
                None => None,
            };
            let ghost before = r@;
            r.push(make_tool(bin, path, "cargo", version));
            assert(tool_fields(r@) =~= tool_fields(before).push(r@.last().fields()));
        }
        i = i + 1;
    }
    assert(s.take(i as int) =~= s);
    proof {
        lemma_cargo_from(s, bin_dir@);
    }
    r
}

// ── directories of binaries ─────────────────────────────────────────
/// One entry of a directory, with what the file system said of it.
pub struct BinEntry {
    /// The entry's file name.
    pub name: String,
    /// The entry's path (the directory joined with the name).
    pub path: String,
    /// Where the entry's symlink points, when it is one.
    pub link_target: Option<String>,
    /// The entry's fully resolved path, when it could be resolved.
    pub canonical: Option<String>,
    /// The entry is a regular file or a symlink.
    pub is_file: bool,
}

/// The texts of a directory entry.
pub open spec fn entry_view(e: BinEntry) -> (Seq<char>, Seq<char>, Option<Seq<char>>, Option<Seq<char>>, bool) {
    (e.name@, e.path@, opt_view(e.link_target), opt_view(e.canonical), e.is_file)
}

/// The tool that a directory entry stands for: neither a name to skip nor a hidden file, and
/// a file or a symlink.
pub open spec fn bin_entry(
    e: (Seq<char>, Seq<char>, Option<Seq<char>>, Option<Seq<char>>, bool),
    source: Seq<char>,
    skip: Seq<Seq<char>>,
) -> Option<Fields> {
    if skip.contains(e.0) || has_prefix(e.0, "."@) || !e.4 {
        None
    } else {
        Some((e.0, e.1, source, None))
    }
}

/// Where to look for a manager's binaries: the first of `dirs` that exists, read with
/// `read_bin_dir`.
pub struct BinDirPlan {
    pub dirs: Vec<String>,
    pub source: String,
    pub skip: Vec<String>,
}

/// The texts of a plan: its directories, source and names to skip.
pub open spec fn plan_view(p: BinDirPlan) -> (Seq<Seq<char>>, Seq<char>, Seq<Seq<char>>) {
    (crate::order::texts(p.dirs@), p.source@, crate::order::texts(p.skip@))
}

/// The tools in a directory of binaries, from its entries.
pub open spec fn bin_dir_tools(
    entries: Seq<BinEntry>,
    source: Seq<char>,
    skip: Seq<Seq<char>>,
) -> Seq<Fields> {
    collect_some(entries.map_values(|e: BinEntry| entry_view(e)), |e: (Seq<char>, Seq<char>, Option<Seq<char>>, Option<Seq<char>>, bool)| bin_entry(e, source, skip))
}

fn in_list(name: &str, skip: &Vec<String>) -> (r: bool)
    ensures
        r == crate::order::texts(skip@).contains(name@),
{
    let mut i: usize = 0;
    while i < skip.len()
        invariant
            i <= skip@.len(),
            forall|j: int| 0 <= j < i ==> skip@[j]@ != name@,
        decreases skip@.len() - i,
    {
        if str_eq(skip[i].as_str(), name) {
            assert(crate::order::texts(skip@)[i as int] == name@);
            return true;
        }
        i = i + 1;
    }
    assert forall|j: int| 0 <= j < crate::order::texts(skip@).len() implies crate::order::texts(skip@)[j] != name@ by {
        assert(crate::order::texts(skip@)[j] == skip@[j]@);
    }
    false
}

/// The tools in a directory of binaries (the entries that the plan's directory holds).
pub fn read_bin_dir(plan: &BinDirPlan, entries: &[BinEntry]) -> (r: Vec<ToolInfo>)
    ensures
        tool_fields(r@) == bin_dir_tools(entries@, plan.source@, crate::order::texts(plan.skip@)),
        all_from(tool_fields(r@), plan.source@),
{
    let ghost skip = crate::order::texts(plan.skip@);
    let ghost src = plan.source@;
    let ghost f = |e: (Seq<char>, Seq<char>, Option<Seq<char>>, Option<Seq<char>>, bool)| bin_entry(e, src, skip);
    let ghost s = entries@.map_values(|e: BinEntry| entry_view(e));
    let mut r: Vec<ToolInfo> = Vec::new();
    let mut i: usize = 0;
    while i < entries.len()
        invariant
            i <= entries@.len(),
            s == entries@.map_values(|e: BinEntry| entry_view(e)),
            skip == crate::order::texts(plan.skip@),
            src == plan.source@,
            f == |e: (Seq<char>, Seq<char>, Option<Seq<char>>, Option<Seq<char>>, bool)| bin_entry(e, src, skip),
            tool_fields(r@) == collect_some(s.take(i as int), f),
        decreases entries@.len() - i,
    {
        proof {
            lemma_collect_some_step(s, f, i as int);
        }
        let e = &entries[i];
        assert(s[i as int] == entry_view(*e));
        let t = if in_list(e.name.as_str(), &plan.skip) || str_starts_with_dot(e.name.as_str()) || !e.is_file {
            None
        } else {
            Some(make_tool(e.name.clone(), e.path.clone(), plan.source.as_str(), None))
        };
        assert(f(s[i as int]) == opt_fields(t));
        push_some(&mut r, t);
        i = i + 1;
    }
    assert(s.take(i as int) =~= s);
    proof {
        lemma_collect_some_from(s, f, src);
    }
    r
}

fn str_starts_with_dot(name: &str) -> (r: bool)
    ensures
        r == has_prefix(name@, "."@),
{
    crate::text::str_starts_with(name, ".")
}

fn plan(dirs: Vec<String>, source: &str, skip: Vec<String>) -> (r: BinDirPlan)
    ensures
        plan_view(r) == (crate::order::texts(dirs@), source@, crate::order::texts(skip@)),
{
    BinDirPlan { dirs, source: String::from_str(source), skip }
}

fn one_dir(home: &str, rel: &str) -> (r: Vec<String>)
    ensures
        crate::order::texts(r@) == seq![joined(home@, rel@)],
{
    let mut v = Vec::new();
    v.push(join_path(home, rel));
    assert(crate::order::texts(v@) =~= seq![joined(home@, rel@)]);
    v
}

fn names(a: &str, b: &str, count: usize) -> (r: Vec<String>)
    requires
        count <= 2,
    ensures
        crate::order::texts(r@) == if count == 0 {
            seq![]
        } else if count == 1 {
            seq![a@]
        } else {
            seq![a@, b@]
        },
{
    let mut v = Vec::new();
    if count >= 1 {
        v.push(String::from_str(a));
    }
    if count >= 2 {
        v.push(String::from_str(b));
    }
    assert(crate::order::texts(v@) =~= if count == 0 {
        seq![]
    } else if count == 1 {
        seq![a@]
    } else {
        seq![a@, b@]
    });
    v
}

/// Bun's global binaries: `~/.bun/bin`, without `bun` and `bunx` themselves.
pub fn list_bun(home: &str) -> (r: BinDirPlan)
    ensures
        plan_view(r) == (seq![joined(home@, ".bun/bin"@)], "bun"@, seq!["bun"@, "bunx"@]),
{
    plan(one_dir(home, ".bun/bin"), "bun", names("bun", "bunx", 2))
}

/// Deno's installed scripts: `~/.deno/bin`, without `deno` itself.
pub fn list_deno(home: &str) -> (r: BinDirPlan)
    ensures
        plan_view(r) == (seq![joined(home@, ".deno/bin"@)], "deno"@, seq!["deno"@]),
{
    plan(one_dir(home, ".deno/bin"), "deno", names("deno", "", 1))
}

/// .NET global tools: `~/.dotnet/tools`, without `dotnet` itself.
pub fn list_dotnet(home: &str) -> (r: BinDirPlan)
    ensures
        plan_view(r) == (seq![joined(home@, ".dotnet/tools"@)], "dotnet"@, seq!["dotnet"@]),
{
    plan(one_dir(home, ".dotnet/tools"), "dotnet", names("dotnet", "", 1))
}

/// Nix profile binaries: `~/.nix-profile/bin`.
pub fn list_nix(home: &str) -> (r: BinDirPlan)
    ensures
        plan_view(r) == (seq![joined(home@, ".nix-profile/bin"@)], "nix"@, Seq::<Seq<char>>::empty()),
{
    plan(one_dir(home, ".nix-profile/bin"), "nix", names("", "", 0))
}

/// Composer's global binaries: `~/.composer/vendor/bin`, or else
/// `~/.config/composer/vendor/bin`.
pub fn list_composer(home: &str) -> (r: BinDirPlan)
    ensures
        plan_view(r) == (
            seq![joined(home@, ".composer/vendor/bin"@), joined(home@, ".config/composer/vendor/bin"@)],
            "composer"@,
            Seq::<Seq<char>>::empty(),
        ),
{
    let mut dirs = Vec::new();
    dirs.push(join_path(home, ".composer/vendor/bin"));
    dirs.push(join_path(home, ".config/composer/vendor/bin"));
    assert(crate::order::texts(dirs@) =~= seq![joined(home@, ".composer/vendor/bin"@), joined(home@, ".config/composer/vendor/bin"@)]);
    plan(dirs, "composer", names("", "", 0))
}

/// Go's bin directory: `$GOBIN`, else `$GOPATH/bin`, else `~/go/bin`.
pub open spec fn go_bin_dir(gobin: Option<Seq<char>>, gopath: Option<Seq<char>>, home: Seq<char>) -> Seq<char> {
    match gobin {
        Some(b) => b,
        None => match gopath {
            Some(p) => joined(p, "bin"@),
            None => joined(home, "go/bin"@),
        },
    }
}

/// Go's installed binaries, given the `GOBIN` and `GOPATH` variables (when set).
pub fn list_go(gobin: Option<String>, gopath: Option<String>, home: &str) -> (r: BinDirPlan)
    ensures
        plan_view(r) == (seq![go_bin_dir(opt_view(gobin), opt_view(gopath), home@)], "go"@, Seq::<Seq<char>>::empty()),
{
    let dir = match gobin {
        Some(b) => b,
        None => match gopath {
            Some(p) => join_path(p.as_str(), "bin"),
            None => join_path(home, "go/bin"),
        },
    };
    let mut dirs = Vec::new();
    dirs.push(dir);
    assert(crate::order::texts(dirs@) =~= seq![go_bin_dir(opt_view(gobin), opt_view(gopath), home@)]);
    plan(dirs, "go", names("", "", 0))
}

// ── Homebrew ────────────────────────────────────────────────────────
/// Homebrew's prefix from the output of `brew --prefix` (`/opt/homebrew` when that failed).
pub open spec fn brew_prefix_of(out: Option<Seq<char>>) -> Seq<char> {
    trimmed(
        match out {
            Some(o) => o,
            None => "/opt/homebrew"@,
        },
    )
}

/// Homebrew's prefix.
pub fn brew_prefix(prefix_output: Option<String>) -> (r: String)
    ensures
        r@ == brew_prefix_of(opt_view(prefix_output)),
{
    match prefix_output {
        Some(o) => trim_str(o.as_str()),
        None => trim_str("/opt/homebrew"),
    }
}

/// The version that a resolved path inside the Cellar tells: `<formula> <version>` from
/// `<cellar><formula>/<version>/...`.
pub open spec fn brew_version(canonical: Seq<char>, cellar: Seq<char>) -> Option<Seq<char>> {
    if has_prefix(canonical, cellar) {
        let rest = canonical.subrange(cellar.len() as int, canonical.len() as int);
        match after_char(rest, '/') {
            Some(r2) => Some(before_char(rest, '/') + " "@ + before_char(r2, '/')),
            None => None,
        }
    } else {
        None
    }
}

/// The formula binary that an entry of Homebrew's bin directory stands for: a symlink into
/// the Cellar, other than `brew` itself or a hidden file.
pub open spec fn brew_entry(e: (Seq<char>, Seq<char>, Option<Seq<char>>, Option<Seq<char>>, bool), cellar: Seq<char>) -> Option<Fields> {
    if e.0 == "brew"@ || has_prefix(e.0, "."@) {
        None
    } else {
        match e.2 {
            Some(t) => if has_infix(t, "/Cellar/"@) || has_infix(t, "../Cellar/"@) {
                let canonical = match e.3 {
                    Some(c) => c,
                    None => e.1,
                };
                Some((e.0, e.1, "brew"@, brew_version(canonical, cellar)))
            } else {
                None
            },
            None => None,
        }
    }
}

/// The formula binaries among the entries of Homebrew's bin directory under `prefix`.
pub open spec fn brew_tools(prefix: Seq<char>, entries: Seq<BinEntry>) -> Seq<Fields> {
    collect_some(entries.map_values(|e: BinEntry| entry_view(e)), |e: (Seq<char>, Seq<char>, Option<Seq<char>>, Option<Seq<char>>, bool)| brew_entry(e, prefix + "/Cellar/"@))
}

fn brew_version_of(canonical: &str, cellar: &str) -> (r: Option<String>)
    ensures
        opt_view(r) == brew_version(canonical@, cellar@),
{
    let c = chars_of(canonical);
    let p = chars_of(cellar);
    if !starts_with(c.as_slice(), p.as_slice()) {
        return None;
    }
    let rest = slice_to_vec(c.as_slice(), p.len(), c.len());
    match after_char_vec(rest.as_slice(), '/') {
        Some(r2) => {
            let mut out = string_of(before_char_vec(rest.as_slice(), '/').as_slice());
            out.append(" ");
            out.append(string_of(before_char_vec(r2.as_slice(), '/').as_slice()).as_str());
            Some(out)
        },
        None => None,
    }
}

fn brew_line(e: &BinEntry, cellar: &str) -> (r: Option<ToolInfo>)
    ensures
        opt_fields(r) == brew_entry(entry_view(*e), cellar@),
{
    if str_eq(e.name.as_str(), "brew") || str_starts_with_dot(e.name.as_str()) {
        return None;
    }
    match &e.link_target {
        Some(t) => {
            if crate::text::str_contains(t.as_str(), "/Cellar/") || crate::text::str_contains(t.as_str(), "../Cellar/") {
                let version = match &e.canonical {
                    Some(c) => brew_version_of(c.as_str(), cellar),
                    None => brew_version_of(e.path.as_str(), cellar),
                };
                Some(make_tool(e.name.clone(), e.path.clone(), "brew", version))
            } else {
                None
            }
        },
        None => None,
    }
}

/// The formulae's binaries in Homebrew's bin directory, from its entries; `prefix` is
/// Homebrew's prefix.
pub fn list_brew(prefix: &str, entries: &[BinEntry]) -> (r: Vec<ToolInfo>)
    ensures
        tool_fields(r@) == brew_tools(prefix@, entries@),
        all_from(tool_fields(r@), "brew"@),
{
    let mut cellar = String::from_str(prefix);
    cellar.append("/Cellar/");
    let ghost f = |e: (Seq<char>, Seq<char>, Option<Seq<char>>, Option<Seq<char>>, bool)| brew_entry(e, prefix@ + "/Cellar/"@);
    let ghost s = entries@.map_values(|e: BinEntry| entry_view(e));
    let mut r: Vec<ToolInfo> = Vec::new();
    let mut i: usize = 0;
    while i < entries.len()
        invariant
            i <= entries@.len(),
            s == entries@.map_values(|e: BinEntry| entry_view(e)),
            cellar@ == prefix@ + "/Cellar/"@,
            f == |e: (Seq<char>, Seq<char>, Option<Seq<char>>, Option<Seq<char>>, bool)| brew_entry(e, prefix@ + "/Cellar/"@),
            tool_fields(r@) == collect_some(s.take(i as int), f),
        decreases entries@.len() - i,
    {
        proof {
            lemma_collect_some_step(s, f, i as int);
        }
        assert(s[i as int] == entry_view(entries@[i as int]));
        let t = brew_line(&entries[i], cellar.as_str());
        assert(f(s[i as int]) == opt_fields(t));
        push_some(&mut r, t);
        i = i + 1;
    }
    assert(s.take(i as int) =~= s);
    proof {
        lemma_collect_some_from(s, f, "brew"@);
    }
    r
}

// ── keeping what exists ─────────────────────────────────────────────
/// The records whose flag is set.
pub open spec fn kept(ts: Seq<Fields>, exists: Seq<bool>) -> Seq<Fields>
    decreases ts.len(),
{
    if ts.len() == 0 || exists.len() == 0 {
        seq![]
    } else {
        let rest = kept(ts.drop_last(), exists.drop_last());
        if exists.last() {
            rest.push(ts.last())
        } else {
            rest
        }
    }
}

/// The candidates whose paths exist, `exists[i]` telling whether `candidates[i].path` does.
pub fn keep_existing(candidates: Vec<ToolInfo>, exists: &[bool]) -> (r: Vec<ToolInfo>)
    requires
        candidates@.len() == exists@.len(),
    ensures
        tool_fields(r@) == kept(tool_fields(candidates@), exists@),
        forall|source: Seq<char>| all_from(tool_fields(candidates@), source) ==> #[trigger] all_from(tool_fields(r@), source),
{
    let ghost ts = tool_fields(candidates@);
    let n = candidates.len();
    let mut r: Vec<ToolInfo> = Vec::new();
    let mut i: usize = 0;
    while i < n
        invariant
            n == candidates@.len() == exists@.len(),
            ts == tool_fields(candidates@),
            i <= n,
            tool_fields(r@) == kept(ts.take(i as int), exists@.take(i as int)),
        decreases n - i,
    {
        assert(ts.take(i + 1).drop_last() =~= ts.take(i as int));
        assert(exists@.take(i + 1).drop_last() =~= exists@.take(i as int));
        if exists[i] {
            let ghost before = r@;
            r.push(candidates[i].copy());
            assert(tool_fields(r@) =~= tool_fields(before).push(ts[i as int]));
        }
        i = i + 1;
    }
    assert(ts.take(n as int) =~= ts);
    assert(exists@.take(n as int) =~= exists@);
    proof {
        assert forall|source: Seq<char>| all_from(tool_fields(candidates@), source) implies #[trigger] all_from(tool_fields(r@), source) by {
            lemma_kept_from(tool_fields(candidates@), exists@, source);
        }
    }
    r
}

// ── listings in JSON ────────────────────────────────────────────────
/// The items of a JSON array (nothing for any other value, or for text that did not parse).
pub open spec fn array_items(j: Option<Json>) -> Seq<Json> {
    match j {
        Some(Json::Array(a)) => a@,
        _ => seq![],
    }
}

/// The package that one item of a JSON package list stands for, its executable in `bin_dir`:
/// an item without a string `name` is passed over.
pub open spec fn json_package_entry(pkg: Json, bin_dir: Seq<char>, source: Seq<char>) -> Option<Fields> {
    match text_member(pkg, "name"@) {
        Some(n) => Some((n, joined(bin_dir, n), source, text_member(pkg, "version"@))),
        None => None,
    }
}

/// The packages of a JSON array of objects with `name` and `version` members, each installed
/// in `bin_dir`; items without a text `name` are skipped, anything but an array gives none.
pub open spec fn json_packages(j: Option<Json>, bin_dir: Seq<char>, source: Seq<char>) -> Seq<Fields> {
    collect_some(array_items(j), |p: Json| json_package_entry(p, bin_dir, source))
}

/// The packages of a parsed JSON package list, each installed in `bin_dir` and reported
/// with `source`.
pub fn json_packages_from(parsed: &Option<Json>, bin_dir: &str, source: &str) -> (r: Vec<ToolInfo>)
    ensures
        tool_fields(r@) == json_packages(*parsed, bin_dir@, source@),
        all_from(tool_fields(r@), source@),
{
    let mut r: Vec<ToolInfo> = Vec::new();
    match parsed {
        Some(Json::Array(items)) => {
            let ghost f = |p: Json| json_package_entry(p, bin_dir@, source@);
            let ghost s = items@;
            let mut i: usize = 0;
            while i < items.len()
                invariant
                    i <= items@.len(),
                    s == items@,
                    f == |p: Json| json_package_entry(p, bin_dir@, source@),
                    tool_fields(r@) == collect_some(s.take(i as int), f),
                decreases items@.len() - i,
            {
                proof {
                    lemma_collect_some_step(s, f, i as int);
                }
                let item = &items[i];
                let t = match text_field(item, "name") {
                    Some(n) => {
                        let path = join_path(bin_dir, n.as_str());
                        let version = text_field(item, "version");
                        Some(make_tool(n, path, source, version))
                    },
                    None => None,
                };
                assert(f(s[i as int]) == opt_fields(t));
                push_some(&mut r, t);
                i = i + 1;
            }
            assert(s.take(i as int) =~= s);
            proof {
                lemma_collect_some_from(s, f, source@);
            }
        },
        _ => {
            assert(array_items(*parsed) =~= seq![]);
        },
    }
    r
}

fn json_packages_of(text: &str, bin_dir: &str, source: &str) -> (r: Vec<ToolInfo>)
    ensures
        tool_fields(r@) == json_packages(json_parse(text@), bin_dir@, source@),
        all_from(tool_fields(r@), source@),
{
    let parsed = parse_json(text);
    json_packages_from(&parsed, bin_dir, source)
}

/// pip's user bin directory from the output of `python3 -m site --user-base`, or else
/// `~/Library/Python/3.12/bin`.
pub open spec fn pip_bin_dir(user_base_output: Option<Seq<char>>, home: Seq<char>) -> Seq<char> {
    match user_base_output {
        Some(p) => joined(trimmed(p), "bin"@),
        None => joined(home, "Library/Python/3.12/bin"@),
    }
}

/// The user packages whose executables may exist, from the output of
/// `pip3 list --user --format=json` and of `python3 -m site --user-base`; `keep_existing` then
/// keeps those whose path exists.
pub fn list_pip(output: &str, user_base_output: Option<String>, home: &str) -> (r: Vec<ToolInfo>)
    ensures
        tool_fields(r@) == json_packages(json_parse(output@), pip_bin_dir(opt_view(user_base_output), home@), "pip"@),
        all_from(tool_fields(r@), "pip"@),
{
    let bin_dir = match user_base_output {
        Some(p) => join_path(trim_str(p.as_str()).as_str(), "bin"),
        None => join_path(home, "Library/Python/3.12/bin"),
    };
    json_packages_of(output, bin_dir.as_str(), "pip")
}

/// conda's bin directory from the output of `conda info --base` (empty when that failed).
pub open spec fn conda_bin_dir(base_output: Option<Seq<char>>) -> Seq<char> {
    match base_output {
        Some(p) => joined(trimmed(p), "bin"@),
        None => seq![],
    }
}

/// The conda packages whose executables may exist, from the output of `conda list --json`
/// and of `conda info --base`; `keep_existing` then keeps those whose path exists.
pub fn list_conda(output: &str, base_output: Option<String>) -> (r: Vec<ToolInfo>)
    ensures
        tool_fields(r@) == json_packages(json_parse(output@), conda_bin_dir(opt_view(base_output)), "conda"@),
        all_from(tool_fields(r@), "conda"@),
{
    let bin_dir = match base_output {
        Some(p) => join_path(trim_str(p.as_str()).as_str(), "bin"),
        None => String::new(),
    };
    json_packages_of(output, bin_dir.as_str(), "conda")
}

/// The mise record of one installed version of the tool `name`.
pub open spec fn mise_version_entry(name: Seq<char>, entry: Json) -> Fields {
    (name, or_empty(text_member(entry, "install_path"@)), "mise"@, text_member(entry, "version"@))
}

/// The records of the versions of one tool (none when the value is not an array).
pub open spec fn mise_versions(name: Seq<char>, versions: Json) -> Seq<Fields> {
    match versions {
        Json::Array(a) => a@.map_values(|e: Json| mise_version_entry(name, e)),
        _ => seq![],
    }
}

/// The records of all members of the object that `mise list --current --json` prints.
pub open spec fn mise_members(m: Seq<(String, Json)>) -> Seq<Fields>
    decreases m.len(),
{
    if m.len() == 0 {
        seq![]
    } else {
        mise_members(m.drop_last()) + mise_versions(m.last().0@, m.last().1)
    }
}

/// The mise tools: for each member of the JSON object, one record per version in its array.
pub open spec fn mise_tools(j: Option<Json>) -> Seq<Fields> {
    match j {
        Some(Json::Object(m)) => mise_members(m@),
        _ => seq![],
    }
}

fn mise_versions_of(r: &mut Vec<ToolInfo>, name: &String, versions: &Json)
    ensures
        tool_fields(final(r)@) == tool_fields(old(r)@) + mise_versions(name@, *versions),
{
    match versions {
        Json::Array(a) => {
            let ghost start = tool_fields(r@);
            let mut i: usize = 0;
            while i < a.len()
                invariant
                    i <= a@.len(),
                    tool_fields(r@) == start + a@.take(i as int).map_values(|e: Json| mise_version_entry(name@, e)),
                decreases a@.len() - i,
            {
                let entry = &a[i];
                let version = text_field(entry, "version");
                let path = match text_field(entry, "install_path") {
                    Some(p) => p,
                    None => String::new(),
                };
                let ghost before = r@;
                r.push(make_tool(name.clone(), path, "mise", version));
                assert(tool_fields(r@) =~= tool_fields(before).push(mise_version_entry(name@, a@[i as int])));
                assert(a@.take(i + 1).map_values(|e: Json| mise_version_entry(name@, e)) =~= a@.take(i as int).map_values(|e: Json| mise_version_entry(name@, e)).push(mise_version_entry(name@, a@[i as int])));
                i = i + 1;
            }
            assert(a@.take(i as int) =~= a@);
        },
        _ => {
            assert(tool_fields(r@) + mise_versions(name@, *versions) =~= tool_fields(r@));
        },
    }
}

/// The tool versions that mise reports, from the output of `mise list --current --json`.
pub fn list_mise(output: &str) -> (r: Vec<ToolInfo>)
    ensures
        tool_fields(r@) == mise_tools(json_parse(output@)),
        all_from(tool_fields(r@), "mise"@),
{
    let parsed = parse_json(output);
    mise_tools_from(&parsed)
}

/// The tool versions of a parsed `mise list --current --json` output.
pub fn mise_tools_from(parsed: &Option<Json>) -> (r: Vec<ToolInfo>)
    ensures
        tool_fields(r@) == mise_tools(*parsed),
        all_from(tool_fields(r@), "mise"@),
{
    let mut r: Vec<ToolInfo> = Vec::new();
    match parsed {
        Some(Json::Object(m)) => {
            let mut i: usize = 0;
            while i < m.len()
                invariant
                    i <= m@.len(),
                    tool_fields(r@) == mise_members(m@.take(i as int)),
                decreases m@.len() - i,
            {
                assert(m@.take(i + 1).drop_last() =~= m@.take(i as int));
                mise_versions_of(&mut r, &m[i].0, &m[i].1);
                i = i + 1;
            }
            assert(m@.take(i as int) =~= m@);
            proof {
                lemma_mise_from(m@);
            }
        },
        _ => {
            assert(tool_fields(r@) =~= seq![]);
        },
    }
    r
}

// ── all managers ────────────────────────────────────────────────────
/// The order in which the package managers are scanned.
pub open spec fn manager_order() -> Seq<Seq<char>> {
    seq!["brew"@, "npm"@, "pnpm"@, "bun"@, "deno"@, "cargo"@, "go"@, "pipx"@, "uv"@, "pip"@, "gem"@,
        "composer"@, "dotnet"@, "nix"@, "macports"@, "conda"@, "mise"@, "gh-extension"@]
}

/// The package managers, in the order in which they are scanned.
pub fn managers() -> (r: Vec<&'static str>)
    ensures
        r@.map_values(|s: &'static str| s@) == manager_order(),
{
    let v: Vec<&'static str> = vec![
        "brew",
        "npm",
        "pnpm",
        "bun",
        "deno",
        "cargo",
        "go",
        "pipx",
        "uv",
        "pip",
        "gem",
        "composer",
        "dotnet",
        "nix",
        "macports",
        "conda",
        "mise",
        "gh-extension",
    ];
    assert(v@.map_values(|s: &'static str| s@) =~= manager_order());
    v
}

/// All sequences of `s` one after the other.
pub open spec fn concat_all(s: Seq<Seq<Fields>>) -> Seq<Fields>
    decreases s.len(),
{
    if s.len() == 0 {
        seq![]
    } else {
        concat_all(s.drop_last()) + s.last()
    }
}

/// All tools of all managers, each manager's tools in a block, the blocks in the order of
/// `per_manager`.
pub fn scan_all_quiet(per_manager: Vec<Vec<ToolInfo>>) -> (r: Vec<ToolInfo>)
    ensures
        tool_fields(r@) == concat_all(per_manager@.map_values(|v: Vec<ToolInfo>| tool_fields(v@))),
{
    let ghost blocks = per_manager@.map_values(|v: Vec<ToolInfo>| tool_fields(v@));
    let mut r: Vec<ToolInfo> = Vec::new();
    let mut i: usize = 0;
    while i < per_manager.len()
        invariant
            i <= per_manager@.len(),
            blocks == per_manager@.map_values(|v: Vec<ToolInfo>| tool_fields(v@)),
            tool_fields(r@) == concat_all(blocks.take(i as int)),
        decreases per_manager@.len() - i,
    {
        assert(blocks.take(i + 1).drop_last() =~= blocks.take(i as int));
        let block = &per_manager[i];
        let ghost start = tool_fields(r@);
        let mut k: usize = 0;
        while k < block.len()
            invariant
                k <= block@.len(),
                tool_fields(r@) == start + tool_fields(block@).take(k as int),
            decreases block@.len() - k,
        {
            let ghost before = r@;
            r.push(block[k].copy());
            assert(tool_fields(r@) =~= tool_fields(before).push(block@[k as int].fields()));
            assert(tool_fields(block@).take(k + 1) =~= tool_fields(block@).take(k as int).push(block@[k as int].fields()));
            k = k + 1;
        }
        assert(tool_fields(block@).take(k as int) =~= tool_fields(block@));
        assert(blocks[i as int] == tool_fields(block@));
        i = i + 1;
    }
    assert(blocks.take(i as int) =~= blocks);
    r
}

/// What is written when the scan of the manager `name` starts: `  scanning {name}...`.
pub open spec fn announce_text(name: Seq<char>) -> Seq<char> {
    "  scanning "@ + name + "..."@
}

/// What is written when a manager's scan has found `found` tools: ` {found} found` and a
/// line break.
pub open spec fn found_text(found: nat) -> Seq<char> {
    " "@ + decimal(found) + " found\n"@
}

/// The progress line of the manager `name` that found `found` tools:
/// `  scanning {name}... {found} found` and a line break.
pub open spec fn progress_line(name: Seq<char>, found: nat) -> Seq<char> {
    announce_text(name) + found_text(found)
}

/// The text written when the scan of the manager `name` starts.
pub fn scan_announce(name: &str) -> (r: String)
    ensures
        r@ == announce_text(name@),
{
    let mut out = String::from_str("  scanning ");
    out.append(name);
    out.append("...");
    out
}

/// The text written when a manager's scan has found `found` tools.
pub fn scan_found(found: usize) -> (r: String)
    ensures
        r@ == found_text(found as nat),
{
    let mut out = String::from_str(" ");
    out.append(string_of(decimal_chars(found).as_slice()).as_str());
    out.append(" found\n");
    out
}

/// The progress report of a scan: one progress line per manager, in scanning order.
pub open spec fn progress_report(names: Seq<Seq<char>>, counts: Seq<nat>) -> Seq<char>
    decreases counts.len(),
{
    if counts.len() == 0 {
        seq![]
    } else {
        progress_report(names, counts.drop_last()) + progress_line(
            names[counts.len() - 1],
            counts.last(),
        )
    }
}

/// The number of tools each manager reported.
pub open spec fn block_counts(per_manager: Seq<Vec<ToolInfo>>) -> Seq<nat> {
    per_manager.map_values(|v: Vec<ToolInfo>| v@.len())
}

/// A scan that reports its progress: the tools of `scan_all_quiet`, and the progress lines
/// of the managers in `managers()` order, one per block of `per_manager`.
pub fn scan_all(per_manager: Vec<Vec<ToolInfo>>) -> (r: (Vec<ToolInfo>, String))
    requires
        per_manager@.len() <= manager_order().len(),
    ensures
        tool_fields(r.0@) == concat_all(per_manager@.map_values(|v: Vec<ToolInfo>| tool_fields(v@))),
        r.1@ == progress_report(manager_order(), block_counts(per_manager@)),
{
    let names = managers();
    let mut report = String::new();
    let ghost counts = block_counts(per_manager@);
    let mut i: usize = 0;
    while i < per_manager.len()
        invariant
            i <= per_manager@.len(),
            per_manager@.len() <= manager_order().len(),
            names@.map_values(|s: &'static str| s@) == manager_order(),
            counts == block_counts(per_manager@),
            report@ == progress_report(manager_order(), counts.take(i as int)),
        decreases per_manager@.len() - i,
    {
        assert(counts.take(i + 1).drop_last() =~= counts.take(i as int));
        assert(names@[i as int]@ == manager_order()[i as int]);
        let ghost before = report@;
        let a = scan_announce(names[i]);
        let f = scan_found(per_manager[i].len());
        report.append(a.as_str());
        report.append(f.as_str());
        assert(report@ =~= before + progress_line(manager_order()[i as int], counts[i as int]));
        i = i + 1;
    }
    assert(counts.take(i as int) =~= counts);
    let tools = scan_all_quiet(per_manager);
    (tools, report)
}

} // verus!
