//! What each package manager's listing yields, stated line by line (or entry by entry) over
//! the text of its output: every line that names a tool gives that tool, and every tool
//! comes from such a line.
use vstd::prelude::*;

use crate::json::{text_member, Json};
use crate::managers::{
    after_first, bin_dir_tools, bin_entry, brew_entry, brew_tools, cargo_scan, cargo_tools, collect_some,
    entry_view, gem_bin_of, gem_candidates, gem_entry, gem_version, gh_entry, gh_ext_dir,
    gh_tools, json_package_entry, json_packages, lemma_collect_some_contains,
    lemma_collect_some_origin, macports_candidates, macports_entry, npm_entry, npm_tools,
    or_empty, pipx_entry, pipx_tools, pnpm_entry, pnpm_tools, uv_entry, uv_tools, BinEntry,
    Fields,
};
use crate::paths::{file_name_of, joined};
use crate::text::{after_char, before_char, has_infix, has_prefix, lines_of, trimmed};

verus! {

/// Every tool that the npm listing gives comes from a non-empty line after the first whose
/// last path component is its name, which is neither `npm` nor `corepack`; its path is npm's
/// bin directory, `/`, and its name.
pub proof fn law_npm_tools_come_from_lines(list_output: Seq<char>, bin_output: Option<Seq<char>>, x: Fields)
    requires
        npm_tools(list_output, bin_output).contains(x),
    ensures
        x.0 != "npm"@,
        x.0 != "corepack"@,
        x.1 == trimmed(or_empty(bin_output)) + "/"@ + x.0,
        x.2 == "npm"@,
        x.3 is None,
        exists|i: int|
            1 <= i < lines_of(list_output).len() && lines_of(list_output)[i].len() > 0
                && #[trigger] file_name_of(trimmed(lines_of(list_output)[i])) == Some(x.0),
{
    let ls = lines_of(list_output);
    let s = after_first(ls);
    let bin_dir = trimmed(or_empty(bin_output));
    let f = |l: Seq<char>| npm_entry(l, bin_dir);
    assert(npm_tools(list_output, bin_output) == collect_some(s, f));
    lemma_collect_some_origin(s, f, x);
    let i = choose|i: int| 0 <= i < s.len() && #[trigger] f(s[i]) == Some(x);
    assert(s[i] == ls[i + 1]);
}

/// Every non-empty line after the first of `pnpm list -g --parseable` whose last path
/// component is `pkg` gives the tool `pkg`, at the trimmed line's path, from pnpm.
pub proof fn law_pnpm_lists_every_package(list_output: Seq<char>, i: int, pkg: Seq<char>)
    requires
        1 <= i < lines_of(list_output).len(),
        lines_of(list_output)[i].len() > 0,
        file_name_of(trimmed(lines_of(list_output)[i])) == Some(pkg),
    ensures
        pnpm_tools(list_output).contains(
            (pkg, trimmed(lines_of(list_output)[i]), "pnpm"@, None::<Seq<char>>),
        ),
{
    let ls = lines_of(list_output);
    let s = after_first(ls);
    let f = |l: Seq<char>| pnpm_entry(l);
    assert(s[i - 1] == ls[i]);
    lemma_collect_some_contains(s, f, i - 1);
    assert(pnpm_tools(list_output) == collect_some(s, f));
}

/// Every non-empty line `<name> <version>` of `pipx list --short` gives the tool `name` in
/// `~/.local/bin`, from pipx, with the rest of the line after the first space as its
/// version (none when the line has no space).
pub proof fn law_pipx_lists_every_line(output: Seq<char>, home: Seq<char>, i: int)
    requires
        0 <= i < lines_of(output).len(),
        lines_of(output)[i].len() > 0,
    ensures
        pipx_tools(output, home).contains(
            (
                before_char(lines_of(output)[i], ' '),
                joined(joined(home, ".local/bin"@), before_char(lines_of(output)[i], ' ')),
                "pipx"@,
                after_char(lines_of(output)[i], ' '),
            ),
        ),
{
    let f = |l: Seq<char>| pipx_entry(l, joined(home, ".local/bin"@));
    lemma_collect_some_contains(lines_of(output), f, i);
    assert(pipx_tools(output, home) == collect_some(lines_of(output), f));
}

/// Every non-empty line of `uv tool list` that does not start with `-` gives the tool named
/// by its first word, in `~/.local/bin`, from uv; lines starting with `-` give none.
pub proof fn law_uv_lists_every_tool_line(output: Seq<char>, home: Seq<char>, i: int)
    requires
        0 <= i < lines_of(output).len(),
        lines_of(output)[i].len() > 0,
        !has_prefix(lines_of(output)[i], "-"@),
    ensures
        uv_tools(output, home).contains(
            (
                before_char(lines_of(output)[i], ' '),
                joined(joined(home, ".local/bin"@), before_char(lines_of(output)[i], ' ')),
                "uv"@,
                after_char(lines_of(output)[i], ' '),
            ),
        ),
{
    let f = |l: Seq<char>| uv_entry(l, joined(home, ".local/bin"@));
    lemma_collect_some_contains(lines_of(output), f, i);
    assert(uv_tools(output, home) == collect_some(lines_of(output), f));
}

/// Every non-empty line of `gem list` gives a candidate named by its first word, in the
/// gems' bin directory, from gem.
pub proof fn law_gem_lists_every_line(output: Seq<char>, gemdir_output: Option<Seq<char>>, i: int)
    requires
        0 <= i < lines_of(output).len(),
        lines_of(output)[i].len() > 0,
    ensures
        gem_candidates(output, gemdir_output).contains(
            (
                before_char(lines_of(output)[i], ' '),
                joined(gem_bin_of(gemdir_output), before_char(lines_of(output)[i], ' ')),
                "gem"@,
                gem_version(lines_of(output)[i]),
            ),
        ),
{
    let f = |l: Seq<char>| gem_entry(l, gem_bin_of(gemdir_output));
    lemma_collect_some_contains(lines_of(output), f, i);
    assert(gem_candidates(output, gemdir_output) == collect_some(lines_of(output), f));
}

/// Every non-empty line after the heading of `port installed` gives a candidate named by the
/// first word of the trimmed line, at `/opt/local/bin/<name>`, from macports.
pub proof fn law_macports_lists_every_port(output: Seq<char>, i: int)
    requires
        1 <= i < lines_of(output).len(),
        lines_of(output)[i].len() > 0,
    ensures
        exists|v: Option<Seq<char>>|
            #[trigger] macports_candidates(output).contains(
                (
                    before_char(trimmed(lines_of(output)[i]), ' '),
                    "/opt/local/bin/"@ + before_char(trimmed(lines_of(output)[i]), ' '),
                    "macports"@,
                    v,
                ),
            ),
{
    let ls = lines_of(output);
    let s = after_first(ls);
    let f = |l: Seq<char>| macports_entry(l);
    assert(s[i - 1] == ls[i]);
    lemma_collect_some_contains(s, f, i - 1);
    assert(macports_candidates(output) == collect_some(s, f));
    let x = f(s[i - 1]).unwrap();
    assert(macports_candidates(output).contains(x));
}

/// Every non-empty line of `gh extension list` gives the extension named by its first
/// tab-separated field, trimmed, in gh's extensions directory, from gh-extension.
pub proof fn law_gh_lists_every_line(output: Seq<char>, home: Seq<char>, i: int)
    requires
        0 <= i < lines_of(output).len(),
        lines_of(output)[i].len() > 0,
    ensures
        exists|v: Option<Seq<char>>|
            #[trigger] gh_tools(output, home).contains(
                (
                    trimmed(before_char(lines_of(output)[i], '\t')),
                    joined(gh_ext_dir(home), trimmed(before_char(lines_of(output)[i], '\t'))),
                    "gh-extension"@,
                    v,
                ),
            ),
{
    let f = |l: Seq<char>| gh_entry(l, gh_ext_dir(home));
    lemma_collect_some_contains(lines_of(output), f, i);
    assert(gh_tools(output, home) == collect_some(lines_of(output), f));
    let x = f(lines_of(output)[i]).unwrap();
    assert(gh_tools(output, home).contains(x));
}

/// Every entry of a bin directory that is a file or a symlink, is not hidden and is not one
/// of the names to skip gives a tool of its name and path, from the directory's source;
/// and every tool comes from such an entry.
pub proof fn law_bin_dir_lists_every_binary(
    entries: Seq<BinEntry>,
    source: Seq<char>,
    skip: Seq<Seq<char>>,
    i: int,
)
    requires
        0 <= i < entries.len(),
        entries[i].is_file,
        !has_prefix(entries[i].name@, "."@),
        !skip.contains(entries[i].name@),
    ensures
        bin_dir_tools(entries, source, skip).contains(
            (entries[i].name@, entries[i].path@, source, None::<Seq<char>>),
        ),
{
    let s = entries.map_values(|e: BinEntry| entry_view(e));
    let f = |e: (Seq<char>, Seq<char>, Option<Seq<char>>, Option<Seq<char>>, bool)| bin_entry(e, source, skip);
    assert(s[i] == entry_view(entries[i]));
    lemma_collect_some_contains(s, f, i);
    assert(bin_dir_tools(entries, source, skip) == collect_some(s, f));
}

/// Every entry of Homebrew's bin directory, other than `brew` itself and hidden files, that
/// is a symlink into the Cellar gives a formula binary of its name and path from brew.
pub proof fn law_brew_lists_every_formula_link(prefix: Seq<char>, entries: Seq<BinEntry>, i: int, t: String)
    requires
        0 <= i < entries.len(),
        entries[i].name@ != "brew"@,
        !has_prefix(entries[i].name@, "."@),
        entries[i].link_target == Some(t),
        has_infix(t@, "/Cellar/"@),
    ensures
        exists|v: Option<Seq<char>>|
            #[trigger] brew_tools(prefix, entries).contains(
                (entries[i].name@, entries[i].path@, "brew"@, v),
            ),
{
    let s = entries.map_values(|e: BinEntry| entry_view(e));
    let f = |e: (Seq<char>, Seq<char>, Option<Seq<char>>, Option<Seq<char>>, bool)| brew_entry(e, prefix + "/Cellar/"@);
    assert(s[i] == entry_view(entries[i]));
    lemma_collect_some_contains(s, f, i);
    assert(brew_tools(prefix, entries) == collect_some(s, f));
    let x = f(s[i]).unwrap();
    assert(brew_tools(prefix, entries).contains(x));
}

/// Every item of a JSON package list with a string `name` gives the package of that name in
/// `bin_dir`, from `source`, with its string `version` when it has one.
pub proof fn law_json_lists_every_named_package(items: Vec<Json>, bin_dir: Seq<char>, source: Seq<char>, i: int, n: Seq<char>)
    requires
        0 <= i < items@.len(),
        text_member(items@[i], "name"@) == Some(n),
    ensures
        json_packages(Some(Json::Array(items)), bin_dir, source).contains(
            (n, joined(bin_dir, n), source, text_member(items@[i], "version"@)),
        ),
{
    let f = |p: Json| json_package_entry(p, bin_dir, source);
    lemma_collect_some_contains(items@, f, i);
    assert(json_packages(Some(Json::Array(items)), bin_dir, source) == collect_some(items@, f));
}


/// Reading more lines of `cargo install --list` only adds binaries after those read so far.
proof fn lemma_cargo_prefix(ls: Seq<Seq<char>>, bin_dir: Seq<char>, j: int)
    requires
        0 <= j <= ls.len(),
    ensures
        cargo_scan(ls.take(j), bin_dir).0.len() <= cargo_scan(ls, bin_dir).0.len(),
        forall|k: int|
            0 <= k < cargo_scan(ls.take(j), bin_dir).0.len() ==> #[trigger] cargo_scan(ls, bin_dir).0[k]
                == cargo_scan(ls.take(j), bin_dir).0[k],
    decreases ls.len(),
{
    if j == ls.len() {
        assert(ls.take(j) =~= ls);
    } else {
        let d = ls.drop_last();
        assert(d.take(j) =~= ls.take(j));
        lemma_cargo_prefix(d, bin_dir, j);
    }
}

/// Every binary line of `cargo install --list` (indented by four spaces) gives the binary
/// named by the trimmed line, in `~/.cargo/bin`, from cargo.
pub proof fn law_cargo_lists_every_binary_line(output: Seq<char>, home: Seq<char>, i: int)
    requires
        0 <= i < lines_of(output).len(),
        has_prefix(lines_of(output)[i], "    "@),
    ensures
        exists|v: Option<Seq<char>>|
            #[trigger] cargo_tools(output, home).contains(
                (
                    trimmed(lines_of(output)[i]),
                    joined(joined(home, ".cargo/bin"@), trimmed(lines_of(output)[i])),
                    "cargo"@,
                    v,
                ),
            ),
{
    let ls = lines_of(output);
    let bd = joined(home, ".cargo/bin"@);
    let t = ls.take(i + 1);
    assert(t.drop_last() =~= ls.take(i));
    assert(t.last() == ls[i]);
    let l = ls[i];
    assert(has_prefix(l, " "@)) by {
        reveal_strlit(" ");
        reveal_strlit("    ");
        assert(l.len() >= 4);
        assert(l.subrange(0, 4)[0] == ' ');
        assert(l[0] == ' ');
        assert(l.subrange(0, 1) =~= " "@);
    }
    let prev = cargo_scan(ls.take(i), bd);
    let x = (trimmed(l), joined(bd, trimmed(l)), "cargo"@, prev.1);
    assert(cargo_scan(t, bd).0 == prev.0.push(x));
    lemma_cargo_prefix(ls, bd, i + 1);
    let n = prev.0.len() as int;
    assert(cargo_scan(t, bd).0[n] == x);
    assert(cargo_scan(ls, bd).0[n] == x);
    assert(cargo_tools(output, home).contains(x));
}

} // verus!
