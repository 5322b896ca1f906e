//! Which package manager a binary's path points to, and what a lookup of a binary reports.
use vstd::prelude::*;

use crate::text::{
    chars_of, contains, first_line, first_line_of, has_infix, has_prefix, starts_with, str_eq,
    string_of, trim_bounds, trim_str, trimmed, slice_to_vec,
};
use crate::types::{opt_view, LookupResult};

verus! {

/// The source that the path text `s` suggests; the first rule that applies decides.
pub open spec fn source_for_path(s: Seq<char>) -> Seq<char> {
    if has_infix(s, "/rustup"@) {
        "rustup (cargo)"@
    } else if has_infix(s, "/opt/homebrew/"@) || has_infix(s, "/usr/local/Cellar/"@) || has_infix(s, "/Homebrew/"@) {
        "brew"@
    } else if has_infix(s, "/.cargo/bin"@) {
        "cargo"@
    } else if has_infix(s, "/go/bin"@) {
        "go"@
    } else if has_infix(s, "/.bun/bin"@) || has_infix(s, "/.bun/install"@) {
        "bun"@
    } else if has_infix(s, "/.deno/bin"@) {
        "deno"@
    } else if has_infix(s, "/.nvm/"@) || has_infix(s, "/nodejs/"@) {
        "npm (via nvm)"@
    } else if has_infix(s, "/.local/share/mise/"@) {
        "mise"@
    } else if has_infix(s, "/.asdf/"@) {
        "asdf"@
    } else if has_infix(s, "/.nix-profile/"@) || has_infix(s, "/nix/store/"@) {
        "nix"@
    } else if has_infix(s, "/opt/local/"@) {
        "macports"@
    } else if has_infix(s, "/.pipx/"@) || has_infix(s, "/pipx/venvs/"@) {
        "pipx"@
    } else if has_infix(s, "/.local/bin"@) {
        "pipx/uv/manual (~/.local/bin)"@
    } else if has_infix(s, "/Library/Python/"@) {
        "pip"@
    } else if has_infix(s, "/.gem/"@) || has_infix(s, "/ruby/gems/"@) {
        "gem"@
    } else if has_infix(s, "/.composer/"@) {
        "composer"@
    } else if has_infix(s, "/.dotnet/tools"@) {
        "dotnet"@
    } else if has_infix(s, "/.mint/bin"@) {
        "mint"@
    } else if has_infix(s, "/.proto/"@) {
        "proto"@
    } else if has_infix(s, "/.sdkman/"@) {
        "sdkman"@
    } else if has_infix(s, "/.ghcup/"@) {
        "ghcup"@
    } else if has_infix(s, "/.pkgx/"@) {
        "pkgx"@
    } else if has_infix(s, "/miniforge"@) || has_infix(s, "/miniconda"@) || has_infix(s, "/anaconda"@) {
        "conda"@
    } else if has_infix(s, "/Library/Developer/CommandLineTools/"@) {
        "xcode-clt"@
    } else if has_prefix(s, "/usr/bin"@) {
        "macos-system"@
    } else {
        "unknown"@
    }
}

fn has(v: &Vec<char>, pat: &str) -> (r: bool)
    ensures
        r == has_infix(v@, pat@),
{
    let p = chars_of(pat);
    contains(v.as_slice(), p.as_slice())
}

/// The source that a binary's path suggests, from the places where package managers put
/// their binaries (`"unknown"` when none applies).
pub fn guess_source_from_path(path: &str) -> (r: &'static str)
    ensures
        r@ == source_for_path(path@),
{
    let v = chars_of(path);
    if has(&v, "/rustup") {
        "rustup (cargo)"
    } else if has(&v, "/opt/homebrew/") || has(&v, "/usr/local/Cellar/") || has(&v, "/Homebrew/") {
        "brew"
    } else if has(&v, "/.cargo/bin") {
        "cargo"
    } else if has(&v, "/go/bin") {
        "go"
    } else if has(&v, "/.bun/bin") || has(&v, "/.bun/install") {
        "bun"
    } else if has(&v, "/.deno/bin") {
        "deno"
    } else if has(&v, "/.nvm/") || has(&v, "/nodejs/") {
        "npm (via nvm)"
    } else if has(&v, "/.local/share/mise/") {
        "mise"
    } else if has(&v, "/.asdf/") {
        "asdf"
    } else if has(&v, "/.nix-profile/") || has(&v, "/nix/store/") {
        "nix"
    } else if has(&v, "/opt/local/") {
        "macports"
    } else if has(&v, "/.pipx/") || has(&v, "/pipx/venvs/") {
        "pipx"
    } else if has(&v, "/.local/bin") {
        "pipx/uv/manual (~/.local/bin)"
    } else if has(&v, "/Library/Python/") {
        "pip"
    } else if has(&v, "/.gem/") || has(&v, "/ruby/gems/") {
        "gem"
    } else if has(&v, "/.composer/") {
        "composer"
    } else if has(&v, "/.dotnet/tools") {
        "dotnet"
    } else if has(&v, "/.mint/bin") {
        "mint"
    } else if has(&v, "/.proto/") {
        "proto"
    } else if has(&v, "/.sdkman/") {
        "sdkman"
    } else if has(&v, "/.ghcup/") {
        "ghcup"
    } else if has(&v, "/.pkgx/") {
        "pkgx"
    } else if has(&v, "/miniforge") || has(&v, "/miniconda") || has(&v, "/anaconda") {
        "conda"
    } else if has(&v, "/Library/Developer/CommandLineTools/") {
        "xcode-clt"
    } else if starts_with(v.as_slice(), chars_of("/usr/bin").as_slice()) {
        "macos-system"
    } else {
        "unknown"
    }
}

/// The source of a binary: what its own path suggests, and when that is `"unknown"`, what
/// the fully resolved path of the file it stands for suggests.
pub open spec fn source_of(bin_path: Seq<char>, final_path: Seq<char>) -> Seq<char> {
    if source_for_path(bin_path) != "unknown"@ {
        source_for_path(bin_path)
    } else {
        source_for_path(final_path)
    }
}

/// The source of the binary at `bin_path`, with `final_path` the resolved path of the file
/// it stands for.
pub fn detect_source(bin_path: &str, final_path: &str) -> (r: &'static str)
    ensures
        r@ == source_of(bin_path@, final_path@),
{
    let first = guess_source_from_path(bin_path);
    if !str_eq(first, "unknown") {
        return first;
    }
    guess_source_from_path(final_path)
}

/// The trimmed text of an optional command output.
pub open spec fn trimmed_output(out: Option<Seq<char>>) -> Option<Seq<char>> {
    match out {
        Some(o) => Some(trimmed(o)),
        None => None,
    }
}

/// The path of a binary from what `which <name>` printed (`None` when it failed).
pub fn resolve_binary(which_output: Option<String>) -> (r: Option<String>)
    ensures
        opt_view(r) == trimmed_output(opt_view(which_output)),
{
    match which_output {
        Some(o) => Some(trim_str(o.as_str())),
        None => None,
    }
}

/// The arguments of the version commands, in the order in which they are tried: the output
/// of the first that succeeds is the one that `version_from_output` reads.
pub fn version_args() -> (r: Vec<&'static str>)
    ensures
        r@.map_values(|a: &'static str| a@) == seq!["--version"@, "-V"@, "version"@],
{
    let v: Vec<&'static str> = vec!["--version", "-V", "version"];
    assert(v@.map_values(|a: &'static str| a@) =~= seq!["--version"@, "-V"@, "version"@]);
    v
}

/// The version that a `--version` style output reports: its first line, trimmed, when that
/// is not empty.
pub open spec fn version_in(out: Option<Seq<char>>) -> Option<Seq<char>> {
    match out {
        Some(o) => if trimmed(first_line(o)).len() > 0 {
            Some(trimmed(first_line(o)))
        } else {
            None
        },
        None => None,
    }
}

/// The version from what a version command printed (`None` when every command failed).
pub fn version_from_output(out: Option<String>) -> (r: Option<String>)
    ensures
        opt_view(r) == version_in(opt_view(out)),
{
    match out {
        Some(o) => {
            let v = chars_of(o.as_str());
            let line = first_line_of(v.as_slice());
            let (lo, hi) = trim_bounds(line.as_slice());
            if lo < hi {
                let t = slice_to_vec(line.as_slice(), lo, hi);
                Some(string_of(t.as_slice()))
            } else {
                None
            }
        },
        None => None,
    }
}

/// The path whose source decides when the binary's own path is not recognised: the
/// resolved symlink target, or else the resolved binary path, each falling back to the
/// unresolved path when it could not be resolved.
pub open spec fn final_path_of(
    bin_path: Seq<char>,
    symlink_target: Option<Seq<char>>,
    canonical_target: Option<Seq<char>>,
    canonical_bin: Option<Seq<char>>,
) -> Seq<char> {
    match symlink_target {
        Some(t) => match canonical_target {
            Some(c) => c,
            None => t,
        },
        None => match canonical_bin {
            Some(c) => c,
            None => bin_path,
        },
    }
}

/// The symlink target as reported: resolved when it could be.
pub open spec fn reported_target(symlink_target: Option<Seq<char>>, canonical_target: Option<Seq<char>>) -> Option<Seq<char>> {
    match symlink_target {
        Some(t) => match canonical_target {
            Some(c) => Some(c),
            None => Some(t),
        },
        None => None,
    }
}

/// What a lookup reports of `name`, found at `bin_path`; `symlink_target` is where the
/// binary's symlink points (when it is one), `canonical_target` and `canonical_bin` the
/// fully resolved target and binary path (when they could be resolved).
pub open spec fn lookup_fields(
    name: Seq<char>,
    bin_path: Seq<char>,
    symlink_target: Option<Seq<char>>,
    canonical_target: Option<Seq<char>>,
    canonical_bin: Option<Seq<char>>,
    version: Option<Seq<char>>,
) -> (Seq<char>, Seq<char>, Option<Seq<char>>, Seq<char>, Option<Seq<char>>) {
    (
        name,
        bin_path,
        reported_target(symlink_target, canonical_target),
        source_of(bin_path, final_path_of(bin_path, symlink_target, canonical_target, canonical_bin)),
        version,
    )
}

fn build_lookup(
    name: &str,
    bin_path: &str,
    symlink_target: Option<String>,
    canonical_target: Option<String>,
    canonical_bin: Option<String>,
    version: Option<String>,
) -> (r: LookupResult)
    ensures
        r.fields() == lookup_fields(
            name@,
            bin_path@,
            opt_view(symlink_target),
            opt_view(canonical_target),
            opt_view(canonical_bin),
            opt_view(version),
        ),
{
    let final_path = match &symlink_target {
        Some(t) => match &canonical_target {
            Some(c) => c.clone(),
            None => t.clone(),
        },
        None => match canonical_bin {
            Some(c) => c,
            None => String::from_str(bin_path),
        },
    };
    let source = detect_source(bin_path, final_path.as_str());
    let reported = match symlink_target {
        Some(t) => match canonical_target {
            Some(c) => Some(c),
            None => Some(t),
        },
        None => None,
    };
    LookupResult {
        binary: String::from_str(name),
        resolved_path: String::from_str(bin_path),
        symlink_target: reported,
        source: String::from_str(source),
        version,
    }
}

/// What a full lookup of `name` reports, `version_output` being the output of the first
/// version command that succeeded.
pub fn lookup_binary(
    name: &str,
    bin_path: &str,
    symlink_target: Option<String>,
    canonical_target: Option<String>,
    canonical_bin: Option<String>,
    version_output: Option<String>,
) -> (r: LookupResult)
    ensures
        r.fields() == lookup_fields(
            name@,
            bin_path@,
            opt_view(symlink_target),
            opt_view(canonical_target),
            opt_view(canonical_bin),
            version_in(opt_view(version_output)),
        ),
{
    let version = version_from_output(version_output);
    build_lookup(name, bin_path, symlink_target, canonical_target, canonical_bin, version)
}

/// What a fast lookup of `name` reports: everything but the version, which it does not ask.
pub fn lookup_binary_fast(
    name: &str,
    bin_path: &str,
    symlink_target: Option<String>,
    canonical_target: Option<String>,
    canonical_bin: Option<String>,
) -> (r: LookupResult)
    ensures
        r.fields() == lookup_fields(
            name@,
            bin_path@,
            opt_view(symlink_target),
            opt_view(canonical_target),
            opt_view(canonical_bin),
            None,
        ),
{
    build_lookup(name, bin_path, symlink_target, canonical_target, canonical_bin, None)
}

} // verus!
