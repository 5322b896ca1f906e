use std::collections::BTreeSet;

use wherearethey::aliases::{set_alias, AliasTable};
use wherearethey::output::render_matches;
use wherearethey::scan::{
    describe_match, get_all_path_binaries, lookup_target, path_dirs, unclaimed, unmanaged,
    wildcard_search,
};
use wherearethey::types::{LookupResult, ToolInfo};
use wherearethey::wildcard::{is_wildcard, wildcard_match};

fn strings(v: &[&str]) -> Vec<String> {
    v.iter().map(|s| s.to_string()).collect()
}

fn tool(name: &str, source: &str, version: Option<&str>) -> ToolInfo {
    ToolInfo {
        name: name.to_string(),
        path: format!("/x/{name}"),
        source: source.to_string(),
        version: version.map(|v| v.to_string()),
    }
}

fn result(binary: &str, source: &str, version: Option<&str>) -> LookupResult {
    LookupResult {
        binary: binary.to_string(),
        resolved_path: format!("/usr/local/bin/{binary}"),
        symlink_target: None,
        source: source.to_string(),
        version: version.map(|v| v.to_string()),
    }
}

#[test]
fn path_directories_skip_the_system_ones() {
    let path = "/opt/homebrew/bin:/usr/bin:/bin:/usr/sbin:/sbin:/Users/me/.cargo/bin::/Library/Developer/CommandLineTools/usr/bin:/usr/bin/extra";
    assert_eq!(
        path_dirs(path),
        strings(&["/opt/homebrew/bin", "/Users/me/.cargo/bin", "", "/usr/bin/extra"])
    );
    assert_eq!(path_dirs(""), strings(&[""]));
    assert_eq!(path_dirs("/usr/bin"), Vec::<String>::new());
}

#[test]
fn path_binaries_are_a_sorted_set_of_visible_names() {
    let names = strings(&["rg", ".DS_Store", "fd", "rg", "Zed", "ffmpeg", ".hidden"]);
    let r = get_all_path_binaries(&names);
    let expected: Vec<String> = names
        .iter()
        .filter(|n| !n.starts_with('.'))
        .cloned()
        .collect::<BTreeSet<String>>()
        .into_iter()
        .collect();
    assert_eq!(r, expected);
    assert_eq!(r, strings(&["Zed", "fd", "ffmpeg", "rg"]));
}

#[test]
fn unclaimed_binaries() {
    let binaries = strings(&["cargo", "fd", "huggingface-cli", "rg", "thing"]);
    let tools = vec![tool("rg", "cargo", None), tool("fd", "cargo", None), tool("other", "brew", None)];
    assert_eq!(unclaimed(&binaries, &tools), strings(&["cargo", "huggingface-cli", "thing"]));
    assert_eq!(unclaimed(&binaries, &[]), binaries);
}

#[test]
fn unmanaged_keeps_unknown_sources() {
    let results = vec![
        Some(result("cargo", "rustup (cargo)", None)),
        None,
        Some(result("huggingface-cli", "unknown", None)),
        Some(result("thing", "unknown", Some("1"))),
    ];
    let r = unmanaged(&results);
    assert_eq!(r.len(), 2);
    assert_eq!(r[0].binary, "huggingface-cli");
    assert_eq!(r[1].binary, "thing");
    assert_eq!(r[1].version, Some("1".to_string()));
}

#[test]
fn wildcard_patterns() {
    assert!(is_wildcard("*cli*"));
    assert!(is_wildcard("cargo-?"));
    assert!(!is_wildcard("ffmpeg"));
    assert!(wildcard_match("*cli*", "gemini-cli"));
    assert!(wildcard_match("*cli*", "cli"));
    assert!(!wildcard_match("*cli*", "clj"));
    assert!(wildcard_match("cargo-*", "cargo-watch"));
    assert!(!wildcard_match("cargo-*", "cargo"));
    assert!(wildcard_match("r?", "rg"));
    assert!(!wildcard_match("r?", "r"));
    assert!(!wildcard_match("r?", "rgg"));
    assert!(wildcard_match("*", ""));
    assert!(wildcard_match("", ""));
    assert!(!wildcard_match("", "a"));
    assert!(wildcard_match("a*b*c", "aXbYbZc"));
    assert!(!wildcard_match("a*b*c", "aXbYbZ"));
    assert!(wildcard_match("**", "anything"));
    assert!(wildcard_match("?*?", "ab"));
    assert!(!wildcard_match("?*?", "a"));
}

#[test]
fn wildcard_search_over_path_tools_and_aliases() {
    // wherearethey '*cli*'
    let binaries = strings(&["gnutls-cli", "huggingface-cli", "rg", "gemini-cli"]);
    let tools = vec![
        tool("gemini-cli", "npm", None),
        tool("cli-helper", "pipx", Some("1.0")),
        tool("ffmpeg", "brew", None),
    ];
    let mut aliases = AliasTable::new();
    set_alias(&mut aliases, "rg", "CLIgrep");
    set_alias(&mut aliases, "fd", "finder");
    let hits = wildcard_search("*cli*", &binaries, &tools, &aliases);
    assert_eq!(hits, strings(&["cli-helper", "gemini-cli", "gnutls-cli", "huggingface-cli", "rg"]));
    let hits = wildcard_search("*CLI*", &binaries, &tools, &aliases);
    assert_eq!(hits, strings(&["rg"]));
    let hits = wildcard_search("zzz*", &binaries, &tools, &aliases);
    assert!(hits.is_empty());
}

#[test]
fn describing_matches() {
    let tools = vec![tool("gemini-cli", "npm", None), tool("gemini-cli", "pnpm", Some("2")), tool("x", "pipx", Some("1.0"))];
    let d = describe_match("gnutls-cli", Some(result("gnutls-cli", "brew", Some("gnutls-cli 3.8.10"))), &tools);
    assert_eq!(d, Some(("gnutls-cli".to_string(), "brew".to_string(), Some("gnutls-cli 3.8.10".to_string()))));
    let d = describe_match("gemini-cli", None, &tools);
    assert_eq!(d, Some(("gemini-cli".to_string(), "npm".to_string(), None)));
    let d = describe_match("x", None, &tools);
    assert_eq!(d, Some(("x".to_string(), "pipx".to_string(), Some("1.0".to_string()))));
    assert_eq!(describe_match("nothing", None, &tools), None);
}

#[test]
fn search_and_listing_together() {
    let binaries = strings(&["gemini-cli"]);
    let tools = vec![tool("gemini-cli", "npm", None)];
    let hits = wildcard_search("*cli*", &binaries, &tools, &AliasTable::new());
    let ds: Vec<(String, String, Option<String>)> = hits
        .iter()
        .filter_map(|h| describe_match(h, None, &tools))
        .collect();
    let text = render_matches("*cli*", &ds);
    assert!(text.contains("Pattern \"*cli*\""));
    assert!(text.contains("1 matches"));
    assert!(text.contains("gemini-cli"));
}

#[test]
fn lookup_target_without_alias_is_the_name() {
    let t = AliasTable::new();
    assert_eq!(lookup_target(&t, "Gemini"), "Gemini");
}
