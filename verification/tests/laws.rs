use wherearethey::detect::{detect_source, guess_source_from_path};
use wherearethey::paths::{file_name, join_path};
use wherearethey::scan::{unclaimed, unmanaged};
use wherearethey::types::{LookupResult, ToolInfo};
use wherearethey::wildcard::wildcard_match;

#[test]
fn star_matches_every_name() {
    for n in ["", "a", "gemini-cli", "*", "?"].iter() {
        assert!(wildcard_match("*", n));
    }
}

#[test]
fn plain_pattern_matches_itself_only() {
    let names = ["ffmpeg", "ffmpeg2", "ffmpe", "FFmpeg", ""];
    for n in names.iter() {
        assert_eq!(wildcard_match("ffmpeg", n), *n == "ffmpeg");
    }
}

#[test]
fn prefix_and_infix_patterns() {
    let names = ["cargo-watch", "cargo-", "cargo", "my-cargo-x", "cli", "gemini-cli-x"];
    for n in names.iter() {
        assert_eq!(wildcard_match("cargo-*", n), n.starts_with("cargo-"));
        assert_eq!(wildcard_match("*cli*", n), n.contains("cli"));
    }
}

#[test]
fn question_mark_is_one_character() {
    for n in ["", "a", "ab", "é"].iter() {
        assert_eq!(wildcard_match("?", n), n.chars().count() == 1);
    }
}

#[test]
fn joined_name_is_the_file_name() {
    for dir in ["/Users/me/.cargo/bin", "", "/", "rel/dir/"].iter() {
        for name in ["rg", "gemini-cli", ".hidden", "a b"].iter() {
            assert_eq!(file_name(&join_path(dir, name)), Some(name.to_string()));
        }
    }
}

#[test]
fn recognised_path_decides_the_source() {
    assert_eq!(detect_source("/Users/me/go/bin/x", "/opt/homebrew/Cellar/x"), "go");
    assert_eq!(
        detect_source("/srv/x", "/opt/homebrew/Cellar/x"),
        guess_source_from_path("/opt/homebrew/Cellar/x")
    );
    assert_eq!(guess_source_from_path("/opt/homebrew/rustup/bin/cargo"), "rustup (cargo)");
}

#[test]
fn unclaimed_is_exactly_the_unnamed_binaries() {
    let binaries: Vec<String> = ["a", "b", "c", "d"].iter().map(|s| s.to_string()).collect();
    let tools: Vec<ToolInfo> = ["b", "d", "e"]
        .iter()
        .map(|n| ToolInfo { name: n.to_string(), path: String::new(), source: "s".to_string(), version: None })
        .collect();
    let u = unclaimed(&binaries, &tools);
    for b in binaries.iter() {
        let named = tools.iter().any(|t| &t.name == b);
        assert_eq!(u.contains(b), !named);
    }
}

#[test]
fn unmanaged_results_are_unknown() {
    let mk = |b: &str, s: &str| LookupResult {
        binary: b.to_string(),
        resolved_path: String::new(),
        symlink_target: None,
        source: s.to_string(),
        version: None,
    };
    let results = vec![Some(mk("a", "brew")), Some(mk("b", "unknown")), None, Some(mk("c", "unknown"))];
    for r in unmanaged(&results).iter() {
        assert_eq!(r.source, "unknown");
    }
    assert_eq!(unmanaged(&results).len(), 2);
}
