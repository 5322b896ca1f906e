use std::path::Path;

use wherearethey::paths::{file_name, join_path, link_target_path};
use wherearethey::aliases::{resolve_alias, set_alias, AliasTable};
use wherearethey::text::{
    chars_of, decimal_chars, first_line_of, lines, str_contains, str_eq, str_starts_with,
    strip_trailing, trim_str,
};

fn text(v: &[char]) -> String {
    v.iter().collect()
}

const SAMPLES: [&str; 16] = [
    "",
    "/",
    "//",
    "a",
    "a/",
    "a//",
    "/usr/bin/ffmpeg",
    "/usr/bin/",
    "relative/path/rg",
    "/opt/homebrew/bin/..",
    "/opt/homebrew/bin/.",
    "./node",
    "../x",
    "/a/b/c///",
    "~/.cargo/bin/rg",
    "name with spaces",
];

#[test]
fn join_path_agrees_with_path_join() {
    for dir in SAMPLES.iter() {
        for name in SAMPLES.iter() {
            let expected = Path::new(dir).join(name).to_string_lossy().to_string();
            assert_eq!(join_path(dir, name), expected, "join {:?} {:?}", dir, name);
        }
    }
}

#[test]
fn file_name_agrees_with_path_file_name() {
    for p in SAMPLES.iter() {
        let expected = Path::new(p).file_name().map(|n| n.to_string_lossy().to_string());
        assert_eq!(file_name(p), expected, "file_name {:?}", p);
    }
}

#[test]
fn join_path_examples() {
    assert_eq!(join_path("/Users/me", ".cargo/bin"), "/Users/me/.cargo/bin");
    assert_eq!(join_path("/Users/me/", "go/bin"), "/Users/me/go/bin");
    assert_eq!(join_path("", "rg"), "rg");
    assert_eq!(join_path("/Users/me", "/abs"), "/abs");
}

#[test]
fn trim_agrees_with_str_trim() {
    let samples = ["", "  ", " a ", "\tversion 1.2\n", "\u{3000}x\u{85}", "a b", "\r\n"];
    for s in samples.iter() {
        assert_eq!(trim_str(s), s.trim().to_string(), "trim {:?}", s);
    }
}

#[test]
fn lines_agree_with_str_lines() {
    let samples = ["", "a", "a\n", "a\nb", "a\r\nb\r\n", "\n\n", "x\r", "one\n\ntwo\n"];
    for s in samples.iter() {
        let v = chars_of(s);
        let got: Vec<String> = lines(v.as_slice()).iter().map(|l| text(l.as_slice())).collect();
        let expected: Vec<String> = s.lines().map(|l| l.to_string()).collect();
        assert_eq!(got, expected, "lines {:?}", s);
        let first = text(first_line_of(v.as_slice()).as_slice());
        assert_eq!(first, s.lines().next().unwrap_or("").to_string());
    }
}

#[test]
fn strip_trailing_agrees_with_trim_end_matches() {
    let samples = ["ripgrep v14.1.0:", "x::", ":", "", "no colon"];
    for s in samples.iter() {
        let v = chars_of(s);
        let got = text(strip_trailing(v.as_slice(), ':').as_slice());
        assert_eq!(got, s.trim_end_matches(':').to_string());
    }
}

#[test]
fn comparisons() {
    assert!(str_eq("brew", "brew"));
    assert!(!str_eq("brew", "brews"));
    assert!(str_contains("/opt/homebrew/bin", "/homebrew/"));
    assert!(!str_contains("/opt/home", "/homebrew/"));
    assert!(str_contains("abc", ""));
    assert!(str_starts_with(".hidden", "."));
    assert!(!str_starts_with("visible", "."));
}

#[test]
fn decimal_digits() {
    for n in [0usize, 7, 10, 42, 1000, 987654321].iter() {
        let got = text(decimal_chars(*n).as_slice());
        assert_eq!(got, n.to_string());
    }
}

#[test]
fn friendly_names_are_matched_in_unicode_lower_case() {
    let mut t = AliasTable::new();
    set_alias(&mut t, "ecole-cli", "ÉCOLE");
    assert_eq!(resolve_alias(&t, "école"), Some("ecole-cli".to_string()));
    assert_eq!(resolve_alias(&t, "École"), Some("ecole-cli".to_string()));
    assert_eq!(resolve_alias(&t, "ecole"), None);
}

#[test]
fn texts_are_built_from_their_characters() {
    // trim and join build their results from characters
    assert_eq!(trim_str("  rg  "), "rg");
    assert_eq!(join_path("a", "b"), "a/b");
    assert_eq!(file_name("/x/ffmpeg"), Some("ffmpeg".to_string()));
}

#[test]
fn symlink_targets_are_taken_from_the_link_directory() {
    assert_eq!(
        link_target_path("/opt/homebrew/bin/ffmpeg", "../Cellar/ffmpeg/7.1.1/bin/ffmpeg"),
        "/opt/homebrew/bin/../Cellar/ffmpeg/7.1.1/bin/ffmpeg"
    );
    assert_eq!(link_target_path("/usr/local/bin/rg", "/Users/me/.cargo/bin/rg"), "/Users/me/.cargo/bin/rg");
    assert_eq!(link_target_path("/x", "y"), "/y");
    assert_eq!(link_target_path("x", "y"), "y");
}
