use wherearethey::detect::{
    detect_source, guess_source_from_path, lookup_binary, lookup_binary_fast, resolve_binary,
    version_from_output,
};

#[test]
fn guess_source_each_rule() {
    let cases = [
        ("/opt/homebrew/opt/rustup/bin/cargo", "rustup (cargo)"),
        ("/Users/me/rustup/bin/cargo", "rustup (cargo)"),
        ("/Users/me/.rustup/toolchains/stable/bin/cargo", "unknown"),
        ("/opt/homebrew/bin/ffmpeg", "brew"),
        ("/usr/local/Cellar/ffmpeg/7.1/bin/ffmpeg", "brew"),
        ("/usr/local/Homebrew/bin/brew", "brew"),
        ("/Users/me/.cargo/bin/rg", "cargo"),
        ("/Users/me/go/bin/gopls", "go"),
        ("/Users/me/.bun/bin/tool", "bun"),
        ("/Users/me/.bun/install/global/x", "bun"),
        ("/Users/me/.deno/bin/deployctl", "deno"),
        ("/Users/me/.nvm/versions/node/v20/bin/tsc", "npm (via nvm)"),
        ("/usr/local/lib/nodejs/bin/x", "npm (via nvm)"),
        ("/Users/me/.local/share/mise/installs/python/bin/x", "mise"),
        ("/Users/me/.asdf/shims/ruby", "asdf"),
        ("/Users/me/.nix-profile/bin/hello", "nix"),
        ("/nix/store/abc-hello/bin/hello", "nix"),
        ("/opt/local/bin/port", "macports"),
        ("/Users/me/.pipx/venvs/black/bin/black", "pipx"),
        ("/Users/me/Library/pipx/venvs/x/bin/x", "pipx"),
        ("/Users/me/.local/bin/thing", "pipx/uv/manual (~/.local/bin)"),
        ("/Users/me/Library/Python/3.12/bin/x", "pip"),
        ("/Users/me/.gem/ruby/bin/x", "gem"),
        ("/usr/lib/ruby/gems/3.0/bin/x", "gem"),
        ("/Users/me/.composer/vendor/bin/x", "composer"),
        ("/Users/me/.dotnet/tools/x", "dotnet"),
        ("/Users/me/.mint/bin/swiftlint", "mint"),
        ("/Users/me/.proto/bin/x", "proto"),
        ("/Users/me/.sdkman/candidates/java/bin/java", "sdkman"),
        ("/Users/me/.ghcup/bin/ghc", "ghcup"),
        ("/Users/me/.pkgx/bin/x", "pkgx"),
        ("/Users/me/miniforge3/bin/python", "conda"),
        ("/Users/me/miniconda3/bin/python", "conda"),
        ("/Users/me/anaconda3/bin/python", "conda"),
        ("/Library/Developer/CommandLineTools/usr/bin/git", "xcode-clt"),
        ("/usr/bin/ls", "macos-system"),
        ("/usr/binary/x", "macos-system"),
        ("/srv/tools/x", "unknown"),
        ("", "unknown"),
    ];
    for (path, source) in cases.iter() {
        assert_eq!(guess_source_from_path(path), *source, "{}", path);
    }
}

#[test]
fn guess_source_order_of_rules() {
    // brew wins over cargo when both occur
    assert_eq!(guess_source_from_path("/opt/homebrew/.cargo/bin/x"), "brew");
    // only a path that starts with /usr/bin is the system's
    assert_eq!(guess_source_from_path("/x/usr/bin/ls"), "unknown");
}

#[test]
fn detect_source_falls_back_to_the_resolved_path() {
    assert_eq!(detect_source("/opt/homebrew/bin/rg", "/somewhere/else"), "brew");
    assert_eq!(
        detect_source("/usr/local/bin/rg", "/opt/homebrew/Cellar/ripgrep/14/bin/rg"),
        "brew"
    );
    assert_eq!(detect_source("/usr/local/bin/x", "/usr/local/bin/x"), "unknown");
}

#[test]
fn resolve_binary_trims_which_output() {
    assert_eq!(resolve_binary(Some("/opt/homebrew/bin/rg\n".to_string())), Some("/opt/homebrew/bin/rg".to_string()));
    assert_eq!(resolve_binary(None), None);
}

#[test]
fn version_is_first_trimmed_line() {
    assert_eq!(version_from_output(Some("ffmpeg version 7.1.1\nbuilt with clang\n".to_string())), Some("ffmpeg version 7.1.1".to_string()));
    assert_eq!(version_from_output(Some("  rg 14.1.0  \r\n".to_string())), Some("rg 14.1.0".to_string()));
    assert_eq!(version_from_output(Some("\nsecond".to_string())), None);
    assert_eq!(version_from_output(Some("   ".to_string())), None);
    assert_eq!(version_from_output(None), None);
}

#[test]
fn lookup_of_a_brew_symlink() {
    let r = lookup_binary(
        "ffmpeg",
        "/opt/homebrew/bin/ffmpeg",
        Some("../Cellar/ffmpeg/7.1.1/bin/ffmpeg".to_string()),
        Some("/opt/homebrew/Cellar/ffmpeg/7.1.1/bin/ffmpeg".to_string()),
        Some("/opt/homebrew/Cellar/ffmpeg/7.1.1/bin/ffmpeg".to_string()),
        Some("ffmpeg 7.1.1\nmore".to_string()),
    );
    assert_eq!(r.binary, "ffmpeg");
    assert_eq!(r.resolved_path, "/opt/homebrew/bin/ffmpeg");
    assert_eq!(r.symlink_target, Some("/opt/homebrew/Cellar/ffmpeg/7.1.1/bin/ffmpeg".to_string()));
    assert_eq!(r.source, "brew");
    assert_eq!(r.version, Some("ffmpeg 7.1.1".to_string()));
}

#[test]
fn lookup_uses_the_target_when_the_path_is_unknown() {
    let r = lookup_binary_fast(
        "rg",
        "/usr/local/bin/rg",
        Some("/Users/me/.cargo/bin/rg".to_string()),
        None,
        None,
    );
    assert_eq!(r.symlink_target, Some("/Users/me/.cargo/bin/rg".to_string()));
    assert_eq!(r.source, "cargo");
    assert_eq!(r.version, None);
}

#[test]
fn lookup_without_symlink_uses_the_resolved_binary() {
    let r = lookup_binary(
        "tool",
        "/usr/local/bin/tool",
        None,
        None,
        Some("/Users/me/.deno/bin/tool".to_string()),
        None,
    );
    assert_eq!(r.symlink_target, None);
    assert_eq!(r.source, "deno");
    assert_eq!(r.version, None);
    let plain = lookup_binary_fast("tool", "/usr/local/bin/tool", None, None, None);
    assert_eq!(plain.source, "unknown");
}

#[test]
fn version_commands_in_order() {
    assert_eq!(wherearethey::detect::version_args(), vec!["--version", "-V", "version"]);
}
