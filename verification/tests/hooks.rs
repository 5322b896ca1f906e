use wherearethey::hooks::{generate_zsh_hook, HOOK_HEAD, HOOK_TAIL};

fn wrapper<'a>(hook: &'a str, name: &str) -> &'a str {
    let start = hook.find(&format!("\n{name}() {{")).unwrap();
    let rest = &hook[start + 1..];
    let end = rest.find("\n}\n").unwrap();
    &rest[..end]
}

#[test]
fn hook_text_for_a_program_path() {
    for p in ["/opt/homebrew/bin/wherearethey", "wherearethey", "/path with space/w"].iter() {
        assert_eq!(generate_zsh_hook(p), format!("{HOOK_HEAD}{p}{HOOK_TAIL}"));
    }
    let h = generate_zsh_hook("/usr/local/bin/wherearethey");
    assert!(h.starts_with("# wherearethey — shell hooks for tracking installs\n"));
    assert!(h.contains("\n__wat_bin=\"/usr/local/bin/wherearethey\"\n"));
}

#[test]
fn every_wrapped_manager_logs_installs_and_uninstalls() {
    let h = generate_zsh_hook("w");
    let cases = [
        ("brew", "brew"),
        ("npm", "npm"),
        ("pnpm", "pnpm"),
        ("bun", "bun"),
        ("cargo", "cargo"),
        ("pip3", "pip"),
        ("pipx", "pipx"),
        ("uv", "uv"),
        ("gem", "gem"),
        ("deno", "deno"),
        ("composer", "composer"),
    ];
    for (name, source) in cases.iter() {
        let w = wrapper(&h, name);
        assert!(w.contains(&format!("command {name} \"$@\"")), "{}", name);
        assert!(w.contains(&format!("log {source} install \"${{pkgs[@]}}\"")), "{}", name);
        assert!(w.contains(&format!("log {source} uninstall \"${{pkgs[@]}}\"")), "{}", name);
        assert!(w.contains("return $exit_code"), "{}", name);
    }
    assert!(wrapper(&h, "go").contains("log go install \"${pkgs[@]}\""));
    assert!(h.contains("pip() { pip3 \"$@\"; }"));
}

#[test]
fn logging_needs_no_global_flag_and_no_package_argument() {
    let h = generate_zsh_hook("w");
    assert!(!h.contains("-g \""));
    assert!(!h.contains("--global"));
    assert!(!h.contains("-gt 0"));
    assert!(wrapper(&h, "deno").contains("uninstall)"));
}
