use std::collections::BTreeMap;

use wherearethey::output::{
    render_all, render_history, render_lookup, render_matches, render_unmanaged, source_colour,
    BOLD, CYAN, DIM, GREEN, MAGENTA, RED, RESET, YELLOW,
};
use wherearethey::types::{InstallEvent, LookupResult, ToolInfo};

fn tool(name: &str, source: &str, version: Option<&str>) -> ToolInfo {
    ToolInfo {
        name: name.to_string(),
        path: format!("/bin/{name}"),
        source: source.to_string(),
        version: version.map(|v| v.to_string()),
    }
}

fn result(binary: &str, path: &str, target: Option<&str>, source: &str, version: Option<&str>) -> LookupResult {
    LookupResult {
        binary: binary.to_string(),
        resolved_path: path.to_string(),
        symlink_target: target.map(|t| t.to_string()),
        source: source.to_string(),
        version: version.map(|v| v.to_string()),
    }
}

// What the printing code writes, line by line, as an expected text.
fn expected_lookup(result: &LookupResult) -> String {
    let mut s = String::new();
    let colour = source_colour(&result.source);
    s += &format!("\n  {BOLD}{}{RESET}\n", result.binary);
    s += &format!("  {DIM}path:{RESET}    {}\n", result.resolved_path);
    if let Some(ref target) = result.symlink_target {
        s += &format!("  {DIM}target:{RESET}  {target}\n");
    }
    s += &format!("  {DIM}source:{RESET}  {colour}{}{RESET}\n", result.source);
    if let Some(ref ver) = result.version {
        s += &format!("  {DIM}version:{RESET} {ver}\n");
    }
    s += "\n";
    s
}

fn expected_all(tools: &[ToolInfo]) -> String {
    let mut s = String::new();
    let mut by_source: BTreeMap<String, Vec<&ToolInfo>> = BTreeMap::new();
    for tool in tools {
        by_source.entry(tool.source.clone()).or_default().push(tool);
    }
    for (source, tools) in &by_source {
        let colour = source_colour(source);
        s += &format!("\n  {colour}{BOLD}{source}{RESET} {DIM}({} tools){RESET}\n", tools.len());
        for tool in tools {
            let ver = tool.version.as_deref().unwrap_or("");
            if ver.is_empty() {
                s += &format!("    {}\n", tool.name);
            } else {
                s += &format!("    {} {DIM}{ver}{RESET}\n", tool.name);
            }
        }
    }
    s += "\n";
    s
}

fn expected_unmanaged(items: &[LookupResult]) -> String {
    if items.is_empty() {
        return format!("\n  {GREEN}No unmanaged binaries found. Everything is claimed.{RESET}\n\n");
    }
    let mut s = format!(
        "\n  {YELLOW}{BOLD}Unmanaged{RESET} {DIM}({} binaries not managed by any package manager){RESET}\n\n",
        items.len()
    );
    for item in items {
        let target_info = item
            .symlink_target
            .as_deref()
            .map(|t| format!(" {DIM}-> {t}{RESET}"))
            .unwrap_or_default();
        s += &format!("    {YELLOW}{}{RESET}  {DIM}{}{RESET}{target_info}\n", item.binary, item.resolved_path);
    }
    s += "\n";
    s
}

fn expected_history(history: &[InstallEvent]) -> String {
    let mut s = format!("\n  {BOLD}Install history{RESET} {DIM}({} events){RESET}\n\n", history.len());
    for event in history {
        let colour = source_colour(&event.source);
        let action_colour = if event.action == "uninstall" { RED } else { GREEN };
        s += &format!(
            "  {DIM}{}{RESET}  {action_colour}{:<10}{RESET} {colour}{:<10}{RESET} {}\n",
            event.timestamp,
            event.action,
            event.source,
            event.packages.join(", ")
        );
    }
    s += "\n";
    s
}

#[test]
fn colours_of_sources() {
    assert_eq!(source_colour("brew"), GREEN);
    assert_eq!(source_colour("cargo"), YELLOW);
    for s in ["npm", "pnpm", "bun"].iter() {
        assert_eq!(source_colour(s), RED);
    }
    assert_eq!(source_colour("go"), CYAN);
    for s in ["pipx", "uv", "pip"].iter() {
        assert_eq!(source_colour(s), MAGENTA);
    }
    assert_eq!(source_colour("macos-system"), DIM);
    assert_eq!(source_colour("xcode-clt"), DIM);
    assert_eq!(source_colour("unknown"), RESET);
    assert_eq!(source_colour("rustup (cargo)"), RESET);
}

#[test]
fn lookup_text_of_ffmpeg() {
    let r = result(
        "ffmpeg",
        "/opt/homebrew/bin/ffmpeg",
        Some("/opt/homebrew/Cellar/ffmpeg/7.1.1/bin/ffmpeg"),
        "brew",
        Some("ffmpeg 7.1.1"),
    );
    let text = render_lookup(&r);
    assert_eq!(text, expected_lookup(&r));
    assert_eq!(
        text,
        format!("\n  {BOLD}ffmpeg{RESET}\n  {DIM}path:{RESET}    /opt/homebrew/bin/ffmpeg\n  {DIM}target:{RESET}  /opt/homebrew/Cellar/ffmpeg/7.1.1/bin/ffmpeg\n  {DIM}source:{RESET}  {GREEN}brew{RESET}\n  {DIM}version:{RESET} ffmpeg 7.1.1\n\n")
    );
    let bare = result("x", "/usr/local/bin/x", None, "unknown", None);
    assert_eq!(render_lookup(&bare), expected_lookup(&bare));
}

#[test]
fn all_tools_grouped_by_source() {
    let tools = vec![
        tool("rg", "cargo", Some("ripgrep v14.1.0")),
        tool("ffmpeg", "brew", Some("ffmpeg 7.1.1")),
        tool("fd", "cargo", Some("")),
        tool("gopls", "go", None),
        tool("wget", "brew", None),
    ];
    let text = render_all(&tools);
    assert_eq!(text, expected_all(&tools));
    assert!(text.starts_with(&format!("\n  {GREEN}{BOLD}brew{RESET} {DIM}(2 tools){RESET}\n    ffmpeg {DIM}ffmpeg 7.1.1{RESET}\n    wget\n")));
    assert_eq!(render_all(&[]), "\n");
}

#[test]
fn all_tools_lists_each_once() {
    let tools = vec![
        tool("a", "z-src", None),
        tool("b", "a-src", None),
        tool("c", "z-src", None),
        tool("d", "m-src", None),
    ];
    let text = render_all(&tools);
    for t in tools.iter() {
        assert_eq!(text.matches(&format!("    {}\n", t.name)).count(), 1);
    }
    let a = text.find("a-src").unwrap();
    let m = text.find("m-src").unwrap();
    let z = text.find("z-src").unwrap();
    assert!(a < m && m < z);
}

#[test]
fn unmanaged_listing() {
    assert_eq!(render_unmanaged(&[]), expected_unmanaged(&[]));
    let items = vec![
        result("huggingface-cli", "/usr/local/bin/huggingface-cli", None, "unknown", None),
        result("thing", "/usr/local/bin/thing", Some("/srv/thing/bin/thing"), "unknown", None),
    ];
    let text = render_unmanaged(&items);
    assert_eq!(text, expected_unmanaged(&items));
    assert!(text.contains("(2 binaries not managed by any package manager)"));
}

#[test]
fn history_listing() {
    let events = vec![
        InstallEvent {
            timestamp: "2025-01-02 03:04:05".to_string(),
            source: "brew".to_string(),
            action: "install".to_string(),
            packages: vec!["ffmpeg".to_string(), "wget".to_string()],
        },
        InstallEvent {
            timestamp: "2025-01-03 00:00:00".to_string(),
            source: "npm-registry-long".to_string(),
            action: "uninstall".to_string(),
            packages: vec![],
        },
    ];
    let text = render_history(&events);
    assert_eq!(text, expected_history(&events));
    assert!(text.contains(&format!("{GREEN}install   {RESET} {GREEN}brew      {RESET} ffmpeg, wget\n")));
    assert!(text.contains(&format!("{RED}uninstall {RESET} {RESET}npm-registry-long{RESET} \n")));
}

#[test]
fn wildcard_matches_listing() {
    let ds = vec![
        ("gemini-cli".to_string(), "npm".to_string(), None),
        ("gnutls-cli".to_string(), "brew".to_string(), Some("gnutls-cli 3.8.10".to_string())),
    ];
    let text = render_matches("*cli*", &ds);
    assert_eq!(
        text,
        format!(
            "\n  {BOLD}Pattern \"*cli*\"{RESET} {DIM}— 2 matches{RESET}\n\n  {BOLD}gemini-cli{RESET}\n  {DIM}source:{RESET}  {RED}npm{RESET}\n\n  {BOLD}gnutls-cli{RESET}\n  {DIM}source:{RESET}  {GREEN}brew{RESET}\n  {DIM}version:{RESET} gnutls-cli 3.8.10\n\n"
        )
    );
}
