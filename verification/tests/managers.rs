use wherearethey::managers::{scan_announce, scan_found};
use wherearethey::managers::{
    brew_prefix, list_conda, list_gem, keep_existing, list_brew,
    list_bun, list_cargo, list_composer, list_deno, list_dotnet, list_gh_extensions, list_go,
    list_mise, list_nix, list_npm, list_pipx, list_pnpm, list_uv, list_macports,
    managers, list_pip, read_bin_dir, scan_all, scan_all_quiet, BinEntry,
};
use wherearethey::json::Json;
use wherearethey::managers::{json_packages_from, mise_tools_from};
use wherearethey::types::ToolInfo;

fn tool(name: &str, path: &str, source: &str, version: Option<&str>) -> ToolInfo {
    ToolInfo {
        name: name.to_string(),
        path: path.to_string(),
        source: source.to_string(),
        version: version.map(|v| v.to_string()),
    }
}

fn key(t: &ToolInfo) -> (String, String, String, Option<String>) {
    (t.name.clone(), t.path.clone(), t.source.clone(), t.version.clone())
}

fn keys(ts: &[ToolInfo]) -> Vec<(String, String, String, Option<String>)> {
    ts.iter().map(key).collect()
}

fn entry(name: &str, dir: &str, link: Option<&str>, canonical: Option<&str>, is_file: bool) -> BinEntry {
    BinEntry {
        name: name.to_string(),
        path: format!("{dir}/{name}"),
        link_target: link.map(|s| s.to_string()),
        canonical: canonical.map(|s| s.to_string()),
        is_file,
    }
}

#[test]
fn npm_global_packages() {
    let out = "/usr/local/lib\n/usr/local/lib/node_modules/@google/gemini-cli\n/usr/local/lib/node_modules/npm\n\n/usr/local/lib/node_modules/corepack\n  /usr/local/lib/node_modules/typescript  \n";
    let r = list_npm(out, Some("/usr/local/bin\n".to_string()));
    assert_eq!(
        keys(&r),
        keys(&[
            tool("gemini-cli", "/usr/local/bin/gemini-cli", "npm", None),
            tool("typescript", "/usr/local/bin/typescript", "npm", None),
        ])
    );
    let r = list_npm(out, None);
    assert_eq!(r[0].path, "/gemini-cli");
    assert_eq!(list_npm("", None).len(), 0);
}

#[test]
fn pnpm_global_packages() {
    let out = "/Users/me/Library/pnpm/global/5\n/Users/me/Library/pnpm/global/5/node_modules/prettier\n\n";
    let r = list_pnpm(out);
    assert_eq!(
        keys(&r),
        keys(&[tool("prettier", "/Users/me/Library/pnpm/global/5/node_modules/prettier", "pnpm", None)])
    );
}

#[test]
fn pipx_short_list() {
    let r = list_pipx("black 24.1.0\nhttpie 3.2.2\n\nruff\n", "/Users/me");
    assert_eq!(
        keys(&r),
        keys(&[
            tool("black", "/Users/me/.local/bin/black", "pipx", Some("24.1.0")),
            tool("httpie", "/Users/me/.local/bin/httpie", "pipx", Some("3.2.2")),
            tool("ruff", "/Users/me/.local/bin/ruff", "pipx", None),
        ])
    );
}

#[test]
fn uv_tool_list_skips_executable_lines() {
    let r = list_uv("ruff v0.4.1\n- ruff\nmypy v1.10 extra\n- mypy\n- dmypy\n", "/Users/me");
    assert_eq!(
        keys(&r),
        keys(&[
            tool("ruff", "/Users/me/.local/bin/ruff", "uv", Some("v0.4.1")),
            tool("mypy", "/Users/me/.local/bin/mypy", "uv", Some("v1.10 extra")),
        ])
    );
}

#[test]
fn gem_list_candidates_and_existence() {
    let out = "bundler (2.5.6, default: 2.4.1)\nrake (13.1.0)\nminitest\n\n";
    let c = list_gem(out, Some("/Users/me/.gem/ruby/3.3.0\n".to_string()));
    assert_eq!(
        keys(&c),
        keys(&[
            tool("bundler", "/Users/me/.gem/ruby/3.3.0/bin/bundler", "gem", Some("2.5.6, default: 2.4.1")),
            tool("rake", "/Users/me/.gem/ruby/3.3.0/bin/rake", "gem", Some("13.1.0")),
            tool("minitest", "/Users/me/.gem/ruby/3.3.0/bin/minitest", "gem", None),
        ])
    );
    let kept = keep_existing(c, &[true, false, true]);
    assert_eq!(keys(&kept).iter().map(|k| k.0.clone()).collect::<Vec<_>>(), vec!["bundler", "minitest"]);
    let c = list_gem("rake (13.1.0)\n", None);
    assert_eq!(c[0].path, "rake");
}

#[test]
fn macports_installed() {
    let out = "The following ports are currently installed:\n  wget @1.21.4_0 (active)\n  zlib @1.3.1_0 (active)  \n\n";
    let c = list_macports(out);
    assert_eq!(
        keys(&c),
        keys(&[
            tool("wget", "/opt/local/bin/wget", "macports", Some("@1.21.4_0 (active)")),
            tool("zlib", "/opt/local/bin/zlib", "macports", Some("@1.3.1_0 (active)")),
        ])
    );
    let kept = keep_existing(c, &[false, true]);
    assert_eq!(kept.len(), 1);
    assert_eq!(kept[0].name, "zlib");
}

#[test]
fn gh_extension_list() {
    let r = list_gh_extensions("gh dash\tdlvhdr/gh-dash\tv4.0.0\ngh-copilot \t github/gh-copilot \n\n", "/Users/me");
    assert_eq!(
        keys(&r),
        keys(&[
            tool("gh dash", "/Users/me/.local/share/gh/extensions/gh dash", "gh-extension", Some("dlvhdr/gh-dash")),
            tool("gh-copilot", "/Users/me/.local/share/gh/extensions/gh-copilot", "gh-extension", Some("github/gh-copilot")),
        ])
    );
}

#[test]
fn cargo_install_list() {
    let out = "ripgrep v14.1.0:\n    rg\nfd-find v9.0.0:\n    fd\n    fdfind\nstray\n  two spaces\n";
    let r = list_cargo(out, "/Users/me");
    assert_eq!(
        keys(&r),
        keys(&[
            tool("rg", "/Users/me/.cargo/bin/rg", "cargo", Some("ripgrep v14.1.0")),
            tool("fd", "/Users/me/.cargo/bin/fd", "cargo", Some("fd-find v9.0.0")),
            tool("fdfind", "/Users/me/.cargo/bin/fdfind", "cargo", Some("fd-find v9.0.0")),
        ])
    );
    let r = list_cargo("    orphan\n", "/h");
    assert_eq!(keys(&r), keys(&[tool("orphan", "/h/.cargo/bin/orphan", "cargo", None)]));
}

#[test]
fn bin_directory_plans() {
    let p = list_bun("/Users/me");
    assert_eq!(p.dirs, vec!["/Users/me/.bun/bin".to_string()]);
    assert_eq!(p.source, "bun");
    assert_eq!(p.skip, vec!["bun".to_string(), "bunx".to_string()]);
    let p = list_deno("/Users/me");
    assert_eq!(p.dirs, vec!["/Users/me/.deno/bin".to_string()]);
    assert_eq!(p.skip, vec!["deno".to_string()]);
    let p = list_dotnet("/Users/me");
    assert_eq!(p.dirs, vec!["/Users/me/.dotnet/tools".to_string()]);
    assert_eq!(p.skip, vec!["dotnet".to_string()]);
    let p = list_nix("/Users/me");
    assert_eq!(p.dirs, vec!["/Users/me/.nix-profile/bin".to_string()]);
    assert!(p.skip.is_empty());
    let p = list_composer("/Users/me");
    assert_eq!(
        p.dirs,
        vec!["/Users/me/.composer/vendor/bin".to_string(), "/Users/me/.config/composer/vendor/bin".to_string()]
    );
    assert_eq!(p.source, "composer");
}

#[test]
fn go_bin_directory() {
    assert_eq!(list_go(Some("/gobin".to_string()), Some("/gopath".to_string()), "/h").dirs, vec!["/gobin".to_string()]);
    assert_eq!(list_go(None, Some("/gopath".to_string()), "/h").dirs, vec!["/gopath/bin".to_string()]);
    assert_eq!(list_go(None, None, "/h").dirs, vec!["/h/go/bin".to_string()]);
    assert_eq!(list_go(None, None, "/h").source, "go");
}

#[test]
fn reading_a_bin_directory() {
    let plan = list_bun("/Users/me");
    let dir = "/Users/me/.bun/bin";
    let entries = vec![
        entry("bun", dir, None, None, true),
        entry("bunx", dir, Some("bun"), None, true),
        entry("serve", dir, Some("../install/global/serve"), None, true),
        entry(".hidden", dir, None, None, true),
        entry("subdir", dir, None, None, false),
        entry("tsx", dir, None, None, true),
    ];
    let r = read_bin_dir(&plan, &entries);
    assert_eq!(
        keys(&r),
        keys(&[
            tool("serve", "/Users/me/.bun/bin/serve", "bun", None),
            tool("tsx", "/Users/me/.bun/bin/tsx", "bun", None),
        ])
    );
}

#[test]
fn homebrew_formula_links() {
    assert_eq!(brew_prefix(Some("/opt/homebrew\n".to_string())), "/opt/homebrew");
    assert_eq!(brew_prefix(None), "/opt/homebrew");
    let dir = "/opt/homebrew/bin";
    let entries = vec![
        entry("brew", dir, Some("../Homebrew/bin/brew"), None, true),
        entry("ffmpeg", dir, Some("../Cellar/ffmpeg/7.1.1/bin/ffmpeg"), Some("/opt/homebrew/Cellar/ffmpeg/7.1.1/bin/ffmpeg"), true),
        entry("odd", dir, Some("/opt/homebrew/Cellar/odd"), Some("/opt/homebrew/Cellar/odd"), true),
        entry("cask", dir, Some("/Applications/X.app/bin/cask"), None, true),
        entry("plain", dir, None, None, true),
        entry(".keep", dir, Some("../Cellar/x/1/bin/x"), None, true),
        entry("gone", dir, Some("../Cellar/gone/1.0/bin/gone"), None, true),
    ];
    let r = list_brew("/opt/homebrew", &entries);
    assert_eq!(
        keys(&r),
        keys(&[
            tool("ffmpeg", "/opt/homebrew/bin/ffmpeg", "brew", Some("ffmpeg 7.1.1")),
            tool("odd", "/opt/homebrew/bin/odd", "brew", None),
            tool("gone", "/opt/homebrew/bin/gone", "brew", None),
        ])
    );
}

#[test]
fn pip_user_packages() {
    let out = "[{\"name\": \"httpie\", \"version\": \"3.2.2\"}, {\"name\": \"requests\"}, {\"version\": \"1\"}, 7]";
    let c = list_pip(out, Some("/Users/me/Library/Python/3.11\n".to_string()), "/Users/me");
    assert_eq!(
        keys(&c),
        keys(&[
            tool("httpie", "/Users/me/Library/Python/3.11/bin/httpie", "pip", Some("3.2.2")),
            tool("requests", "/Users/me/Library/Python/3.11/bin/requests", "pip", None),
        ])
    );
    let c = list_pip("[{\"name\": \"x\"}]", None, "/Users/me");
    assert_eq!(c[0].path, "/Users/me/Library/Python/3.12/bin/x");
    assert_eq!(list_pip("not json", None, "/h").len(), 0);
    assert_eq!(list_pip("{\"name\": \"x\"}", None, "/h").len(), 0);
}

#[test]
fn conda_packages() {
    let out = "[{\"name\": \"python\", \"version\": \"3.12.2\", \"channel\": \"conda-forge\"}]";
    let c = list_conda(out, Some("/Users/me/miniforge3\n".to_string()));
    assert_eq!(keys(&c), keys(&[tool("python", "/Users/me/miniforge3/bin/python", "conda", Some("3.12.2"))]));
    let c = list_conda(out, None);
    assert_eq!(c[0].path, "python");
    assert_eq!(keep_existing(c, &[false]).len(), 0);
}

#[test]
fn mise_current_tools() {
    let out = "{\"node\": [{\"version\": \"20.11.0\", \"install_path\": \"/Users/me/.local/share/mise/installs/node/20.11.0\"}], \"python\": [{\"version\": \"3.12.1\"}, {\"install_path\": \"/p\"}], \"odd\": 5}";
    let r = list_mise(out);
    assert_eq!(
        keys(&r),
        keys(&[
            tool("node", "/Users/me/.local/share/mise/installs/node/20.11.0", "mise", Some("20.11.0")),
            tool("python", "", "mise", Some("3.12.1")),
            tool("python", "/p", "mise", None),
        ])
    );
    assert_eq!(list_mise("[]").len(), 0);
    assert_eq!(list_mise("").len(), 0);
}

#[test]
fn manager_names_in_scanning_order() {
    assert_eq!(
        managers(),
        vec![
            "brew", "npm", "pnpm", "bun", "deno", "cargo", "go", "pipx", "uv", "pip", "gem",
            "composer", "dotnet", "nix", "macports", "conda", "mise", "gh-extension"
        ]
    );
}

#[test]
fn scanning_concatenates_the_managers_in_order() {
    let per = vec![
        vec![tool("ffmpeg", "/opt/homebrew/bin/ffmpeg", "brew", Some("ffmpeg 7.1.1"))],
        vec![],
        vec![tool("prettier", "/p", "pnpm", None), tool("tsc", "/t", "pnpm", None)],
    ];
    let quiet = scan_all_quiet(per.clone());
    assert_eq!(keys(&quiet).iter().map(|k| k.0.clone()).collect::<Vec<_>>(), vec!["ffmpeg", "prettier", "tsc"]);
    let (tools, report) = scan_all(per);
    assert_eq!(keys(&tools), keys(&quiet));
    assert_eq!(
        report,
        "  scanning brew... 1 found\n  scanning npm... 0 found\n  scanning pnpm... 2 found\n"
    );
}

#[test]
fn progress_pieces_make_the_report_lines() {
    assert_eq!(scan_announce("brew"), "  scanning brew...");
    assert_eq!(scan_found(12), " 12 found\n");
    let (_, report) = scan_all(vec![vec![]]);
    assert_eq!(report, format!("{}{}", scan_announce("brew"), scan_found(0)));
}

#[test]
fn packages_from_a_parsed_list() {
    let j = Some(Json::Array(vec![
        Json::Object(vec![("name".to_string(), Json::Str("x".to_string())), ("version".to_string(), Json::Str("1".to_string()))]),
        Json::Null,
    ]));
    assert_eq!(keys(&json_packages_from(&j, "/b", "pip")), keys(&[tool("x", "/b/x", "pip", Some("1"))]));
    assert_eq!(json_packages_from(&None, "/b", "pip").len(), 0);
}

#[test]
fn mise_from_a_parsed_object() {
    let j = Some(Json::Object(vec![(
        "node".to_string(),
        Json::Array(vec![Json::Object(vec![("version".to_string(), Json::Str("20".to_string()))])]),
    )]));
    assert_eq!(keys(&mise_tools_from(&j)), keys(&[tool("node", "", "mise", Some("20"))]));
    assert_eq!(mise_tools_from(&Some(Json::Array(vec![]))).len(), 0);
}

#[test]
fn every_lister_reports_its_own_source() {
    let home = "/h";
    let sets: Vec<(&str, Vec<ToolInfo>)> = vec![
        ("npm", list_npm("x\n/a/b\n/a/c\n", Some("/bin".to_string()))),
        ("pnpm", list_pnpm("x\n/a/b\n")),
        ("pipx", list_pipx("a 1\nb\n", home)),
        ("uv", list_uv("a v1\n", home)),
        ("gem", list_gem("a (1)\n", None)),
        ("macports", list_macports("h\n  a @1\n")),
        ("gh-extension", list_gh_extensions("a\tb\n", home)),
        ("cargo", list_cargo("p v1:\n    a\n", home)),
        ("mise", list_mise("{\"a\": [{}]}")),
        ("conda", list_conda("[{\"name\": \"a\"}]", None)),
    ];
    for (source, tools) in sets.iter() {
        assert!(!tools.is_empty(), "{}", source);
        for t in tools.iter() {
            assert_eq!(&t.source, source);
        }
    }
}
