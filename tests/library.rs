use fkinstall::catalog::{find_entry, list_names, plan_install, search, CatalogEntry, InstallError};
use fkinstall::config::{config_value, default_config_text, Config, ConfigError};
use fkinstall::install::{dest_path, install_actions, FsAction, EXEC_MODE};
use fkinstall::resolve::{
    parse_repo_ref, releases_url, resolve, select_asset, select_release, Asset, Release,
    ResolveError,
};
use fkinstall::text::{chars_of, contains, str_contains};
use fkinstall::update::update_targets;

fn entry(name: &str, url: &str) -> CatalogEntry {
    CatalogEntry { name: name.to_string(), url: url.to_string() }
}

fn asset(name: &str) -> Asset {
    Asset { name: name.to_string(), download_url: format!("https://dl.example/{}", name) }
}

fn release(tag: &str, assets: &[&str]) -> Release {
    Release { tag: tag.to_string(), assets: assets.iter().map(|a| asset(a)).collect() }
}

#[test]
fn first_matching_release_is_chosen() {
    let rels = vec![
        release("v1-windows", &["tool"]),
        release("v1-linux", &["tool"]),
        release("v2-linux", &["tool"]),
    ];
    assert_eq!(select_release(&rels, "linux"), Some(1));
}

#[test]
fn release_tag_matched_case_insensitively() {
    let rels = vec![release("v3-Windows", &[]), release("V2-LINUX", &[])];
    assert_eq!(select_release(&rels, "linux"), Some(1));
    assert_eq!(select_release(&rels, "windows"), Some(0));
}

#[test]
fn no_release_for_platform() {
    let rels = vec![release("v1-windows", &["tool"]), release("v1-macos", &["tool"])];
    assert_eq!(select_release(&rels, "linux"), None);
    let empty: Vec<Release> = Vec::new();
    assert_eq!(select_release(&empty, "linux"), None);
}

#[test]
fn asset_match_is_exact() {
    let assets = vec![asset("tool"), asset("tool.exe")];
    assert_eq!(select_asset(&assets, "tool"), Some(0));
    assert_eq!(select_asset(&assets, "tool.exe"), Some(1));
    assert_eq!(select_asset(&assets, "Tool"), None);
    assert_eq!(select_asset(&assets, "too"), None);
}

#[test]
fn resolve_picks_asset_of_first_linux_release() {
    let rels = vec![
        release("v3-windows", &["tool.exe"]),
        release("v2-linux", &["tool", "tool.exe"]),
        release("v1-linux", &["tool"]),
    ];
    let r = resolve(&rels, "linux", "tool").unwrap();
    assert_eq!(r.asset_name, "tool");
    assert_eq!(r.download_url, "https://dl.example/tool");
}

#[test]
fn resolve_reports_distinct_errors() {
    let rels = vec![release("v2-linux", &["other"]), release("v1-linux", &["tool"])];
    assert!(matches!(resolve(&rels, "linux", "tool"), Err(ResolveError::NoMatchingAsset)));
    let rels = vec![release("v2-windows", &["tool"])];
    assert!(matches!(resolve(&rels, "linux", "tool"), Err(ResolveError::NoCompatibleRelease)));
}

#[test]
fn resolve_same_inputs_same_result() {
    let rels = vec![release("v1-linux", &["a", "tool"])];
    let a = resolve(&rels, "linux", "tool").unwrap();
    let b = resolve(&rels, "linux", "tool").unwrap();
    assert_eq!(a.download_url, b.download_url);
    assert_eq!(a.asset_name, b.asset_name);
}

#[test]
fn repo_ref_last_two_segments() {
    let r = parse_repo_ref("https://github.com/owner/repo").unwrap();
    assert_eq!(r.owner, "owner");
    assert_eq!(r.repo, "repo");
    let r = parse_repo_ref("https://github.com/owner/repo.git").unwrap();
    assert_eq!(r.owner, "owner");
    assert_eq!(r.repo, "repo");
    let r = parse_repo_ref("https://github.com/owner/repo.git.git").unwrap();
    assert_eq!(r.repo, "repo");
    let r = parse_repo_ref("owner/repo").unwrap();
    assert_eq!(r.owner, "owner");
    assert_eq!(r.repo, "repo");
}

#[test]
fn repo_ref_too_short() {
    assert!(parse_repo_ref("repo").is_none());
    assert!(parse_repo_ref("").is_none());
    assert!(parse_repo_ref("repo.git").is_none());
}

#[test]
fn releases_endpoint() {
    let r = parse_repo_ref("https://github.com/coobyk/fkinstall").unwrap();
    assert_eq!(releases_url(&r), "https://api.github.com/repos/coobyk/fkinstall/releases");
}

#[test]
fn search_by_substring() {
    let cat = vec![entry("foobar", "a/b"), entry("baz", "c/d")];
    assert_eq!(search(&cat, "foo"), vec!["foobar".to_string()]);
    assert_eq!(search(&cat, "a"), vec!["foobar".to_string(), "baz".to_string()]);
    assert!(search(&cat, "qux").is_empty());
}

#[test]
fn list_all_names() {
    let cat = vec![entry("foobar", "a/b"), entry("baz", "c/d")];
    assert_eq!(list_names(&cat), vec!["foobar".to_string(), "baz".to_string()]);
}

#[test]
fn lookup_by_exact_name() {
    let cat = vec![entry("foobar", "a/b"), entry("baz", "c/d"), entry("baz", "e/f")];
    assert_eq!(find_entry(&cat, "baz"), Some(1));
    assert_eq!(find_entry(&cat, "foo"), None);
}

#[test]
fn unknown_name_not_found() {
    let cat = vec![entry("foobar", "https://github.com/o/foobar")];
    assert!(matches!(plan_install(&cat, "nothere"), Err(InstallError::NotFound)));
}

#[test]
fn install_plan_for_known_name() {
    let cat = vec![entry("foobar", "https://github.com/o/foobar.git"), entry("bad", "bad")];
    let r = plan_install(&cat, "foobar").unwrap();
    assert_eq!(r.owner, "o");
    assert_eq!(r.repo, "foobar");
    assert!(matches!(plan_install(&cat, "bad"), Err(InstallError::InvalidReference)));
}

#[test]
fn existing_file_removed_before_write() {
    let plan = install_actions(true, true);
    assert_eq!(
        plan,
        vec![FsAction::RemoveExisting, FsAction::Download, FsAction::WriteFile, FsAction::SetMode(0o755)]
    );
    let plan = install_actions(false, false);
    assert_eq!(
        plan,
        vec![FsAction::CreateDirAll, FsAction::Download, FsAction::WriteFile, FsAction::SetMode(0o755)]
    );
    assert_eq!(EXEC_MODE, 0o755);
}

#[test]
fn install_plan_repeats() {
    // After one install the directory and file exist; the second plan is the
    // same whatever the first started from.
    assert_eq!(install_actions(true, true), install_actions(true, true));
    assert_eq!(*install_actions(false, true).last().unwrap(), FsAction::SetMode(0o755));
}

#[test]
fn destination_path() {
    assert_eq!(dest_path("/home/u/.dev/bin", "tool"), "/home/u/.dev/bin/tool");
}

#[test]
fn first_run_config_defaults() {
    let text = default_config_text();
    assert_eq!(text, "version = 1\nurl = https://coobyk.github.io/misc/fkinstall.json\nos = linux");
    let c = Config::from_text(&text).unwrap();
    assert_eq!(c.catalog_url, "https://coobyk.github.io/misc/fkinstall.json");
    assert_eq!(c.platform, "linux");
}

#[test]
fn config_keys_and_last_line_wins() {
    let text = "version = 1\nurl = a\nurl = b\nos = macos\n";
    assert_eq!(config_value(text, "url"), Some("b".to_string()));
    assert_eq!(config_value(text, "os"), Some("macos".to_string()));
    assert_eq!(config_value(text, "version"), Some("1".to_string()));
    assert_eq!(config_value(text, "missing"), None);
    assert_eq!(config_value("urls = x\nmy_url = y", "url"), None);
}

#[test]
fn config_without_url_is_error() {
    assert!(matches!(Config::from_text("version = 1\nos = linux"), Err(ConfigError::MissingCatalogUrl)));
    let c = Config::from_text("url = http://x/y.json").unwrap();
    assert_eq!(c.platform, "linux");
}

#[test]
fn sweep_skips_names_outside_catalog() {
    let cat = vec![entry("alpha", "o/alpha"), entry("beta", "o/beta")];
    let local = vec!["beta".to_string(), "mine".to_string(), "alpha".to_string()];
    assert_eq!(update_targets(&cat, &local), vec![1, 0]);
    let none: Vec<String> = vec!["x".to_string()];
    assert!(update_targets(&cat, &none).is_empty());
}

#[test]
fn substring_search_on_chars() {
    assert!(str_contains("v1-linux", "linux"));
    assert!(str_contains("abc", ""));
    assert!(!str_contains("lin", "linux"));
    assert!(contains(&chars_of("héllo"), &chars_of("él")));
}
