use cleanmymac_rs::rules::devtools::{
    get_devtools_rules, CargoCacheRule, DockerCacheRule, NpmCacheRule, RubyCacheRule, VSCodeCacheRule,
};
use cleanmymac_rs::rules::docker::DockerRule;
use cleanmymac_rs::rules::heuristic::{dedup_by_path, HeuristicDetector, HeuristicRule};
use cleanmymac_rs::rules::devtools::CargoTargetRule;
use cleanmymac_rs::rules::linux::{get_linux_rules, AptCacheRule, SnapCacheRule, UserCacheRule};
use cleanmymac_rs::rules::macos::{get_macos_rules, MacOSCacheRule};
use cleanmymac_rs::rules::macos_apps::{get_macos_app_rules, AppLogsRule, AppSupportCacheRule};
use cleanmymac_rs::rules::misc::DsStoreRule;
use cleanmymac_rs::rules::trash::TrashRule;
use cleanmymac_rs::rules::{
    get_all_rules, get_rules_by_category, Category, CleanItem, CleanResult, CleanRule, Locations, Platform, RiskLevel,
    Rule,
};
use cleanmymac_rs::text::{contains_str, join};

fn home_only(home: &str) -> Locations {
    Locations { home: Some(home.to_string()), cache: None, gopath: None, flutter_root: None, pub_cache: None }
}

#[test]
fn rule_identity() {
    let r = NpmCacheRule;
    assert_eq!(r.name(), "npm Cache");
    assert_eq!(r.category(), Category::NodeJs);
    assert_eq!(r.risk_level(), RiskLevel::Low);
    assert_eq!(r.description(), "npm package download cache");
}

#[test]
fn scan_paths_join_home() {
    let paths = NpmCacheRule.scan_paths(&home_only("/home/u"));
    assert_eq!(paths, vec!["/home/u/.npm/_cacache".to_string(), "/home/u/.npm/_logs".to_string()]);
    let paths = NpmCacheRule.scan_paths(&home_only("/home/u/"));
    assert_eq!(paths[0], "/home/u/.npm/_cacache");
    let none = Locations { home: None, cache: None, gopath: None, flutter_root: None, pub_cache: None };
    assert!(NpmCacheRule.scan_paths(&none).is_empty());
    assert_eq!(AptCacheRule.scan_paths(&none), vec!["/var/cache/apt/archives".to_string()]);
}

#[test]
fn item_descriptions_follow_path() {
    let logs = NpmCacheRule.item_for("/h/.npm/_logs".to_string(), 5).unwrap();
    assert_eq!(logs.description, "npm logs");
    assert_eq!(logs.size, 5);
    let cache = NpmCacheRule.item_for("/h/.npm/_cacache".to_string(), 5).unwrap();
    assert_eq!(cache.description, "npm download cache");
    assert!(NpmCacheRule.item_for("/h/.npm/_cacache".to_string(), 0).is_none());
    let git = CargoCacheRule.item_for("/h/.cargo/git/checkouts".to_string(), 1).unwrap();
    assert_eq!(git.description, "Cargo git checkouts");
}

#[test]
fn item_thresholds_and_risk() {
    let mb = 1024 * 1024;
    assert!(RubyCacheRule.item_for("/h/.gem".to_string(), 100 * mb).is_none());
    let gem = RubyCacheRule.item_for("/h/.gem".to_string(), 100 * mb + 1).unwrap();
    assert_eq!(gem.risk_level, RiskLevel::Low);
    assert_eq!(gem.description, "Ruby gems cache");
    let ext = VSCodeCacheRule.item_for("/h/.vscode/extensions".to_string(), 20 * mb).unwrap();
    assert_eq!(ext.risk_level, RiskLevel::Medium);
    assert_eq!(ext.description, "VS Code extensions (consider cleaning unused)");
    let logs = VSCodeCacheRule.item_for("/h/Code/logs".to_string(), 20 * mb).unwrap();
    assert_eq!(logs.risk_level, RiskLevel::Low);
    assert_eq!(logs.description, "VS Code logs");
    assert_eq!(logs.category, Category::Other("IDE".to_string()));
}

#[test]
fn catalog_per_platform() {
    assert_eq!(get_devtools_rules().len(), 23);
    assert_eq!(get_linux_rules().len(), 7);
    assert_eq!(get_macos_rules().len(), 8);
    assert_eq!(get_macos_app_rules().len(), 4);
    assert_eq!(get_all_rules(Platform::Linux).len(), 7 + 23 + 4);
    assert_eq!(get_all_rules(Platform::MacOs).len(), 8 + 4 + 23 + 4);
    assert_eq!(get_all_rules(Platform::Other).len(), 23 + 4);
    let all = get_all_rules(Platform::Other);
    assert_eq!(all[0].name(), "npm Cache");
    assert_eq!(all[all.len() - 1].name(), "Heuristic Detection");
}

#[test]
fn rules_by_category_ignore_case() {
    let picked = get_rules_by_category(&vec!["node.js".to_string()], Platform::Other);
    let names: Vec<&str> = picked.iter().map(|r| r.name()).collect();
    assert_eq!(names, vec!["npm Cache", "Yarn Cache", "pnpm Store", "nvm Cache", "Bun Cache", "Deno Cache"]);
    let ide = get_rules_by_category(&vec!["IDE".to_string(), "RUST".to_string()], Platform::Other);
    assert_eq!(ide.len(), 6);
    assert!(get_rules_by_category(&vec!["nothing".to_string()], Platform::Other).is_empty());
    assert!(matches!(ide[0], Rule::CargoCache(_)));
}

#[test]
fn category_and_risk_labels() {
    assert_eq!(Category::NodeJs.label(), "Node.js");
    assert_eq!(Category::Brew.label(), "Homebrew");
    assert_eq!(Category::Other("IDE".to_string()).label(), "IDE");
    assert_eq!(RiskLevel::Medium.label(), "Medium");
    assert!(RiskLevel::Low < RiskLevel::High);
}

#[test]
fn clean_item_builders() {
    let item = CleanItem::new("/x".to_string(), 9, "d".to_string(), RiskLevel::High, Category::Go);
    assert_eq!(item.last_modified, None);
    let item = item.with_last_modified(1_700_000_000);
    assert_eq!(item.last_modified, Some(1_700_000_000));
    assert_eq!(item.size, 9);
}

#[test]
fn clean_result_merge() {
    let mut a = CleanResult { cleaned_count: 1, bytes_freed: 10, failed: vec![("/a".to_string(), "e".to_string())], cancelled: false };
    let b = CleanResult { cleaned_count: 2, bytes_freed: 5, failed: vec![("/b".to_string(), "f".to_string())], cancelled: true };
    a.merge(b);
    assert_eq!(a.cleaned_count, 3);
    assert_eq!(a.bytes_freed, 15);
    assert_eq!(a.failed.len(), 2);
    assert_eq!(a.failed[1].0, "/b");
    assert!(a.cancelled);
    let c = CleanResult::cancelled();
    assert!(c.cancelled);
    assert_eq!(c.cleaned_count, 0);
    let d = CleanResult::default();
    assert!(!d.cancelled);
}

#[test]
fn text_helpers() {
    assert_eq!(join("/a", "b"), "/a/b");
    assert_eq!(join("/a/", "b"), "/a/b");
    assert_eq!(join("", "b"), "b");
    assert!(contains_str("/x/_logs/y", "_logs"));
    assert!(!contains_str("/x/logs", "_logs"));
    assert!(contains_str("abc", ""));
    assert!(!contains_str("ab", "abc"));
}

#[test]
fn heuristic_names() {
    assert!(HeuristicRule::is_cache_name("MyCACHE"));
    assert!(HeuristicRule::is_cache_name("Temporary Items"));
    assert!(HeuristicRule::is_cache_name("tmpdir"));
    assert!(!HeuristicRule::is_cache_name("Documents"));
    assert!(HeuristicRule::is_temp_file("notes.BAK"));
    assert!(HeuristicRule::is_temp_file("swp"));
    assert!(!HeuristicRule::is_temp_file("main.rs"));
    assert!(!HeuristicRule::is_temp_file("archive.tmp.gz"));
}

#[test]
fn heuristic_staleness_and_items() {
    let rule = HeuristicRule::new(100, 30);
    let now = 100 * 86400;
    assert!(rule.is_stale(now - 30 * 86400 - 1, now));
    assert!(!rule.is_stale(now - 30 * 86400, now));
    let stale = rule.project_cache_item("/p/cache".to_string(), 100, true).unwrap();
    assert_eq!(stale.description, "Heuristically detected cache (stale)");
    assert_eq!(stale.risk_level, RiskLevel::Low);
    assert!(rule.project_cache_item("/p/cache".to_string(), 99, false).is_none());
    let home = rule.home_cache_item("/h/.cache".to_string(), 200).unwrap();
    assert_eq!(home.risk_level, RiskLevel::Medium);
    let d = HeuristicDetector::new(100, 7);
    assert_eq!(d.size_threshold, 100 * 1024 * 1024);
    let paths = rule.scan_paths(&home_only("/h"));
    assert_eq!(paths.len(), 8);
    assert_eq!(paths[1], "/h/Projects");
    assert_eq!(paths[7], "/h/src");
}

#[test]
fn docker_items_and_prune_args() {
    let images = DockerRule.dangling_images_item(2048, 12).unwrap();
    assert_eq!(images.description, "12 dangling images");
    assert_eq!(images.path, "Docker Dangling Imagess");
    assert_eq!(images.size, 2048);
    assert!(DockerRule.dangling_images_item(5, 0).is_none());
    let stopped = DockerRule.stopped_containers_item(3).unwrap();
    assert_eq!(stopped.description, "3 stopped containers");
    assert_eq!(stopped.size, 0);
    assert_eq!(DockerRule.prune_args("Docker Dangling Imagess"), Some(vec!["image", "prune", "-f"]));
    assert_eq!(DockerRule.prune_args("Docker Stopped Containers"), Some(vec!["container", "prune", "-f"]));
    assert_eq!(DockerRule.prune_args("/var/lib/docker"), None);
    assert!(DockerCacheRule.reclaimable_item(100 * 1024 * 1024).is_none());
    assert_eq!(DockerCacheRule.reclaimable_item(100 * 1024 * 1024 + 1).unwrap().path, "/var/lib/docker");
}

#[test]
fn heuristic_classification() {
    let d = HeuristicDetector::new(1, 30);
    assert!(d.classify("/x/Documents".to_string(), "Documents", 1 << 30, false).is_none());
    assert!(d.classify("/x/cache".to_string(), "cache", 1024, false).is_none());
    let c = d.classify("/x/Caches".to_string(), "Caches", 1 << 20, true).unwrap();
    assert_eq!(c.confidence_tenths, 9);
    assert!(c.is_stale);
    assert_eq!(c.reason, "Directory name 'Caches' matches cache pattern");
    let c = d.classify("/x/.gradle-cache".to_string(), ".gradle-cache", 1 << 20, false).unwrap();
    assert_eq!(c.confidence_tenths, 5);
}

#[test]
fn decimal_text() {
    let mut s = String::from("n=");
    cleanmymac_rs::text::push_decimal(&mut s, 0);
    assert_eq!(s, "n=0");
    let mut s = String::new();
    cleanmymac_rs::text::push_decimal(&mut s, 9071);
    assert_eq!(s, "9071");
}

#[test]
fn entry_scans_skip_and_describe() {
    let user = UserCacheRule.entry_scan();
    assert!(user.skips("pip-cache"));
    assert!(user.skips("golang"));
    assert!(!user.skips("thumbnails"));
    let item = user.item("/c/thumbnails".to_string(), "thumbnails", 11 * 1024 * 1024, RiskLevel::Low, Category::System).unwrap();
    assert_eq!(item.description, "Cache: thumbnails");
    assert!(user.item("/c/t".to_string(), "t", 10 * 1024 * 1024, RiskLevel::Low, Category::System).is_none());
    let mac = MacOSCacheRule.entry_scan();
    assert!(mac.skips("com.apple.Safari"));
    assert!(!mac.skips("org.com.apple.x"));
    let support = AppSupportCacheRule.entry_scan();
    assert_eq!(support.subpaths.len(), 6);
    let it = support.item("/s/Slack/Cache".to_string(), "Slack", 20 * 1024 * 1024, RiskLevel::Low, Category::MacApps).unwrap();
    assert_eq!(it.description, "Slack cache");
    assert_eq!(SnapCacheRule.entry_scan().subpaths, vec!["common/.cache"]);
}

#[test]
fn special_rule_helpers() {
    assert!(AptCacheRule::is_package("vim_9.0.deb"));
    assert!(!AptCacheRule::is_package("lock"));
    assert!(!AptCacheRule::is_package("x.DEB"));
    let apt = AptCacheRule.archive_item("/var/cache/apt/archives".to_string(), 4096, 17).unwrap();
    assert_eq!(apt.description, "APT cache (17 packages)");
    assert!(AptCacheRule.archive_item("/a".to_string(), 0, 0).is_none());
    assert!(CargoTargetRule::is_target_dir("target"));
    assert!(!CargoTargetRule::is_target_dir("targets"));
    let big = 51 * 1024 * 1024;
    assert_eq!(CargoTargetRule.build_item("/p/x/target".to_string(), Some("x"), big).unwrap().description, "Rust build: x");
    assert_eq!(CargoTargetRule.build_item("/target".to_string(), None, big).unwrap().description, "Rust build: unknown");
    assert!(CargoTargetRule.build_item("/p/x/target".to_string(), Some("x"), 50 * 1024 * 1024).is_none());
    assert_eq!(CargoTargetRule.search_dirs(&home_only("/h"))[0], "/h/Projects");
    assert!(DsStoreRule::is_ds_store(".DS_Store"));
    assert_eq!(DsStoreRule.target_dirs(&home_only("/h"))[6], "/h/Movies");
    assert_eq!(DsStoreRule.ds_store_item("/h/.DS_Store".to_string(), 6).description, "Folder view settings");
    assert_eq!(TrashRule.trash_dir(&home_only("/h"), Platform::Linux), Some("/h/.local/share/Trash/files".to_string()));
    assert_eq!(TrashRule.trash_dir(&home_only("/h"), Platform::MacOs), Some("/h/.Trash".to_string()));
    assert_eq!(TrashRule.trash_dir(&home_only("/h"), Platform::Other), None);
    assert_eq!(TrashRule.trash_item(3).unwrap().path, "System Trash");
    assert!(TrashRule.trash_item(0).is_none());
    assert_eq!(AppLogsRule.log_file_item("/l/a.log".to_string(), "a.log", 2 * 1024 * 1024).unwrap().description, "Log file: a.log");
}

#[test]
fn dedup_keeps_first_per_path_in_path_order() {
    let mk = |p: &str, d: &str| CleanItem::new(p.to_string(), 1, d.to_string(), RiskLevel::Low, Category::Heuristic);
    let items = vec![mk("/b", "first b"), mk("/a", "a"), mk("/b", "second b"), mk("/ab", "ab")];
    let r = dedup_by_path(items);
    let got: Vec<(&str, &str)> = r.iter().map(|i| (i.path.as_str(), i.description.as_str())).collect();
    assert_eq!(got, vec![("/a", "a"), ("/ab", "ab"), ("/b", "first b")]);
}

#[test]
fn heuristic_analyze_decides_staleness() {
    let d = HeuristicDetector::new(1, 30);
    let now = 1_000 * 86400;
    let stale = d.analyze("/x/cache".to_string(), "cache", 1 << 20, now - 31 * 86400, now).unwrap();
    assert!(stale.is_stale);
    assert_eq!(stale.confidence_tenths, 9);
    let fresh = d.analyze("/x/cache".to_string(), "cache", 1 << 20, now - 86400, now).unwrap();
    assert!(!fresh.is_stale);
    assert_eq!(fresh.confidence_tenths, 8);
    assert!(d.analyze("/x/docs".to_string(), "docs", 1 << 30, 0, now).is_none());
}
