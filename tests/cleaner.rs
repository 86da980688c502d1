use cleanmymac_rs::cleaner::{dry_run_result, split_by_risk, tally_removals, Cleaner, ScanSummary};
use cleanmymac_rs::config::{CategoryConfig, Config};
use cleanmymac_rs::rules::{Category, CleanItem, RiskLevel};

fn item(path: &str, size: u64, risk: RiskLevel, category: Category) -> CleanItem {
    CleanItem::new(path.to_string(), size, "d".to_string(), risk, category)
}

#[test]
fn cleaner_settings() {
    let c = Cleaner::new();
    assert!(c.use_trash && c.confirm_high_risk && !c.dry_run);
    let c = c.use_trash(false).confirm_high_risk(false).dry_run(true);
    assert!(!c.use_trash && !c.confirm_high_risk && c.dry_run);
    let high = vec![item("/h", 1, RiskLevel::High, Category::System)];
    assert!(!c.asks_before(&high));
    assert!(Cleaner::new().asks_before(&high));
    assert!(!Cleaner::new().asks_before(&vec![]));
}

#[test]
fn split_keeps_order() {
    let items = vec![
        item("/a", 1, RiskLevel::Low, Category::Go),
        item("/b", 2, RiskLevel::High, Category::Go),
        item("/c", 3, RiskLevel::Medium, Category::Go),
        item("/d", 4, RiskLevel::High, Category::Go),
    ];
    let (high, normal) = split_by_risk(items);
    let hp: Vec<&str> = high.iter().map(|i| i.path.as_str()).collect();
    let np: Vec<&str> = normal.iter().map(|i| i.path.as_str()).collect();
    assert_eq!(hp, vec!["/b", "/d"]);
    assert_eq!(np, vec!["/a", "/c"]);
}

#[test]
fn dry_run_counts_everything() {
    let items = vec![item("/a", 10, RiskLevel::Low, Category::Go), item("/b", 32, RiskLevel::Low, Category::Go)];
    let r = dry_run_result(&items);
    assert_eq!(r.cleaned_count, 2);
    assert_eq!(r.bytes_freed, 42);
    assert!(r.failed.is_empty());
}

#[test]
fn summary_groups_by_category() {
    let items = vec![
        item("/a", 10, RiskLevel::Low, Category::Go),
        item("/b", 20, RiskLevel::Low, Category::Rust),
        item("/c", 30, RiskLevel::Low, Category::Go),
        item("/d", 1, RiskLevel::Low, Category::Other("IDE".to_string())),
    ];
    let s = ScanSummary::from_items(items);
    assert_eq!(s.total_items, 4);
    assert_eq!(s.total_size, 61);
    assert_eq!(s.by_category.len(), 3);
    assert_eq!(s.by_category[0].0, "Go");
    assert_eq!(s.by_category[0].1.len(), 2);
    assert_eq!(s.by_category[0].1[1].path, "/c");
    assert_eq!(s.by_category[1].0, "Rust");
    assert_eq!(s.by_category[2].0, "IDE");
}

#[test]
fn config_defaults() {
    let c = Config::default();
    assert!(c.general.use_trash);
    assert_eq!(c.general.parallel_threads, 0);
    assert_eq!(c.heuristic.size_threshold_mb, 100);
    assert_eq!(c.heuristic.stale_days, 30);
    assert!(c.risk.confirm_high_risk && !c.risk.confirm_medium_risk);
    assert!(c.ignore.paths.is_empty());
    assert_eq!(CategoryConfig::default().enabled, vec!["system", "brew", "xcode", "npm", "pip", "cargo", "docker"]);
}

#[test]
fn removals_are_tallied() {

    let items = vec![
        item("/a", 10, RiskLevel::Low, Category::Go),
        item("/b", 20, RiskLevel::Low, Category::Go),
        item("/c", 5, RiskLevel::Low, Category::Go),
    ];
    let r = tally_removals(&items, &vec![None, Some("denied".to_string()), None]);
    assert_eq!(r.cleaned_count, 2);
    assert_eq!(r.bytes_freed, 15);
    assert_eq!(r.failed, vec![("/b".to_string(), "denied".to_string())]);
    assert!(!r.cancelled);
}
