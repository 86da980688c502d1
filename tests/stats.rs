use cleanmymac_rs::stats::{analyze_extensions, extension, get_largest_items, tally_extensions};
use cleanmymac_rs::tree::{TreeNode, TreemapBuilder};

fn file(name: &str, size: u64) -> TreeNode {
    TreeNode::new(format!("/s/{}", name), name.to_string(), size, false, 1)
}

fn sample() -> TreeNode {
    let b = TreemapBuilder::new().min_size(0);
    b.finish_dir("/s".to_string(), "s".to_string(), vec![file("a.txt", 100), file("b.txt", 50), file("c.log", 10)], 0)
}

#[test]
fn extension_stats_scenario() {
    let stats = analyze_extensions(&sample());
    assert_eq!(stats.len(), 2);
    assert_eq!(stats[0].extension, "txt");
    assert_eq!(stats[0].size, 150);
    assert_eq!(stats[0].count, 2);
    assert_eq!(stats[0].total, 160);
    assert_eq!(stats[0].percentage_hundredths(), 9375);
    let pct = stats[0].size as f64 / stats[0].total as f64 * 100.0;
    assert!((pct - 93.75).abs() < 1e-9);
    assert_eq!(stats[1].extension, "log");
    assert_eq!(stats[1].size, 10);
    assert_eq!(stats[1].count, 1);
    assert_eq!(stats[1].percentage_hundredths(), 625);
}

#[test]
fn extensions_are_lowercased_and_missing_ones_grouped() {
    let b = TreemapBuilder::new().min_size(0);
    let root = b.finish_dir(
        "/s".to_string(),
        "s".to_string(),
        vec![file("A.TXT", 5), file("b.txt", 7), file("Makefile", 3), file(".bashrc", 1)],
        0,
    );
    let stats = analyze_extensions(&root);
    assert_eq!(stats.len(), 2);
    assert_eq!(stats[0].extension, "txt");
    assert_eq!(stats[0].size, 12);
    assert_eq!(stats[0].count, 2);
    assert_eq!(stats[1].extension, "(no ext)");
    assert_eq!(stats[1].size, 4);
    assert_eq!(stats[1].count, 2);
}

#[test]
fn extension_stats_ignore_directories() {
    let b = TreemapBuilder::new().min_size(0);
    let deep = TreeNode::new("/s/d.dir/x.rs".to_string(), "x.rs".to_string(), 9, false, 2);
    let inner = b.finish_dir("/s/d.dir".to_string(), "d.dir".to_string(), vec![deep], 1);
    let root = b.finish_dir("/s".to_string(), "s".to_string(), vec![inner], 0);
    let stats = analyze_extensions(&root);
    assert_eq!(stats.len(), 1);
    assert_eq!(stats[0].extension, "rs");
    assert_eq!(stats[0].total, 9);
}

#[test]
fn empty_tree_has_no_extension_stats() {
    let b = TreemapBuilder::new();
    let root = b.finish_dir("/e".to_string(), "e".to_string(), vec![], 0);
    assert!(analyze_extensions(&root).is_empty());
}

#[test]
fn extension_follows_last_dot() {
    assert_eq!(extension("a.tar.gz"), Some("gz".to_string()));
    assert_eq!(extension(".bashrc"), None);
    assert_eq!(extension("README"), None);
    assert_eq!(extension("x."), Some("".to_string()));
    assert_eq!(extension(".a.b"), Some("b".to_string()));
}

#[test]
fn largest_items_sorted_and_truncated() {
    let root = sample();
    let top = get_largest_items(&root, 2);
    assert_eq!(top.len(), 2);
    assert_eq!(top[0].size, 160);
    assert_eq!(top[0].name, "s");
    assert_eq!(top[1].size, 100);
    let all = get_largest_items(&root, 10);
    let sizes: Vec<u64> = all.iter().map(|n| n.size).collect();
    assert_eq!(sizes, vec![160, 100, 50, 10]);
    assert!(get_largest_items(&root, 0).is_empty());
}

#[test]
fn tally_of_given_keys() {
    let files = vec![
        (100, "txt".to_string()),
        (50, "txt".to_string()),
        (10, "log".to_string()),
        (0, "md".to_string()),
    ];
    let stats = tally_extensions(&files);
    assert_eq!(stats.len(), 3);
    assert_eq!((stats[0].extension.as_str(), stats[0].size, stats[0].count, stats[0].total), ("txt", 150, 2, 160));
    assert_eq!((stats[1].extension.as_str(), stats[1].size, stats[1].count), ("log", 10, 1));
    assert_eq!((stats[2].extension.as_str(), stats[2].size, stats[2].count), ("md", 0, 1));
    assert!(tally_extensions(&vec![]).is_empty());
}

#[test]
fn largest_items_ties_in_depth_first_order() {
    let b = TreemapBuilder::new().min_size(0);
    let root = b.finish_dir("/s".to_string(), "s".to_string(), vec![file("a", 4), file("b", 4), file("c", 4)], 0);
    let top = get_largest_items(&root, 3);
    let names: Vec<&str> = top.iter().map(|n| n.name.as_str()).collect();
    assert_eq!(names, vec!["s", "a", "b"]);
}
