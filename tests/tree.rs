use cleanmymac_rs::tree::{aggregate_sizes, ChildPlan, DiskEntry, TreeNode, TreemapBuilder};

fn file(name: &str, size: u64, depth: usize) -> TreeNode {
    TreeNode::new(format!("/root/{}", name), name.to_string(), size, false, depth)
}

#[test]
fn min_size_threshold_is_inclusive() {
    let builder = TreemapBuilder::new().min_size(100);
    let children = vec![file("below", 99, 1), file("exact", 100, 1)];
    let dir = builder.finish_dir("/root".to_string(), "root".to_string(), children, 0);
    assert_eq!(dir.children.len(), 1);
    assert_eq!(dir.children[0].name, "exact");
    assert_eq!(dir.size, 100);
}

#[test]
fn directory_size_is_sum_of_retained_children() {
    let builder = TreemapBuilder::new().min_size(10);
    let children = vec![file("a", 30, 1), file("b", 5, 1), file("c", 70, 1), file("d", 10, 1)];
    let dir = builder.finish_dir("/root".to_string(), "root".to_string(), children, 0);
    assert_eq!(dir.size, 110);
    let sizes: Vec<u64> = dir.children.iter().map(|c| c.size).collect();
    assert_eq!(sizes, vec![70, 30, 10]);
    assert!(dir.is_dir);
    assert_eq!(dir.depth, 0);
}

#[test]
fn children_are_sorted_largest_first() {
    let builder = TreemapBuilder::new().min_size(0);
    let children = vec![file("x", 1, 1), file("y", 3, 1), file("z", 2, 1), file("w", 3, 1)];
    let dir = builder.finish_dir("/r".to_string(), "r".to_string(), children, 0);
    let sizes: Vec<u64> = dir.children.iter().map(|c| c.size).collect();
    assert_eq!(sizes, vec![3, 3, 2, 1]);
    assert_eq!(dir.children[0].name, "y");
    assert_eq!(dir.children[1].name, "w");
}

#[test]
fn all_children_filtered_gives_empty_directory() {
    let builder = TreemapBuilder::new();
    let children = vec![file("small", 10, 3), file("tiny", 1, 3)];
    let dir = builder.finish_dir("/d".to_string(), "d".to_string(), children, 2);
    assert_eq!(dir.size, 0);
    assert!(dir.children.is_empty());
    assert!(dir.is_dir);
}

#[test]
fn nested_directories_keep_exact_sums() {
    let builder = TreemapBuilder::new().min_size(1);
    let inner = builder.finish_dir("/r/in".to_string(), "in".to_string(), vec![file("a", 4, 2), file("b", 6, 2)], 1);
    let outer = builder.finish_dir("/r".to_string(), "r".to_string(), vec![inner, file("c", 5, 1)], 0);
    assert_eq!(outer.size, 15);
    assert_eq!(outer.children[0].size, 10);
    assert_eq!(outer.children[0].children.len(), 2);
}

#[test]
fn builder_defaults_and_setters() {
    let b = TreemapBuilder::new();
    assert_eq!(b.max_depth, 5);
    assert_eq!(b.min_size, 1024 * 1024);
    assert!(b.parallel);
    let b = b.max_depth(2).min_size(7).parallel(false);
    assert_eq!(b.max_depth, 2);
    assert_eq!(b.min_size, 7);
    assert!(!b.parallel);
}

#[test]
fn child_plan_follows_depth_limit() {
    let b = TreemapBuilder::new().max_depth(2);
    assert!(matches!(b.plan_child(1, true), ChildPlan::Descend));
    assert!(matches!(b.plan_child(1, false), ChildPlan::Descend));
    assert!(matches!(b.plan_child(2, true), ChildPlan::Collapse));
    assert!(matches!(b.plan_child(3, false), ChildPlan::Leaf));
}

#[test]
fn forking_only_near_the_root() {
    let b = TreemapBuilder::new();
    assert!(b.forks_at(0));
    assert!(b.forks_at(1));
    assert!(!b.forks_at(2));
    assert!(!b.parallel(false).forks_at(0));
}

#[test]
fn retains_compares_inclusively() {
    let b = TreemapBuilder::new().min_size(50);
    assert!(!b.retains(49));
    assert!(b.retains(50));
}

#[test]
fn aggregate_sizes_sums_and_saturates() {
    assert_eq!(aggregate_sizes(&vec![]), 0);
    assert_eq!(aggregate_sizes(&vec![1, 2, 3]), 6);
    assert_eq!(aggregate_sizes(&vec![u64::MAX, 1, 2]), u64::MAX);
}

#[test]
fn new_node_has_no_children() {
    let n = TreeNode::new("/a/b.txt".to_string(), "b.txt".to_string(), 42, false, 3);
    assert_eq!(n.size, 42);
    assert!(n.children.is_empty());
    assert!(!n.is_dir);
    assert_eq!(n.depth, 3);
    assert_eq!(n.path, "/a/b.txt");
}

#[test]
fn percentage_of_parent() {
    let n = TreeNode::new("/a".to_string(), "a".to_string(), 1, false, 1);
    assert_eq!(n.percentage_hundredths(3), 3333);
    assert_eq!(n.percentage_hundredths(1), 10000);
    let z = TreeNode::new("/z".to_string(), "z".to_string(), 0, false, 1);
    assert_eq!(z.percentage_hundredths(0), 0);
}

#[test]
fn builder_default_matches_new() {
    let d = TreemapBuilder::default();
    assert_eq!(d.max_depth, 5);
    assert_eq!(d.min_size, 1_048_576);
    assert!(d.parallel);
}

#[test]
fn equal_sizes_keep_their_order() {
    let builder = TreemapBuilder::new().min_size(0);
    let children = vec![file("p", 2, 1), file("q", 5, 1), file("r", 2, 1), file("s", 5, 1)];
    let dir = builder.finish_dir("/t".to_string(), "t".to_string(), children, 0);
    let names: Vec<&str> = dir.children.iter().map(|c| c.name.as_str()).collect();
    assert_eq!(names, vec!["q", "s", "p", "r"]);
    assert!(dir.children.iter().all(|c| c.depth == dir.depth + 1));
}

#[test]
fn filtered_children_do_not_count_toward_the_sum() {
    let builder = TreemapBuilder::new().min_size(u64::MAX);
    let children = vec![file("huge", u64::MAX, 1), file("other", u64::MAX - 1, 1)];
    let dir = builder.finish_dir("/h".to_string(), "h".to_string(), children, 0);
    assert_eq!(dir.size, u64::MAX);
    assert_eq!(dir.children.len(), 1);
}

fn disk_file(path: &str, size: u64) -> DiskEntry {
    let name = path.rsplit('/').next().unwrap().to_string();
    DiskEntry { path: path.to_string(), name, is_dir: false, size, entries: None }
}

fn disk_dir(path: &str, size: u64, entries: Option<Vec<DiskEntry>>) -> DiskEntry {
    let name = path.rsplit('/').next().unwrap().to_string();
    DiskEntry { path: path.to_string(), name, is_dir: true, size, entries }
}

#[test]
fn build_keeps_exact_threshold_and_drops_below() {
    let m = 4096;
    let root = disk_dir("/r", 0, Some(vec![disk_file("/r/a", m - 1), disk_file("/r/b", m)]));
    let t = TreemapBuilder::new().min_size(m).build_tree(&root);
    assert_eq!(t.size, m);
    assert_eq!(t.children.len(), 1);
    assert_eq!(t.children[0].path, "/r/b");
    assert!(!t.children[0].is_dir);
}

#[test]
fn build_with_everything_filtered_is_empty() {
    let root = disk_dir("/r", 0, Some(vec![disk_file("/r/a", 1), disk_file("/r/b", 2)]));
    let t = TreemapBuilder::new().min_size(3).build_tree(&root);
    assert!(t.is_dir);
    assert_eq!(t.size, 0);
    assert!(t.children.is_empty());
}

#[test]
fn unreadable_sibling_does_not_affect_the_other() {
    let good = disk_dir("/r/good", 0, Some(vec![disk_file("/r/good/x", 30), disk_file("/r/good/y", 12)]));
    let bad = disk_dir("/r/bad", 0, None);
    let root = disk_dir("/r", 0, Some(vec![bad, good]));
    let t = TreemapBuilder::new().min_size(0).build_tree(&root);
    assert_eq!(t.children.len(), 1);
    let g = &t.children[0];
    assert_eq!(g.path, "/r/good");
    assert_eq!(g.size, 42);
    assert_eq!(g.children.len(), 2);
    assert_eq!(g.depth, 1);
    assert_eq!(t.size, 42);
}

#[test]
fn directories_past_the_depth_limit_collapse() {
    let deep = disk_dir("/r/d/e", 500, None);
    let d = disk_dir("/r/d", 0, Some(vec![deep, disk_file("/r/d/f", 7)]));
    let root = disk_dir("/r", 0, Some(vec![d]));
    let t = TreemapBuilder::new().min_size(0).max_depth(1).build_tree(&root);
    let d = &t.children[0];
    assert_eq!(d.size, 507);
    assert_eq!(d.children[0].path, "/r/d/e");
    assert!(d.children[0].is_dir);
    assert!(d.children[0].children.is_empty());
    assert_eq!(d.children[0].depth, 2);
}

#[test]
fn unreadable_root_is_an_empty_directory() {
    let t = TreemapBuilder::new().build_tree(&disk_dir("/gone", 0, None));
    assert!(t.is_dir);
    assert_eq!(t.size, 0);
    assert_eq!(t.path, "/gone");
}

#[test]
fn file_root_is_a_leaf_of_its_length() {
    let t = TreemapBuilder::new().build_tree(&disk_file("/x/f.bin", 12));
    assert!(!t.is_dir);
    assert_eq!(t.size, 12);
    assert!(t.children.is_empty());
    assert_eq!(t.depth, 0);
}

#[test]
fn build_is_the_same_with_or_without_forking() {
    let make = || {
        disk_dir("/r", 0, Some(vec![
            disk_dir("/r/a", 0, Some(vec![disk_file("/r/a/1", 5), disk_file("/r/a/2", 9)])),
            disk_file("/r/b", 14),
        ]))
    };
    let b = TreemapBuilder::new().min_size(1);
    let t1 = b.build_tree(&make());
    let t2 = TreemapBuilder::new().min_size(1).parallel(false).build_tree(&make());
    assert_eq!(t1.size, t2.size);
    let n1: Vec<(String, u64)> = t1.children.iter().map(|c| (c.path.clone(), c.size)).collect();
    let n2: Vec<(String, u64)> = t2.children.iter().map(|c| (c.path.clone(), c.size)).collect();
    assert_eq!(n1, n2);
    assert_eq!(n1, vec![("/r/a".to_string(), 14), ("/r/b".to_string(), 14)]);
}

#[test]
fn percentage_saturates() {
    let n = TreeNode::new("/a".to_string(), "a".to_string(), u64::MAX, false, 1);
    assert_eq!(n.percentage_hundredths(1), u64::MAX);
    assert_eq!(n.percentage_hundredths(u64::MAX), 10000);
}
