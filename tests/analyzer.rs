use cleanmymac_rs::analyzer::{format_bytes, keep_largest, StorageAnalyzer, StorageInfo};

#[test]
fn analyzer_settings() {
    let a = StorageAnalyzer::new();
    assert_eq!(a.max_depth, None);
    assert_eq!(a.top_n, 10);
    let a = a.with_max_depth(3).with_top_n(2);
    assert_eq!(a.max_depth, Some(3));
    assert_eq!(a.top_n, 2);
}

#[test]
fn record_files_and_dirs() {
    let a = StorageAnalyzer::new().with_top_n(2);
    let mut info = StorageInfo::empty();
    a.record_file(&mut info, "/d/a.TXT".to_string(), "a.TXT", 10);
    a.record_file(&mut info, "/d/b.txt".to_string(), "b.txt", 30);
    a.record_file(&mut info, "/d/c".to_string(), "c", 20);
    a.record_dir(&mut info);
    assert_eq!(info.total_size, 60);
    assert_eq!(info.file_count, 3);
    assert_eq!(info.dir_count, 1);
    assert_eq!(info.by_extension, vec![("txt".to_string(), 40)]);
    assert_eq!(info.largest_files, vec![("/d/b.txt".to_string(), 30), ("/d/c".to_string(), 20)]);
}

#[test]
fn analyze_multiple_combines() {
    let a = StorageAnalyzer::new().with_top_n(3);
    let mut one = StorageInfo::empty();
    a.record_file(&mut one, "/1/x.rs".to_string(), "x.rs", 5);
    a.record_file(&mut one, "/1/y.md".to_string(), "y.md", 50);
    let mut two = StorageInfo::empty();
    a.record_file(&mut two, "/2/z.rs".to_string(), "z.rs", 7);
    a.record_dir(&mut two);
    let all = a.analyze_multiple(vec![one, two]).unwrap();
    assert_eq!(all.total_size, 62);
    assert_eq!(all.file_count, 3);
    assert_eq!(all.dir_count, 1);
    let rs = all.by_extension.iter().find(|(k, _)| k == "rs").unwrap();
    assert_eq!(rs.1, 12);
    assert_eq!(all.largest_files[0].1, 50);
    assert_eq!(all.largest_files.len(), 3);
}

#[test]
fn analyze_multiple_reports_overflow() {
    let a = StorageAnalyzer::new();
    let mut one = StorageInfo::empty();
    a.record_file(&mut one, "/1/x".to_string(), "x", u64::MAX);
    let mut two = StorageInfo::empty();
    a.record_file(&mut two, "/2/y".to_string(), "y", 1);
    assert!(a.analyze_multiple(vec![one, two]).is_none());
    assert_eq!(a.analyze_multiple(vec![]).unwrap().total_size, 0);
}

#[test]
fn keep_largest_picks_top() {
    let v = vec![("a".to_string(), 1), ("b".to_string(), 9), ("c".to_string(), 5)];
    let r = keep_largest(v, 2);
    assert_eq!(r, vec![("b".to_string(), 9), ("c".to_string(), 5)]);
}

#[test]
fn bytes_for_people() {
    assert_eq!(format_bytes(512), "512 B");
    assert_eq!(format_bytes(1500), "1.5 KB");
    assert_ne!(format_bytes(2_000_000), "2000000");
}

#[test]
fn keep_largest_is_stable() {
    let v = vec![("a".to_string(), 3), ("b".to_string(), 7), ("c".to_string(), 3), ("d".to_string(), 3)];
    let r = keep_largest(v, 3);
    assert_eq!(r, vec![("b".to_string(), 7), ("a".to_string(), 3), ("c".to_string(), 3)]);
}

#[test]
fn small_byte_counts_are_exact() {
    assert_eq!(format_bytes(0), "0 B");
    assert_eq!(format_bytes(999), "999 B");
}
