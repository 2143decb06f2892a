//! Caches with limits.

use commons_bot::commons_cache::{
    Cache, CommonsCacheStats, DiskCacheEntry, FileBytesCache, bounded_insert, disk_cache_overflows,
    disk_cache_path, disk_cache_total_after, file_bytes_cache_key, file_bytes_cache_max_bytes,
    file_disk_cache_max_bytes, oldest_first,
};
use commons_bot::models::FileHit;

#[test]
fn commons_bounded_insert_limits_cache_entries() {
    let mut cache = Cache::new();
    bounded_insert(&mut cache, "a".to_string(), 1, 2);
    bounded_insert(&mut cache, "b".to_string(), 2, 2);
    bounded_insert(&mut cache, "c".to_string(), 3, 2);

    assert_eq!(cache.len(), 2);
    assert_eq!(cache.get("c"), Some(&3));
}

#[test]
fn commons_cache_bounded_insert_limits_cache_entries() {
    let mut cache = Cache::new();
    bounded_insert(&mut cache, "a".to_string(), 1, 2);
    bounded_insert(&mut cache, "b".to_string(), 2, 2);
    bounded_insert(&mut cache, "c".to_string(), 3, 2);

    assert_eq!(cache.len(), 2);
    assert_eq!(cache.get("c"), Some(&3));
}

#[test]
fn commons_file_bytes_cache_skips_oversized_and_evicts_to_fit() {
    let mut cache = FileBytesCache::new(5);

    assert!(cache.insert("a".into(), b"123".to_vec()));
    assert!(cache.insert("b".into(), b"45".to_vec()));
    assert!(!cache.insert("huge".into(), b"123456".to_vec()));
    assert!(cache.insert("c".into(), b"abcde".to_vec()));

    assert_eq!(cache.total_bytes(), 5);
    assert_eq!(cache.get("c").map(|bytes| bytes.as_slice()), Some(&b"abcde"[..]));
    assert!(cache.get("huge").is_none());
}

#[test]
fn commons_cache_file_bytes_cache_skips_oversized_and_evicts_to_fit() {
    let mut cache = FileBytesCache::new(5);

    assert!(cache.insert("a".into(), b"123".to_vec()));
    assert!(cache.insert("b".into(), b"45".to_vec()));
    assert!(!cache.insert("huge".into(), b"123456".to_vec()));
    assert!(cache.insert("c".into(), b"abcde".to_vec()));

    assert_eq!(cache.total_bytes(), 5);
    assert_eq!(cache.get("c").map(|bytes| bytes.as_slice()), Some(&b"abcde"[..]));
    assert!(cache.get("huge").is_none());
}

#[test]
fn bounded_insert_keeps_the_limit() {
    let mut cache = Cache::new();
    for n in 0..10_u64 {
        bounded_insert(&mut cache, n.to_string(), n, 3);
        assert!(cache.len() <= 3);
        assert_eq!(cache.get(&n.to_string()), Some(&n));
    }
}

#[test]
fn bounded_insert_replaces_a_known_key_without_eviction() {
    let mut cache = Cache::new();
    bounded_insert(&mut cache, "a".to_string(), 1, 2);
    bounded_insert(&mut cache, "b".to_string(), 2, 2);
    bounded_insert(&mut cache, "a".to_string(), 3, 2);
    assert_eq!(cache.len(), 2);
    assert_eq!(cache.get("a"), Some(&3));
    assert_eq!(cache.get("b"), Some(&2));
}

#[test]
fn file_bytes_stay_within_the_budget() {
    let mut cache = FileBytesCache::new(10);
    for n in 0..20_usize {
        let kept = cache.insert(n.to_string(), vec![0; n]);
        assert_eq!(kept, n <= 10);
        assert!(cache.total_bytes() <= cache.max_bytes());
    }
    assert_eq!(cache.entries(), 1);
    assert_eq!(cache.get("10").map(|bytes| bytes.len()), Some(10));
}

#[test]
fn file_bytes_of_a_known_key_are_replaced() {
    let mut cache = FileBytesCache::new(8);
    assert!(cache.insert("a".into(), vec![1; 5]));
    assert!(cache.insert("a".into(), vec![2; 7]));
    assert_eq!(cache.entries(), 1);
    assert_eq!(cache.total_bytes(), 7);
    assert_eq!(cache.get("a"), Some(&vec![2; 7]));
}

#[test]
fn cache_budgets_come_from_settings() {
    let mb = 1024 * 1024;
    assert_eq!(file_bytes_cache_max_bytes(Some("3"), Some("3000")), 3 * mb);
    assert_eq!(file_bytes_cache_max_bytes(Some("x"), Some("3000")), 1000 * mb);
    assert_eq!(file_bytes_cache_max_bytes(None, Some("90")), 64 * mb);
    assert_eq!(file_bytes_cache_max_bytes(None, None), 512 * mb);
    assert_eq!(
        file_bytes_cache_max_bytes(Some("18446744073709551615"), None),
        usize::MAX
    );
    assert_eq!(file_disk_cache_max_bytes(Some("2")), 2 * 1024 * 1024);
}

#[test]
fn disk_paths_hold_the_digest_of_the_key() {
    let path = disk_cache_path("abc");
    assert_eq!(
        path,
        "/tmp/telegram-wikimedia-commons-bot-file-cache/ba7816bf8f01cfea414140de5dae2223b00361a396177a9cb410ff61f20015ad"
    );
    assert_ne!(path, disk_cache_path("abd"));
}

#[test]
fn file_bytes_keys_prefer_the_checksum() {
    let file = FileHit {
        sha1: Some("abc".into()),
        ..FileHit::default()
    };
    let with_sum = file_bytes_cache_key(&file, "https://a/b.jpg");
    let without = file_bytes_cache_key(&FileHit::default(), "https://a/b.jpg");
    assert!(with_sum.contains("abc"));
    assert!(without.contains("https://a/b.jpg"));
}

#[test]
fn oldest_files_leave_the_disk_first() {
    let entries = vec![
        DiskCacheEntry { path: "b".into(), size: 2, modified: 20 },
        DiskCacheEntry { path: "a".into(), size: 1, modified: 10 },
        DiskCacheEntry { path: "c".into(), size: 3, modified: 20 },
    ];
    let order: Vec<String> = oldest_first(&entries).into_iter().map(|e| e.path).collect();
    assert_eq!(order, vec!["a", "b", "c"]);
    assert!(disk_cache_overflows(6, 5, 10));
    assert!(!disk_cache_overflows(6, 4, 10));
    assert_eq!(disk_cache_total_after(6, 2, true), 4);
    assert_eq!(disk_cache_total_after(6, 2, false), 6);
}

#[test]
fn metadata_entries_are_added_up() {
    let stats = CommonsCacheStats {
        file_by_page_id_entries: 1,
        file_by_title_entries: 2,
        file_search_entries: 3,
        ..CommonsCacheStats::default()
    };
    assert_eq!(stats.ram_metadata_entries(), 6);
}
