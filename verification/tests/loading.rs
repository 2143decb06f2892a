//! Loading of files in batches.

use commons_bot::commons_cache::Cache;
use commons_bot::loading::{
    FileLoad, LoadKey, MemberCount, page_id_keys, remember_files, retry_uploader,
};
use commons_bot::models::FileHit;

fn file(page_id: u64) -> FileHit {
    FileHit {
        page_id,
        title: format!("File:{page_id}.jpg"),
        ..FileHit::default()
    }
}

fn ids(files: &[FileHit]) -> Vec<u64> {
    files.iter().map(|file| file.page_id).collect()
}

#[test]
fn remembered_files_stay_under_their_keys() {
    let mut by_id = Cache::new();
    remember_files(&mut by_id, LoadKey::PageId, &vec![file(1), file(2), file(0)]);
    assert_eq!(by_id.get("1").map(|f| f.page_id), Some(1));
    assert_eq!(by_id.get("2").map(|f| f.page_id), Some(2));
    assert!(by_id.get("0").is_none());

    let mut by_title = Cache::new();
    remember_files(&mut by_title, LoadKey::Title, &vec![file(1)]);
    assert_eq!(by_title.get("File:1.jpg").map(|f| f.page_id), Some(1));
}

#[test]
fn files_come_in_the_order_asked_for() {
    let mut cache = Cache::new();
    remember_files(&mut cache, LoadKey::PageId, &vec![file(2)]);
    let keys = page_id_keys(&vec![3, 2, 1, 9]);
    let mut load = FileLoad::start(LoadKey::PageId, keys, &cache);
    assert!(load.wants_batch());
    let request = load.batch_request();
    assert!(request.contains(&("pageids".to_string(), "3|1|9".to_string())));
    load.take_batch(&vec![file(1), file(3)]);
    assert!(!load.wants_batch());
    assert_eq!(ids(&load.finish()), vec![3, 2, 1]);
}

#[test]
fn known_files_need_no_request() {
    let mut cache = Cache::new();
    remember_files(&mut cache, LoadKey::Title, &vec![file(1)]);
    let load = FileLoad::start(LoadKey::Title, vec!["File:1.jpg".to_string()], &cache);
    assert!(!load.wants_batch());
    assert_eq!(ids(&load.finish()), vec![1]);
}

#[test]
fn long_lists_are_asked_for_in_batches() {
    let keys = page_id_keys(&(1..=120).collect());
    let mut load = FileLoad::start(LoadKey::PageId, keys, &Cache::new());
    let mut batches = 0;
    while load.wants_batch() {
        let ids = load
            .batch_request()
            .into_iter()
            .find(|(name, _)| name == "pageids")
            .unwrap()
            .1;
        let found: Vec<FileHit> = ids.split('|').map(|id| file(id.parse().unwrap())).collect();
        assert!(found.len() <= 50);
        load.take_batch(&found);
        batches += 1;
    }
    assert!(batches >= 3);
    assert_eq!(ids(&load.finish()), (1..=120).collect::<Vec<u64>>());
}

#[test]
fn an_uploader_is_tried_once_more_under_another_name() {
    assert_eq!(
        retry_uploader("jane_doe", 0, Some("Jane Doe".into())),
        Some("Jane Doe".to_string())
    );
    assert_eq!(retry_uploader("Jane_Doe", 0, Some("Jane Doe".into())), None);
    assert_eq!(retry_uploader("jane", 3, Some("Jane".into())), None);
    assert_eq!(retry_uploader("jane", 0, None), None);
}

#[test]
fn members_are_counted_over_pages() {
    let mut count = MemberCount::new();
    count.take_page(500, Some("next".into()));
    assert!(!count.done);
    count.take_page(7, None);
    assert!(count.done);
    assert_eq!(count.count, 507);
}
