//! Result lists that are shown page by page.

use commons_bot::commons_cache::Cache;
use commons_bot::models::{CategoryHit, FileHit};
use commons_bot::pagination::{
    BUTTON_PAGE_SIZE, category_list_token, category_page, file_list_token, file_page, page_count,
    page_from_items, store_category_list, store_file_list, token_of_digest,
};

#[test]
fn counts_button_pages() {
    assert_eq!(page_count(0), 1);
    assert_eq!(page_count(1), 1);
    assert_eq!(page_count(BUTTON_PAGE_SIZE), 1);
    assert_eq!(page_count(BUTTON_PAGE_SIZE + 1), 2);
}

#[test]
fn returns_requested_page_items() {
    let files = (0..45)
        .map(|page_id| FileHit {
            page_id,
            title: format!("File:{page_id}.jpg"),
            ..FileHit::default()
        })
        .collect::<Vec<_>>();

    let page = page_from_items(&files, 2).unwrap();

    assert_eq!(page.page_index, 2);
    assert_eq!(page.total_pages, 3);
    assert_eq!(page.items.len(), 5);
    assert_eq!(page.items[0].page_id, 40);
}

#[test]
fn file_tokens_change_with_order() {
    let first = vec![
        FileHit {
            page_id: 1,
            title: "File:A.jpg".into(),
            ..FileHit::default()
        },
        FileHit {
            page_id: 2,
            title: "File:B.jpg".into(),
            ..FileHit::default()
        },
    ];
    let mut second = first.clone();
    second.reverse();

    assert_ne!(file_list_token(&first), file_list_token(&second));
}

fn files(count: u64) -> Vec<FileHit> {
    (0..count)
        .map(|page_id| FileHit {
            page_id,
            ..FileHit::default()
        })
        .collect()
}

#[test]
fn pages_cover_a_list_without_overlap() {
    for total in [1, 19, 20, 21, 40, 45] {
        let items: Vec<usize> = (0..total).collect();
        let mut seen = Vec::new();
        for page in 0..page_count(total) {
            seen.extend(page_from_items(&items, page).unwrap().items);
        }
        assert_eq!(seen, items);
        let beyond = page_from_items(&items, page_count(total)).unwrap();
        assert_eq!(beyond.page_index, page_count(total) - 1);
    }
}

#[test]
fn stored_files_are_served() {
    let mut lists = Cache::new();
    let token = store_file_list(&mut lists, &files(45));
    assert_eq!(token, file_list_token(&files(45)));
    let page = file_page(&lists, &token, 2).unwrap();
    assert_eq!(
        page.items.iter().map(|file| file.page_id).collect::<Vec<_>>(),
        vec![40, 41, 42, 43, 44]
    );
    assert_eq!((page.page_index, page.total_pages, page.total_items), (2, 3, 45));
    assert_eq!(file_page(&lists, &token, 3).unwrap().page_index, 2);
    assert!(file_page(&lists, "other", 0).is_none());
}

#[test]
fn stored_categories_are_served() {
    let categories: Vec<CategoryHit> = (0..25)
        .map(|page_id| CategoryHit {
            page_id,
            ..CategoryHit::default()
        })
        .collect();
    let mut lists = Cache::new();
    let token = store_category_list(&mut lists, &categories);
    assert_eq!(token, category_list_token(&categories));
    assert_eq!(category_page(&lists, &token, 1).unwrap().items.len(), 5);
    assert!(category_page(&lists, "other", 0).is_none());
}

#[test]
fn tokens_are_the_start_of_a_digest() {
    let digest: Vec<u8> = (0..32).collect();
    let token = token_of_digest(&digest);
    assert!(hex::encode(&digest).starts_with(&token));
    assert_ne!(file_list_token(&files(1)), file_list_token(&files(2)));
}

#[test]
fn an_empty_list_has_no_page() {
    assert!(page_from_items(&Vec::<u64>::new(), 0).is_none());
}
