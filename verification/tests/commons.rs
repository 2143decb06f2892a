//! Searches on Commons.

use commons_bot::commons::{
    AllImage, DAY_NANOS, EARLIEST_NANOS, MAX_UPLOAD_PAGES, UploadScan, apply_local_filters,
    begin_request, build_cirrus_query, can_filter_dates, category_count_request, category_files, category_hit,
    category_info_key, category_search_key, choose_canonical_username, date_reachable, extension_to_mime,
    finish_search, full_category_title, lists_uploader, nearby_categories_request, nearby_request, normalize_username,
    push_pair, request_url, retain_title_terms, same_api_username, search_request, sort_by_size,
    summary_of_page, timestamp_matches, try_finish_search, uploaded_titles, uploads_request, username_key,
};
use commons_bot::metadata::{ApiPage, Field, MetadataEntry};
use commons_bot::models::{
    DateFilter, FileHit, FileType, Preferences, SearchQuery, SizeFilter, SizeOp,
};
use time::format_description::well_known::Rfc3339;
use time::{Date, OffsetDateTime, Time};

/// 2026-01-01T00:00:00Z in nanoseconds since 1970.
const NOW: i128 = 1_767_225_600_000_000_000;

fn strings(list: &[&str]) -> Vec<String> {
    list.iter().map(|s| s.to_string()).collect()
}

#[test]
fn builds_query_with_extension_category_and_size() {
    let query = SearchQuery {
        terms: vec!["Minsk".into()],
        file_type: Some(FileType::Images),
        extension: Some("jpg".into()),
        category: Some("Belarus".into()),
        size_filters: vec![SizeFilter {
            op: SizeOp::GreaterThan,
            bytes: 10 * 1024 * 1024,
        }],
        ..SearchQuery::default()
    };
    let built = build_cirrus_query(&query, &Preferences::default(), Some(50 * 1024 * 1024));
    assert!(built.contains("Minsk"));
    assert!(built.contains("filetype:bitmap"));
    assert!(built.contains("filemime:\"image/jpeg\""));
    assert!(built.contains("incategory:\"Belarus\""));
    assert!(built.contains("filesize:>10240"));
    assert!(built.contains("filesize:<51200"));
}

#[test]
fn local_filters_match_usernames_with_underscores() {
    let mut hits = vec![FileHit {
        uploader: Some("Vitaly Zdanevich".into()),
        size_bytes: 1024,
        ..FileHit::default()
    }];
    let query = SearchQuery {
        user: Some("Vitaly_Zdanevich".into()),
        ..SearchQuery::default()
    };

    apply_local_filters(&mut hits, &query, &Preferences::default(), 50 * 1024 * 1024, NOW);

    assert_eq!(hits.len(), 1);
}

#[test]
fn canonical_username_selection_handles_case_and_subpages() {
    let titles = strings(&["User:Vitaly Zdanevich/common.js", "User:Vitaly Zdanevich"]);
    assert_eq!(
        choose_canonical_username("vitaly_zdanevich", &titles),
        Some("Vitaly Zdanevich".into())
    );
    assert!(!same_api_username("Vitaly_Zdanevich", "vitaly zdanevich"));
}

#[test]
fn canonical_username_selection_handles_non_ascii_exact_case() {
    let titles = strings(&["User:Красный", "User:Красный Мак"]);
    assert_eq!(
        choose_canonical_username("Красный", &titles),
        Some("Красный".into())
    );
}

#[test]
fn local_filters_apply_size_predicates() {
    let mut hits = vec![
        FileHit {
            size_bytes: 512,
            ..FileHit::default()
        },
        FileHit {
            size_bytes: 2 * 1024 * 1024,
            ..FileHit::default()
        },
    ];
    let query = SearchQuery {
        size_filters: vec![SizeFilter {
            op: SizeOp::GreaterThan,
            bytes: 1024 * 1024,
        }],
        ..SearchQuery::default()
    };

    apply_local_filters(&mut hits, &query, &Preferences::default(), 50 * 1024 * 1024, NOW);

    assert_eq!(hits.len(), 1);
    assert_eq!(hits[0].size_bytes, 2 * 1024 * 1024);
}

#[test]
fn retain_title_terms_requires_every_term() {
    let mut hits = vec![
        FileHit {
            title: "File:Minsk city hall.jpg".into(),
            file_name: "Minsk city hall.jpg".into(),
            ..FileHit::default()
        },
        FileHit {
            title: "File:Minsk station.jpg".into(),
            file_name: "Minsk station.jpg".into(),
            ..FileHit::default()
        },
    ];

    retain_title_terms(&mut hits, &strings(&["minsk", "hall"]));

    assert_eq!(hits.len(), 1);
    assert_eq!(hits[0].file_name, "Minsk city hall.jpg");
}

fn sized(page_id: u64, size_bytes: u64) -> FileHit {
    FileHit {
        page_id,
        size_bytes,
        ..FileHit::default()
    }
}

fn ids(hits: &[FileHit]) -> Vec<u64> {
    hits.iter().map(|hit| hit.page_id).collect()
}

fn value_of<'a>(list: &'a [(String, String)], name: &str) -> Option<&'a str> {
    list.iter().find(|(n, _)| n == name).map(|(_, v)| v.as_str())
}

#[test]
fn the_earliest_moment_is_that_of_the_calendar() {
    let earliest = OffsetDateTime::new_utc(Date::MIN, Time::MIDNIGHT);
    assert_eq!(earliest.unix_timestamp_nanos(), EARLIEST_NANOS);
    assert_eq!(
        OffsetDateTime::parse("2026-01-01T00:00:00Z", &Rfc3339)
            .unwrap()
            .unix_timestamp_nanos(),
        NOW
    );
}

#[test]
fn timestamps_are_held_against_dates() {
    let stamp = "2025-12-31T23:30:00Z";
    assert!(timestamp_matches(stamp, &DateFilter::Year(2025), NOW));
    assert!(!timestamp_matches(stamp, &DateFilter::Year(2026), NOW));
    assert!(timestamp_matches(stamp, &DateFilter::Day("2025-12-31".into()), NOW));
    assert!(!timestamp_matches(stamp, &DateFilter::Day("2025-12-30".into()), NOW));
    assert!(!timestamp_matches(stamp, &DateFilter::Day("2025-13-30".into()), NOW));
    assert!(timestamp_matches(stamp, &DateFilter::RelativeDays(1), NOW));
    assert!(!timestamp_matches(stamp, &DateFilter::RelativeDays(1), NOW + DAY_NANOS));
    assert!(timestamp_matches(stamp, &DateFilter::PreviousMonth, NOW + 30 * DAY_NANOS));
    assert!(!timestamp_matches(stamp, &DateFilter::PreviousMonth, NOW + 31 * DAY_NANOS));
    assert!(timestamp_matches(stamp, &DateFilter::PreviousYear, NOW + 365 * DAY_NANOS));
    assert!(!timestamp_matches(stamp, &DateFilter::PreviousYear, NOW + 366 * DAY_NANOS));
    assert!(!timestamp_matches("yesterday", &DateFilter::Year(2025), NOW));
    // The year is that of the written offset.
    assert!(timestamp_matches(
        "2026-01-01T00:30:00+02:00",
        &DateFilter::Year(2026),
        NOW
    ));
}

#[test]
fn unknown_extensions_are_searched_in_titles() {
    let query = SearchQuery {
        extension: Some("c+".into()),
        ..SearchQuery::default()
    };
    assert_eq!(
        build_cirrus_query(&query, &Preferences::default(), None),
        "* intitle:/\\.c\\+/"
    );
    assert_eq!(extension_to_mime("jpg"), Some("image/jpeg"));
    assert_eq!(extension_to_mime("c+"), None);
}

#[test]
fn user_names_hold_spaces() {
    assert_eq!(normalize_username(" Vitaly_Zdanevich "), "Vitaly Zdanevich");
    assert!(!normalize_username("_a_b_").contains('_'));
    assert_eq!(username_key("КРАСНЫЙ_Мак"), username_key("красный мак"));
    assert!(same_api_username("a_b", "a b"));
}

#[test]
fn filtering_keeps_the_limit_and_can_be_repeated() {
    let query = SearchQuery::default();
    let preferences = Preferences::default();
    let mut hits = vec![sized(1, 10), sized(2, 11), sized(3, 9)];
    apply_local_filters(&mut hits, &query, &preferences, 10, NOW);
    assert_eq!(ids(&hits), vec![1, 3]);
    assert!(hits.iter().all(|hit| hit.size_bytes <= 10));
    apply_local_filters(&mut hits, &query, &preferences, 10, NOW);
    assert_eq!(ids(&hits), vec![1, 3]);

    let all = SearchQuery {
        bypass_telegram_limit: true,
        ..SearchQuery::default()
    };
    let mut hits = vec![sized(1, 10), sized(2, 11)];
    apply_local_filters(&mut hits, &all, &preferences, 10, NOW);
    assert_eq!(hits.len(), 2);
}

#[test]
fn blacklisted_uploaders_and_old_files_are_dropped() {
    let preferences = Preferences {
        blacklist_uploaders: vec!["Example_User".into()],
        ..Preferences::default()
    };
    let mut hits = vec![
        FileHit {
            page_id: 1,
            uploader: Some("Example_User".into()),
            ..FileHit::default()
        },
        FileHit {
            page_id: 2,
            timestamp: Some("2020-01-01T00:00:00Z".into()),
            ..FileHit::default()
        },
        FileHit {
            page_id: 3,
            timestamp: Some("2025-06-01T00:00:00Z".into()),
            ..FileHit::default()
        },
        FileHit {
            page_id: 4,
            ..FileHit::default()
        },
    ];
    let query = SearchQuery {
        date: Some(DateFilter::Year(2025)),
        ..SearchQuery::default()
    };
    apply_local_filters(&mut hits, &query, &preferences, 10, NOW);
    assert_eq!(ids(&hits), vec![3]);
}

#[test]
fn sorting_by_size_is_stable() {
    let mut hits = vec![sized(1, 5), sized(2, 9), sized(3, 5), sized(4, 1)];
    sort_by_size(&mut hits);
    assert_eq!(ids(&hits), vec![4, 1, 3, 2]);
}

#[test]
fn searches_stay_below_their_limit() {
    let found = || vec![sized(1, 5), sized(2, 9), sized(3, 5), sized(4, 1)];
    let query = SearchQuery::default();
    let preferences = Preferences::default();
    assert_eq!(ids(&finish_search(found(), &query, &preferences, 2, 8, NOW, false)), vec![1, 3]);
    let by_size = SearchQuery {
        sort_by_size: true,
        ..SearchQuery::default()
    };
    assert_eq!(
        ids(&finish_search(found(), &by_size, &preferences, 2, 50, NOW, false)),
        vec![4, 1]
    );
    assert!(finish_search(found(), &query, &preferences, 0, 50, NOW, false).is_empty());
}

#[test]
fn uploads_of_a_user_are_listed() {
    let query = SearchQuery {
        user: Some("A".into()),
        ..SearchQuery::default()
    };
    assert!(lists_uploader(&query));
    assert!(!lists_uploader(&SearchQuery::default()));
    let images = vec![
        AllImage { title: "File:A.jpg".into(), size: 5 },
        AllImage { title: "File:B.jpg".into(), size: 50 },
    ];
    assert_eq!(uploaded_titles(&images, &query, 10), vec!["File:A.jpg"]);
}

#[test]
fn a_scan_of_uploads_ends() {
    let query = SearchQuery::default();
    let preferences = Preferences::default();
    let mut scan = UploadScan::new();
    let mut pages = 0;
    while scan.wants_page(100) {
        scan.take_page(
            vec![sized(pages, 1), sized(pages, 99)],
            Some("more".into()),
            &query,
            &preferences,
            100,
            10,
            NOW,
        );
        pages += 1;
    }
    assert_eq!(pages, MAX_UPLOAD_PAGES as u64);
    assert_eq!(ids(&scan.finish(&query, 3)), vec![0, 1, 2]);
}

#[test]
fn requests_become_addresses() {
    let mut list = begin_request();
    push_pair(&mut list, "titles", "File:A & B.jpg|Катэгорыя");
    let url = request_url("https://commons.wikimedia.org/w/api.php", &list).unwrap();
    assert!(url.starts_with("https://commons.wikimedia.org/w/api.php?"));
    assert!(url.ends_with("titles=File%3AA+%26+B.jpg%7C%D0%9A%D0%B0%D1%82%D1%8D%D0%B3%D0%BE%D1%80%D1%8B%D1%8F"));
    assert!(request_url("not an address", &list).is_none());
    assert_eq!(
        request_url("https://a/b", &vec![("x".to_string(), "1".to_string())]).as_deref(),
        Some("https://a/b?x=1")
    );
}

#[test]
fn requests_name_what_is_asked() {
    let list = search_request(&SearchQuery::default(), &Preferences::default(), 2048);
    assert_eq!(value_of(&list, "gsrsearch"), Some("* filesize:<2"));
    assert_eq!(value_of(&list, "gsrlimit"), Some("60"));
    let list = nearby_request("53.9|27.5");
    assert_eq!(value_of(&list, "gscoord"), Some("53.9|27.5"));
    let list = uploads_request("A_B", &Some("next".into()));
    assert_eq!(value_of(&list, "aicontinue"), Some("next"));
    let list = category_count_request("Category:A", &None);
    assert_eq!(value_of(&list, "cmtitle"), Some("Category:A"));
    assert_eq!(value_of(&list, "cmcontinue"), None);
}

#[test]
fn categories_are_named() {
    assert_eq!(full_category_title("Minsk"), "Category:Minsk");
    let hit = category_hit(7, "Category:Minsk");
    assert_eq!(hit.display_title, "Minsk");
    assert_eq!(hit.file_count, None);
    assert_eq!(category_search_key(" MINSK ", 20), "minsk:20");
    assert_eq!(category_info_key("Category:A", 1, 2, 3), "Category:A:1:2:3");
}

#[test]
fn a_page_gives_a_summary() {
    let page = ApiPage {
        pageid: Some(5),
        title: Some("Category:Minsk".into()),
        imageinfo: vec![],
        extract: Some("A city".into()),
        pageprops: vec![MetadataEntry {
            name: "wikibase_item".into(),
            value: Field::Text("Q2280".into()),
        }],
    };
    let info = summary_of_page("Category:X", Some(&page));
    assert_eq!(info.page_id, 5);
    assert_eq!(info.title, "Category:Minsk");
    assert_eq!(info.description.as_deref(), Some("A city"));
    assert_eq!(info.wikidata_item.as_deref(), Some("Q2280"));
    let none = summary_of_page("Category:X", None);
    assert_eq!(none.title, "Category:X");
    assert_eq!(none.page_id, 0);
}

#[test]
fn files_of_a_category_fit() {
    let found = vec![sized(1, 5), sized(2, 50), sized(3, 6)];
    assert_eq!(ids(&category_files(&found, 5, 10)), vec![1, 3]);
    assert_eq!(ids(&category_files(&found, 1, 10)), vec![1]);
}

#[test]
fn some_dates_lie_before_the_calendar() {
    let asking = |date: DateFilter| SearchQuery {
        date: Some(date),
        ..SearchQuery::default()
    };
    assert!(date_reachable(&SearchQuery::default(), NOW));
    assert!(date_reachable(&asking(DateFilter::PreviousYear), NOW));
    assert!(!date_reachable(&asking(DateFilter::RelativeDays(u32::MAX)), NOW));
    assert!(!date_reachable(&asking(DateFilter::PreviousMonth), EARLIEST_NANOS));
    assert!(date_reachable(&asking(DateFilter::Year(1)), i128::MIN));
    assert!(!date_reachable(&asking(DateFilter::RelativeDays(0)), i128::MIN));
}

#[test]
fn results_pass_the_filters_and_hold_the_terms() {
    let named = |page_id: u64, name: &str, size_bytes: u64| FileHit {
        page_id,
        file_name: name.into(),
        size_bytes,
        ..FileHit::default()
    };
    let found = vec![
        named(1, "Old Town.jpg", 9),
        named(2, "Town.jpg", 1),
        named(3, "the OLD town.jpg", 3),
        named(4, "old town.jpg", 99),
    ];
    let query = SearchQuery {
        terms: vec!["old".into(), "TOWN".into()],
        sort_by_size: true,
        ..SearchQuery::default()
    };
    let hits = finish_search(found, &query, &Preferences::default(), 5, 10, NOW, true);
    assert_eq!(ids(&hits), vec![3, 1]);
}

#[test]
fn queries_leave_hidden_categories_out() {
    let preferences = Preferences {
        blacklist_categories: vec!["Bad scans".into(), "Category:Low_quality".into()],
        ..Preferences::default()
    };
    let query = SearchQuery {
        terms: vec!["Minsk".into()],
        category: Some("Belarus".into()),
        size_filters: vec![SizeFilter { op: SizeOp::LessThan, bytes: 4096 }],
        ..SearchQuery::default()
    };
    assert_eq!(
        build_cirrus_query(&query, &preferences, Some(2048)),
        "Minsk incategory:\"Belarus\" -incategory:\"Bad scans\" -incategory:\"Low quality\" \
         filesize:<4 filesize:<2"
    );
}

fn listed(page_id: u64, categories: Option<&str>) -> FileHit {
    FileHit {
        page_id,
        categories_text: categories.map(str::to_string),
        ..FileHit::default()
    }
}

#[test]
fn files_in_hidden_categories_are_dropped() {
    let preferences = Preferences {
        blacklist_categories: vec!["Category:Bad_scans".into()],
        ..Preferences::default()
    };
    let found = || {
        vec![
            listed(1, Some("Minsk|Bad scans|Maps")),
            listed(2, Some("Minsk|bad Scans")),
            listed(3, Some("Minsk|Bad scans of maps")),
            listed(4, Some("")),
            listed(5, None),
        ]
    };
    let query = SearchQuery::default();
    let hits = finish_search(found(), &query, &preferences, 9, 10, NOW, false);
    assert_eq!(ids(&hits), vec![3, 4, 5]);
    let hits = finish_search(found(), &query, &Preferences::default(), 9, 10, NOW, false);
    assert_eq!(ids(&hits), vec![1, 2, 3, 4, 5]);
    let mut scan = UploadScan::new();
    scan.take_page(found(), None, &query, &preferences, 9, 10, NOW);
    assert_eq!(ids(&scan.finish(&query, 9)), vec![3, 4, 5]);
}

#[test]
fn a_date_out_of_reach_matters_only_where_dates_are_looked_at() {
    let query = SearchQuery {
        date: Some(DateFilter::RelativeDays(u32::MAX)),
        ..SearchQuery::default()
    };
    let preferences = Preferences::default();
    let dated = |page_id: u64, size_bytes: u64| FileHit {
        timestamp: Some("2025-06-01T00:00:00Z".into()),
        ..sized(page_id, size_bytes)
    };
    assert!(!can_filter_dates(&vec![dated(1, 5)], &query, 10, NOW));
    assert!(can_filter_dates(&vec![dated(1, 5)], &SearchQuery::default(), 10, NOW));
    let found = || vec![sized(1, 5), dated(2, 50)];
    assert!(can_filter_dates(&found(), &query, 10, NOW));
    assert!(finish_search(found(), &query, &preferences, 5, 10, NOW, false).is_empty());
    assert!(finish_search(vec![], &query, &preferences, 5, 10, NOW, true).is_empty());
    let mut scan = UploadScan::new();
    scan.take_page(found(), None, &query, &preferences, 5, 10, NOW);
    assert!(scan.finish(&query, 5).is_empty());

    let unreadable = || FileHit {
        timestamp: Some("yesterday".into()),
        ..sized(3, 5)
    };
    assert!(!timestamp_matches("yesterday", &DateFilter::RelativeDays(u32::MAX), NOW));
    assert!(can_filter_dates(&vec![unreadable()], &query, 10, NOW));
    let hits = try_finish_search(vec![unreadable()], &query, &preferences, 5, 10, NOW, false);
    assert!(hits.unwrap().is_empty());
    let hits = try_finish_search(vec![dated(1, 5)], &query, &preferences, 5, 10, NOW, false);
    assert!(hits.is_none());
}

#[test]
fn a_page_that_cannot_be_filtered_is_not_taken() {
    let far = SearchQuery {
        date: Some(DateFilter::RelativeDays(u32::MAX)),
        ..SearchQuery::default()
    };
    let near = SearchQuery {
        date: Some(DateFilter::PreviousYear),
        ..SearchQuery::default()
    };
    let preferences = Preferences::default();
    let found = || {
        vec![FileHit {
            timestamp: Some("2025-06-01T00:00:00Z".into()),
            ..sized(1, 5)
        }]
    };
    let mut scan = UploadScan::new();
    assert!(!scan.try_take_page(found(), None, &far, &preferences, 5, 10, NOW));
    assert_eq!(scan.pages_seen, 0);
    assert!(!scan.done);
    assert!(scan.try_take_page(found(), None, &near, &preferences, 5, 10, NOW));
    assert_eq!(scan.pages_seen, 1);
    assert!(scan.done);
    assert_eq!(ids(&scan.finish(&near, 5)), vec![1]);
    let hits = try_finish_search(found(), &near, &preferences, 5, 10, NOW, false);
    assert_eq!(ids(&hits.unwrap()), vec![1]);
}

#[test]
fn categories_near_a_place_are_asked_for() {
    let request = nearby_categories_request("53.9|27.56", 12);
    let pairs: Vec<(&str, &str)> =
        request.iter().map(|(name, value)| (name.as_str(), value.as_str())).collect();
    assert_eq!(
        pairs[pairs.len() - 5..],
        [
            ("list", "geosearch"),
            ("gsnamespace", "14"),
            ("gscoord", "53.9|27.56"),
            ("gsradius", "10000"),
            ("gslimit", "12"),
        ]
    );
    assert_eq!(pairs[..pairs.len() - 5].len(), begin_request().len());
}
