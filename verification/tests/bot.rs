//! Requests, callbacks and inline queries.

use commons_bot::bot::{
    Entry, category_file_result_limit, category_result_limit, choose_entry, file_result_limit,
    idempotency_keys, inline_location_applies, inline_lookup_limit, inline_result_page,
    is_expired_inline_query_error, parse_inline_offset, parse_number_behind,
    parse_pagination_callback, proceeds_after_reservation, test_endpoint_query, update_kind,
};
use commons_bot::config::Config;
use commons_bot::pagination::file_list_token;
use commons_bot::models::{
    FileHit, FileType, Preferences, SearchQuery, SizeFilter, SizeOp,
};
use commons_bot::telegram::{CallbackQuery, Chat, Message, Update, User};

#[test]
fn builds_idempotency_keys_for_file_callbacks() {
    let update = Update {
        update_id: Some(123),
        message: None,
        callback_query: Some(CallbackQuery {
            id: "callback-id".into(),
            from: User { id: 42 },
            message: Some(Message {
                message_id: Some(7),
                chat: Chat { id: -100 },
                from: None,
                text: None,
                location: None,
            }),
            data: Some("file:99".into()),
        }),
        inline_query: None,
    };

    let keys = idempotency_keys(&update);

    assert_eq!(keys.len(), 2);
    assert_eq!(keys[0].key, "TELEGRAM_UPDATE#123");
    assert_eq!(keys[1].key, "TELEGRAM_CALLBACK_ACTION#42#-100#7#file:99");
}

#[test]
fn skips_action_idempotency_for_non_file_callbacks() {
    let update = Update {
        update_id: Some(124),
        message: None,
        callback_query: Some(CallbackQuery {
            id: "callback-id".into(),
            from: User { id: 42 },
            message: Some(Message {
                message_id: Some(7),
                chat: Chat { id: -100 },
                from: None,
                text: None,
                location: None,
            }),
            data: Some("pg:f:token:1".into()),
        }),
        inline_query: None,
    };

    let keys = idempotency_keys(&update);

    assert_eq!(keys.len(), 1);
    assert_eq!(keys[0].key, "TELEGRAM_UPDATE#124");
}

#[test]
fn inline_location_applies_to_plain_image_searches() {
    assert!(inline_location_applies(&SearchQuery::default()));
    assert!(inline_location_applies(&SearchQuery {
        terms: vec!["Minsk".into()],
        file_type: Some(FileType::Images),
        ..SearchQuery::default()
    }));
}

#[test]
fn inline_location_does_not_override_structured_searches() {
    assert!(!inline_location_applies(&SearchQuery {
        user: Some("Vitaly_Zdanevich".into()),
        file_type: Some(FileType::Images),
        ..SearchQuery::default()
    }));
    assert!(!inline_location_applies(&SearchQuery {
        extension: Some("jpg".into()),
        file_type: Some(FileType::Images),
        ..SearchQuery::default()
    }));
    assert!(!inline_location_applies(&SearchQuery {
        size_filters: vec![SizeFilter {
            op: SizeOp::LessThan,
            bytes: 1024,
        }],
        file_type: Some(FileType::Images),
        ..SearchQuery::default()
    }));
    assert!(!inline_location_applies(&SearchQuery {
        terms: vec!["bird".into()],
        file_type: Some(FileType::Audio),
        ..SearchQuery::default()
    }));
}

#[test]
fn detects_expired_inline_query_errors() {
    let error = "Telegram method answerInlineQuery failed with HTTP 400 Bad Request: query is too old and response timeout expired or query ID is invalid";

    assert!(is_expired_inline_query_error(error));
    assert!(!is_expired_inline_query_error(
        "Telegram method answerInlineQuery failed with HTTP 500"
    ));
}

#[test]
fn paginates_inline_results_with_next_offset() {
    let files = (0..101)
        .map(|page_id| FileHit {
            page_id,
            file_name: format!("{page_id}.jpg"),
            ..FileHit::default()
        })
        .collect::<Vec<_>>();

    let (page, next_offset) = inline_result_page(&files, 50, 50);

    assert_eq!(page.len(), 50);
    assert_eq!(page[0].page_id, 50);
    assert_eq!(next_offset.as_deref(), Some("100"));
}

#[test]
fn paginates_inline_results_with_smaller_preference() {
    let files = (0..25)
        .map(|page_id| FileHit {
            page_id,
            file_name: format!("{page_id}.jpg"),
            ..FileHit::default()
        })
        .collect::<Vec<_>>();

    let (page, next_offset) = inline_result_page(&files, 0, 10);

    assert_eq!(page.len(), 10);
    assert_eq!(page[9].page_id, 9);
    assert_eq!(next_offset.as_deref(), Some("10"));
}

#[test]
fn parses_and_caps_inline_offsets() {
    assert_eq!(parse_inline_offset("50"), 50);
    assert_eq!(parse_inline_offset("9999"), 0);
    assert_eq!(parse_inline_offset("not-a-number"), 0);
    assert_eq!(inline_lookup_limit(0, 50), 51);
    assert_eq!(inline_lookup_limit(100, 50), 151);
    assert_eq!(inline_lookup_limit(0, 10), 11);
}

#[test]
fn parses_pagination_callback_payload() {
    assert_eq!(
        parse_pagination_callback("pg:f:abcdef0123456789:2"),
        Some(("f".to_string(), "abcdef0123456789".to_string(), 2))
    );
    assert!(parse_pagination_callback("file:1").is_none());
}

#[test]
fn widens_only_paginated_button_result_limits() {
    let prefs = Preferences::default();
    assert_eq!(file_result_limit(&SearchQuery::default(), &prefs), 60);
    assert_eq!(category_result_limit(&prefs), 60);
    assert_eq!(category_file_result_limit(&prefs), 20);

    let image_query = SearchQuery {
        image_previews_flag: true,
        ..SearchQuery::default()
    };
    assert_eq!(file_result_limit(&image_query, &prefs), 20);

    let no_pagination = Preferences {
        pagination_enabled: false,
        ..Preferences::default()
    };
    assert_eq!(
        file_result_limit(&SearchQuery::default(), &no_pagination),
        20
    );
    assert_eq!(category_result_limit(&no_pagination), 20);

    let category_file_buttons = Preferences {
        category_file_buttons: true,
        ..Preferences::default()
    };
    assert_eq!(category_file_result_limit(&category_file_buttons), 60);
}

fn no_update() -> Update {
    Update {
        update_id: None,
        message: None,
        callback_query: None,
        inline_query: None,
    }
}

fn numbered(count: u64) -> Vec<FileHit> {
    (0..count)
        .map(|page_id| FileHit {
            page_id,
            file_name: format!("{page_id}.jpg"),
            ..FileHit::default()
        })
        .collect()
}

#[test]
fn requests_without_the_secret_are_refused() {
    let vars = vec![
        ("TELEGRAM_WEBHOOK_SECRET".to_string(), "s3".to_string()),
        ("ENABLE_TEST_ENDPOINT".to_string(), "true".to_string()),
    ];
    let config = Config::from_env_lookup(&vars);
    assert_eq!(choose_entry(&config, "/", None), Entry::Refuse);
    assert_eq!(choose_entry(&config, "/__test", Some("s4")), Entry::Refuse);
    assert_eq!(choose_entry(&config, "/__test", Some("s3")), Entry::Test);
    assert_eq!(choose_entry(&config, "/", Some("s3")), Entry::Webhook);

    let open = Config::from_env_lookup(&Vec::new());
    assert_eq!(choose_entry(&open, "/__test", None), Entry::Webhook);
}

#[test]
fn the_test_endpoint_decodes_its_query() {
    assert_eq!(test_endpoint_query("a=b&q=flac%20Minsk%26x"), "flac Minsk&x");
    assert_eq!(test_endpoint_query("q=%ff"), "%ff");
    assert_eq!(test_endpoint_query("q"), "jpg Minsk");
    assert_eq!(test_endpoint_query(""), "jpg Minsk");
}

#[test]
fn updates_have_a_kind() {
    assert_eq!(update_kind(&no_update()), "unknown");
    let update = Update {
        message: Some(Message {
            message_id: None,
            chat: Chat { id: 1 },
            from: None,
            text: None,
            location: None,
        }),
        ..no_update()
    };
    assert_eq!(update_kind(&update), "message");
}

#[test]
fn an_update_without_a_number_has_no_keys() {
    assert!(idempotency_keys(&no_update()).is_empty());
}

#[test]
fn only_taken_reservations_stop_an_update() {
    assert!(proceeds_after_reservation(&Ok(true)));
    assert!(!proceeds_after_reservation(&Ok(false)));
    assert!(proceeds_after_reservation(&Err("table is away".to_string())));
}

#[test]
fn inline_pages_follow_one_another() {
    let files = numbered(45);
    let mut offset = 0;
    let mut seen = Vec::new();
    loop {
        let (page, next) = inline_result_page(&files, offset, 20);
        seen.extend(page.iter().map(|file| file.page_id));
        match next {
            Some(text) => {
                offset = parse_inline_offset(&text);
                assert!(inline_lookup_limit(offset, 20) > offset);
            }
            None => break,
        }
    }
    assert_eq!(seen, (0..45).collect::<Vec<u64>>());
}

#[test]
fn page_buttons_lead_to_their_pages() {
    let token = file_list_token(&numbered(3));
    assert!(!token.contains(':'));
    let data = format!("pg:f:{token}:7");
    assert_eq!(
        parse_pagination_callback(&data),
        Some(("f".to_string(), token, 7))
    );
    assert!(parse_pagination_callback("pg:f:a").is_none());
    assert!(parse_pagination_callback("pg:f:a:x").is_none());
}

#[test]
fn opening_buttons_lead_to_their_pages() {
    assert_eq!(parse_number_behind("file:99", "file:"), Some(99));
    assert_eq!(parse_number_behind("cat:7", "cat:"), Some(7));
    assert_eq!(parse_number_behind("cat:x", "cat:"), None);
    assert_eq!(parse_number_behind("cat:7", "file:"), None);
    assert!(parse_pagination_callback("cat:7").is_none());
}

#[test]
fn actions_have_keys_of_their_own() {
    let update = |data: &str| Update {
        update_id: None,
        callback_query: Some(CallbackQuery {
            id: "x".into(),
            from: User { id: 1 },
            message: Some(Message {
                message_id: Some(2),
                chat: Chat { id: 3 },
                from: None,
                text: None,
                location: None,
            }),
            data: Some(data.to_string()),
        }),
        ..no_update()
    };
    let a = idempotency_keys(&update("file:1"));
    let b = idempotency_keys(&update("cat:1"));
    assert_eq!(a[0].key, "TELEGRAM_CALLBACK_ACTION#1#3#2#file:1");
    assert_eq!(a[0].retention_seconds, 30);
    assert_ne!(a[0].key, b[0].key);
}
