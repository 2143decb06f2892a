//! Telegram messages.

use commons_bot::models::{CategoryHit, CategoryInfo, FileHit, Preferences};
use commons_bot::telegram::{
    Delivery, InlinePhoto, InlineResult, OriginalDelivery, TELEGRAM_PHOTO_CAPTION_LIMIT_CHARS,
    TELEGRAM_RICH_MESSAGE_LIMIT_CHARS, category_buttons_page, choose_delivery,
    choose_original_delivery, compact_file_metadata_caption, drop_low_priority_metadata_lines_until_fit, escape_attr,
    escape_text, file_buttons, file_buttons_page, file_list_reply, format_category_info,
    format_file_metadata, html_link, human_bytes, inline_cache_seconds, inline_result,
    inline_results, method_url, needs_page_token, paginated_title, rich_image_preview_html,
    short_inline_text, telegram_photo_caption, telegram_preview_url, truncate_visible_text,
};

fn photo(result: InlineResult) -> InlinePhoto {
    match result {
        InlineResult::Photo(photo) => photo,
        InlineResult::Article(_) => panic!("expected a photo"),
    }
}

#[test]
fn styles_large_and_audio_buttons() {
    let large = FileHit {
        page_id: 1,
        file_name: "Large.tif".into(),
        size_bytes: 21 * 1024 * 1024,
        ..FileHit::default()
    };
    let audio = FileHit {
        page_id: 2,
        file_name: "Sound.flac".into(),
        mime: Some("audio/flac".into()),
        ..FileHit::default()
    };
    let buttons = file_buttons(&vec![large, audio], &Preferences::default());
    assert_eq!(buttons[0][0].style.as_deref(), Some("danger"));
    assert_eq!(buttons[1][0].style.as_deref(), Some("primary"));
}

#[test]
fn renders_paginated_file_navigation() {
    let files = (0..20)
        .map(|page_id| FileHit {
            page_id,
            file_name: format!("{page_id}.jpg"),
            ..FileHit::default()
        })
        .collect::<Vec<_>>();

    let rows = file_buttons_page(&files, &Preferences::default(), Some("abcdef"), 1, 3);

    let nav = rows.last().unwrap();
    assert_eq!(paginated_title("Files", 1, 3), "Files 2/3");
    assert_eq!(nav[0].text, "Prev");
    assert_eq!(nav[0].callback_data.as_deref(), Some("pg:f:abcdef:0"));
    assert_eq!(nav[1].text, "Next");
    assert_eq!(nav[1].callback_data.as_deref(), Some("pg:f:abcdef:2"));
}

#[test]
fn renders_subcategory_pagination_callbacks() {
    let categories = vec![CategoryHit {
        page_id: 42,
        title: "Category:Minsk".into(),
        display_title: "Minsk".into(),
        file_count: None,
    }];

    let rows = category_buttons_page(&categories, Some("abcdef"), 0, 2, "s");

    assert_eq!(rows[0][0].callback_data.as_deref(), Some("cat:42"));
    assert_eq!(
        rows.last().unwrap()[0].callback_data.as_deref(),
        Some("pg:s:abcdef:1")
    );
}

#[test]
fn formats_metadata_with_links() {
    let prefs = Preferences {
        show_sha1: true,
        ..Preferences::default()
    };
    let file = FileHit {
        title: "File:A & B.jpg".into(),
        file_name: "A & B.jpg".into(),
        description_url: Some("https://commons.wikimedia.org/wiki/File:A".into()),
        uploader: Some("Example".into()),
        caption_text: Some("A caption".into()),
        description_text: Some("A longer description".into()),
        artist: Some("Jane Example".into()),
        timestamp: Some("2025-12-31T00:00:00Z".into()),
        camera_model: Some("Canon EOS 6D".into()),
        f_number: Some("f/7.1".into()),
        iso_speed: Some("1,250".into()),
        focal_length: Some("50 mm".into()),
        exposure_time: Some("1/500 sec (0.002)".into()),
        sha1: Some("abc".into()),
        ..FileHit::default()
    };
    let text = format_file_metadata(&file, &prefs);
    assert!(text.contains(
        "<b><a href=\"https://commons.wikimedia.org/wiki/File:A\">A &amp; B.jpg</a></b>"
    ));
    assert!(!text.contains("Original location"));
    assert!(!text.contains("Size:"));
    assert!(text.contains("Caption: A caption"));
    assert!(text.contains("Description: A longer description"));
    assert!(text.contains("User:Example"));
    assert!(text.find("Uploader:").unwrap() < text.find("Author:").unwrap());
    assert!(text.find("Author:").unwrap() < text.find("Uploaded:").unwrap());
    assert!(text.contains(
        "Camera model: <a href=\"https://en.wikipedia.org/wiki/Special:Search?search=Canon%20EOS%206D\">Canon EOS 6D</a>"
    ));
    assert!(
        text.contains("<a href=\"https://en.wikipedia.org/wiki/F-number\">F-number</a>: f/7.1")
    );
    assert!(text.contains(
        "<a href=\"https://en.wikipedia.org/wiki/Film_speed#Digital_camera_ISO_speed_and_exposure_index\">ISO speed rating</a>: 1,250"
    ));
    assert!(text.contains(
        "<a href=\"https://en.wikipedia.org/wiki/Focal_length\">Lens focal length</a>: 50 mm"
    ));
    assert!(text.contains(
        "<a href=\"https://en.wikipedia.org/wiki/Shutter_speed\">Exposure time</a>: 1/500 sec (0.002)"
    ));
    assert!(text.contains("SHA-1"));
    assert!(text.ends_with(
        "<a href=\"https://commons.wikimedia.org/w/index.php?title=File%3AA%20%26%20B.jpg&amp;action=history\">History</a>"
    ));
}

#[test]
fn suppresses_duplicate_description_and_audio_dimensions() {
    let file = FileHit {
        file_name: "Sound.ogg".into(),
        mime: Some("audio/ogg".into()),
        width: Some(0),
        height: Some(0),
        caption_text: Some("Same text".into()),
        description_text: Some("Same text".into()),
        ..FileHit::default()
    };
    let text = format_file_metadata(&file, &Preferences::default());

    assert!(text.contains("Caption: Same text"));
    assert!(!text.contains("Description:"));
    assert!(!text.contains("Dimensions: 0 x 0"));
}

#[test]
fn suppresses_author_when_same_as_uploader() {
    let file = FileHit {
        file_name: "A.jpg".into(),
        uploader: Some("Vitaly_Zdanevich".into()),
        artist: Some("Vitaly Zdanevich".into()),
        ..FileHit::default()
    };
    let text = format_file_metadata(&file, &Preferences::default());

    assert!(text.contains("Uploader:"));
    assert!(!text.contains("Author:"));
}

#[test]
fn formats_category_info_with_wikidata_claims() {
    let category = CategoryInfo {
        title: "Category:Minsk".into(),
        wikidata_item: Some("Q2280".into()),
        wikidata_claims_html: Some(
            "<a href=\"https://www.wikidata.org/wiki/Property:P31\">instance of (P31)</a>: <a href=\"https://www.wikidata.org/wiki/Q515\">city (Q515)</a>"
                .into(),
        ),
        ..CategoryInfo::default()
    };
    let text = format_category_info(&category);

    assert!(text.contains("<a href=\"https://www.wikidata.org/wiki/Q2280\">Wikidata</a>"));
    assert!(text.contains("instance of (P31)"));
    assert!(text.contains("city (Q515)"));
}

#[test]
fn formats_human_bytes() {
    assert_eq!(human_bytes(1024 * 1024), "1.0 MB");
}

#[test]
fn preview_caption_uses_metadata_by_default() {
    let file = FileHit {
        file_name: "A.jpg".into(),
        description_url: Some("https://commons.wikimedia.org/wiki/File:A.jpg".into()),
        uploader: Some("Example".into()),
        artist: Some("Jane Example".into()),
        timestamp: Some("2025-12-31T00:00:00Z".into()),
        ..FileHit::default()
    };
    let caption = telegram_photo_caption(&file, &Preferences::default()).unwrap();

    assert!(caption.contains("Uploader:"));
    assert!(caption.contains("Author:"));
    assert!(caption.contains("Uploaded:"));
}

#[test]
fn preview_caption_can_disable_metadata() {
    let preferences = Preferences {
        show_preview_metadata: false,
        ..Preferences::default()
    };
    let file = FileHit {
        file_name: "A.jpg".into(),
        description_url: Some("https://commons.wikimedia.org/wiki/File:A.jpg".into()),
        uploader: Some("Example".into()),
        ..FileHit::default()
    };
    let caption = telegram_photo_caption(&file, &preferences).unwrap();

    assert_eq!(
        caption,
        "<a href=\"https://commons.wikimedia.org/wiki/File:A.jpg\">A.jpg</a>"
    );
    assert!(!caption.contains("Uploader:"));
}

#[test]
fn preview_caption_shortens_when_metadata_exceeds_photo_caption_limit() {
    let file = FileHit {
        file_name: "A.jpg".into(),
        description_url: Some("https://commons.wikimedia.org/wiki/File:A.jpg".into()),
        caption_text: Some("Useful caption".into()),
        description_text: Some("Very long description ".repeat(80)),
        uploader: Some("Example".into()),
        artist: Some("Very long author ".repeat(100)),
        license_short_name: Some("CC BY-SA 4.0".into()),
        license_url: Some("https://creativecommons.org/licenses/by-sa/4.0".into()),
        ..FileHit::default()
    };
    let caption = telegram_photo_caption(&file, &Preferences::default()).unwrap();

    assert!(caption.chars().count() <= TELEGRAM_PHOTO_CAPTION_LIMIT_CHARS);
    assert!(caption.contains(
        "<a href=\"https://creativecommons.org/licenses/by-sa/4.0\">CC BY-SA 4.0</a>"
    ));
    assert!(!caption.contains("License:"));
    assert!(caption.contains("Caption: Useful caption"));
    assert!(caption.contains("Description: Very long description"));
    assert!(caption.contains("Uploader:"));
    assert!(!caption.contains("History"));
    assert_ne!(
        caption,
        "<a href=\"https://commons.wikimedia.org/wiki/File:A.jpg\">A.jpg</a>"
    );
}

#[test]
fn photo_caption_pruning_drops_only_first_needed_low_priority_line() {
    let mut lines = caption_lines_needing_removed_indexes(&[1]);

    let caption = drop_low_priority_metadata_lines_until_fit(&mut lines).unwrap();

    assert!(!caption.contains("F-number"));
    assert!(caption.contains("ISO speed rating"));
    assert!(caption.contains("Lens focal length"));
    assert!(caption.contains("Exposure time"));
    assert!(caption.contains("History"));
    assert!(caption.chars().count() <= TELEGRAM_PHOTO_CAPTION_LIMIT_CHARS);
}

#[test]
fn photo_caption_pruning_continues_until_history_when_needed() {
    let mut lines = caption_lines_needing_removed_indexes(&[1, 2, 3, 4, 5]);

    let caption = drop_low_priority_metadata_lines_until_fit(&mut lines).unwrap();

    assert!(!caption.contains("F-number"));
    assert!(!caption.contains("ISO speed rating"));
    assert!(!caption.contains("Lens focal length"));
    assert!(!caption.contains("Exposure time"));
    assert!(!caption.contains("History"));
    assert!(caption.chars().count() <= TELEGRAM_PHOTO_CAPTION_LIMIT_CHARS);
}

#[test]
fn rich_preview_html_keeps_metadata_with_each_image() {
    let file = FileHit {
        file_name: "A.jpg".into(),
        description_url: Some("https://commons.wikimedia.org/wiki/File:A.jpg".into()),
        thumb_url: Some("https://upload.wikimedia.org/thumb/a.jpg".into()),
        mime: Some("image/jpeg".into()),
        caption_text: Some("Useful caption".into()),
        uploader: Some("Example".into()),
        ..FileHit::default()
    };

    let html = rich_image_preview_html(&vec![file], &Preferences::default());

    assert!(html.contains("<figure><img src=\"https://upload.wikimedia.org/thumb/a.jpg\"/>"));
    assert!(html.contains("<figcaption>"));
    assert!(html.contains("Caption: Useful caption"));
    assert!(html.contains("Uploader:"));
    assert!(html.contains("<br>"));
}

#[test]
fn rich_preview_html_respects_telegram_limit() {
    let file = FileHit {
        file_name: "A.jpg".into(),
        description_url: Some("https://commons.wikimedia.org/wiki/File:A.jpg".into()),
        thumb_url: Some("https://upload.wikimedia.org/thumb/a.jpg".into()),
        mime: Some("image/jpeg".into()),
        description_text: Some("Long description ".repeat(10_000)),
        ..FileHit::default()
    };

    let html = rich_image_preview_html(&vec![file], &Preferences::default());

    assert!(html.chars().count() <= TELEGRAM_RICH_MESSAGE_LIMIT_CHARS);
    assert!(html.contains("A.jpg"));
}

#[test]
fn rich_preview_html_can_disable_metadata() {
    let preferences = Preferences {
        show_preview_metadata: false,
        rich_image_previews: true,
        ..Preferences::default()
    };
    let file = FileHit {
        file_name: "A.jpg".into(),
        description_url: Some("https://commons.wikimedia.org/wiki/File:A.jpg".into()),
        thumb_url: Some("https://upload.wikimedia.org/thumb/a.jpg".into()),
        mime: Some("image/jpeg".into()),
        uploader: Some("Example".into()),
        ..FileHit::default()
    };

    let html = rich_image_preview_html(&vec![file], &preferences);

    assert!(
        html.contains("<a href=\"https://commons.wikimedia.org/wiki/File:A.jpg\">A.jpg</a>")
    );
    assert!(!html.contains("Uploader:"));
}

fn caption_lines_needing_removed_indexes(removed_indexes: &[usize]) -> Vec<String> {
    let mut lines = base_priority_caption_lines();
    let base_after_removal = lines
        .iter()
        .enumerate()
        .filter(|(index, _)| !removed_indexes.contains(index))
        .map(|(_, line)| line.as_str())
        .collect::<Vec<_>>()
        .join("\n");
    let filler =
        TELEGRAM_PHOTO_CAPTION_LIMIT_CHARS - base_after_removal.chars().count() - 1;
    lines.push("x".repeat(filler));
    lines
}

fn base_priority_caption_lines() -> Vec<String> {
    vec![
        "<b>A.jpg</b>".into(),
        "F-number: f/7".into(),
        "ISO speed rating: 400".into(),
        "Lens focal length: 11 mm".into(),
        "Exposure time: 10/850 sec".into(),
        "History".into(),
    ]
}

#[test]
fn preview_prefers_thumbnail_for_small_supported_photo() {
    let file = FileHit {
        file_name: "Small.jpg".into(),
        mime: Some("image/jpeg".into()),
        url: Some("https://upload.wikimedia.org/original.jpg".into()),
        thumb_url: Some("https://upload.wikimedia.org/thumb.jpg".into()),
        size_bytes: 4 * 1024 * 1024,
        width: Some(3000),
        height: Some(2000),
        ..FileHit::default()
    };

    assert_eq!(
        telegram_preview_url(&file).as_deref(),
        Some("https://upload.wikimedia.org/thumb.jpg")
    );
}

#[test]
fn inline_photo_uses_preview_url() {
    let file = FileHit {
        page_id: 7,
        file_name: "Small.jpg".into(),
        mime: Some("image/jpeg".into()),
        url: Some("https://upload.wikimedia.org/original.jpg".into()),
        thumb_url: Some("https://upload.wikimedia.org/thumb.jpg".into()),
        description_url: Some("https://commons.wikimedia.org/wiki/File:Small.jpg".into()),
        size_bytes: 4 * 1024 * 1024,
        width: Some(3000),
        height: Some(2000),
        ..FileHit::default()
    };

    let result = photo(inline_result(&file).unwrap());

    assert_eq!(
        result.photo_url,
        "https://upload.wikimedia.org/thumb.jpg"
    );
    assert_eq!(
        result.thumbnail_url,
        "https://upload.wikimedia.org/thumb.jpg"
    );
}

#[test]
fn inline_result_uses_metadata_description() {
    let file = FileHit {
        page_id: 7,
        file_name: "Small.jpg".into(),
        mime: Some("image/jpeg".into()),
        thumb_url: Some("https://upload.wikimedia.org/thumb.jpg".into()),
        description_url: Some("https://commons.wikimedia.org/wiki/File:Small.jpg".into()),
        caption_text: Some("Short caption".into()),
        ..FileHit::default()
    };

    let result = photo(inline_result(&file).unwrap());

    assert_eq!(result.description, "Short caption");
}

#[test]
fn inline_description_is_shortened() {
    assert_eq!(short_inline_text(&"word ".repeat(40)).chars().count(), 120);
}

#[test]
fn preview_falls_back_to_thumbnail_for_large_original() {
    let file = FileHit {
        file_name: "Large.jpg".into(),
        mime: Some("image/jpeg".into()),
        url: Some("https://upload.wikimedia.org/original.jpg".into()),
        thumb_url: Some("https://upload.wikimedia.org/thumb.jpg".into()),
        size_bytes: 6 * 1024 * 1024,
        width: Some(3000),
        height: Some(2000),
        ..FileHit::default()
    };

    assert_eq!(
        telegram_preview_url(&file).as_deref(),
        Some("https://upload.wikimedia.org/thumb.jpg")
    );
}

#[test]
fn preview_uses_original_when_thumbnail_is_missing() {
    let file = FileHit {
        file_name: "Small.jpg".into(),
        mime: Some("image/jpeg".into()),
        url: Some("https://upload.wikimedia.org/original.jpg".into()),
        size_bytes: 500 * 1024,
        width: Some(1200),
        height: Some(900),
        ..FileHit::default()
    };

    assert_eq!(
        telegram_preview_url(&file).as_deref(),
        Some("https://upload.wikimedia.org/original.jpg")
    );
}

#[test]
fn preview_falls_back_to_thumbnail_for_non_jpeg_original() {
    let file = FileHit {
        file_name: "Screenshot.png".into(),
        mime: Some("image/png".into()),
        url: Some("https://upload.wikimedia.org/original.png".into()),
        thumb_url: Some("https://upload.wikimedia.org/thumb.png".into()),
        size_bytes: 500 * 1024,
        width: Some(1200),
        height: Some(900),
        ..FileHit::default()
    };

    assert_eq!(
        telegram_preview_url(&file).as_deref(),
        Some("https://upload.wikimedia.org/thumb.png")
    );
}

#[test]
fn preview_falls_back_to_thumbnail_for_unsupported_or_extreme_originals() {
    let svg = FileHit {
        file_name: "Vector.svg".into(),
        mime: Some("image/svg+xml".into()),
        url: Some("https://upload.wikimedia.org/original.svg".into()),
        thumb_url: Some("https://upload.wikimedia.org/thumb.png".into()),
        size_bytes: 200 * 1024,
        width: Some(2000),
        height: Some(1000),
        ..FileHit::default()
    };
    let panorama = FileHit {
        file_name: "Panorama.jpg".into(),
        mime: Some("image/jpeg".into()),
        url: Some("https://upload.wikimedia.org/original.jpg".into()),
        thumb_url: Some("https://upload.wikimedia.org/thumb.jpg".into()),
        size_bytes: 500 * 1024,
        width: Some(21_000),
        height: Some(1000),
        ..FileHit::default()
    };

    assert_eq!(
        telegram_preview_url(&svg).as_deref(),
        Some("https://upload.wikimedia.org/thumb.png")
    );
    assert_eq!(
        telegram_preview_url(&panorama).as_deref(),
        Some("https://upload.wikimedia.org/thumb.jpg")
    );
}

fn jpeg(name: &str) -> FileHit {
    FileHit {
        page_id: 7,
        file_name: name.into(),
        mime: Some("image/jpeg".into()),
        url: Some("https://u/a.jpg".into()),
        thumb_url: Some("https://t/a.jpg".into()),
        description_url: Some("https://d/a".into()),
        ..FileHit::default()
    }
}

#[test]
fn markup_is_escaped() {
    assert_eq!(escape_text("<a & \"b\">"), "&lt;a &amp; \"b\"&gt;");
    assert_eq!(escape_attr("<a & \"b\">"), "&lt;a &amp; &quot;b&quot;&gt;");
    assert_eq!(html_link("https://a/?x=\"&y", "<b>"), "<a href=\"https://a/?x=&quot;&amp;y\">&lt;b&gt;</a>");
}

#[test]
fn captions_fit_and_short_ones_are_kept() {
    let preferences = Preferences::default();
    let short = jpeg("A.jpg");
    assert_eq!(
        telegram_photo_caption(&short, &preferences),
        Some(format_file_metadata(&short, &preferences))
    );
    let long = FileHit {
        description_text: Some("words ".repeat(1000)),
        ..jpeg("A.jpg")
    };
    if let Some(caption) = telegram_photo_caption(&long, &preferences) {
        assert!(caption.chars().count() <= TELEGRAM_PHOTO_CAPTION_LIMIT_CHARS);
    }
}

#[test]
fn results_are_delivered_as_chosen() {
    let preferences = Preferences::default();
    assert_eq!(choose_delivery(&preferences, false, false), Delivery::Buttons);
    assert_eq!(choose_delivery(&preferences, true, false), Delivery::Links);
    assert!(matches!(choose_delivery(&preferences, false, true), Delivery::Previews(_)));
}

#[test]
fn large_originals_are_uploaded() {
    let large = FileHit {
        size_bytes: 21 * 1024 * 1024,
        ..jpeg("A.jpg")
    };
    assert_eq!(choose_original_delivery(&large), OriginalDelivery::Upload);
    assert_eq!(choose_original_delivery(&jpeg("A.jpg")), OriginalDelivery::ByAddress);
}

#[test]
fn inline_answers_are_limited() {
    let files: Vec<FileHit> = (0..60)
        .map(|page_id| FileHit {
            page_id,
            ..jpeg("A.jpg")
        })
        .collect();
    assert_eq!(inline_results(&files).len(), 50);
    assert!(inline_cache_seconds(0) < inline_cache_seconds(1));
    let audio = FileHit {
        mime: Some("audio/ogg".into()),
        thumb_url: None,
        ..jpeg("A.ogg")
    };
    assert!(matches!(inline_result(&audio), Some(InlineResult::Article(_))));
}

#[test]
fn lists_become_replies() {
    let preferences = Preferences::default();
    let files: Vec<FileHit> = (0..45)
        .map(|page_id| FileHit {
            page_id,
            ..jpeg("A.jpg")
        })
        .collect();
    assert!(needs_page_token(45, true));
    assert!(!needs_page_token(45, false));
    assert!(!needs_page_token(20, true));
    let reply = file_list_reply(&files, &preferences, Some("abc"));
    let rows = reply.rows.unwrap();
    assert_eq!(rows.len(), 21);
    assert_eq!(rows[20][0].callback_data.as_deref(), Some("pg:f:abc:1"));
    let empty = file_list_reply(&vec![], &preferences, None);
    assert!(empty.rows.is_none());
}

#[test]
fn methods_have_an_address() {
    assert_eq!(
        method_url("12:ab", "sendMessage"),
        "https://api.telegram.org/bot12:ab/sendMessage"
    );
}

#[test]
fn texts_are_truncated_visibly() {
    assert_eq!(truncate_visible_text("abc", 5), "abc");
    let cut = truncate_visible_text(&"x".repeat(50), 10);
    assert!(cut.chars().count() <= 10);
}

#[test]
fn a_link_that_does_not_fit_gives_way_to_the_name() {
    let file = FileHit {
        description_url: Some(format!("https://d/{}", "a".repeat(2000))),
        ..jpeg("A & B.jpg")
    };
    let plain = Preferences {
        show_preview_metadata: false,
        ..Preferences::default()
    };
    assert_eq!(telegram_photo_caption(&file, &plain).as_deref(), Some("A &amp; B.jpg"));
    let caption = telegram_photo_caption(&file, &Preferences::default()).unwrap();
    assert!(caption.chars().count() <= TELEGRAM_PHOTO_CAPTION_LIMIT_CHARS);
    assert!(compact_file_metadata_caption(&file, &plain).chars().count()
        <= TELEGRAM_PHOTO_CAPTION_LIMIT_CHARS);

    let short = jpeg("A.jpg");
    assert_eq!(
        telegram_photo_caption(&short, &plain).as_deref(),
        Some("<a href=\"https://d/a\">A.jpg</a>")
    );
    let unlinked = FileHit {
        description_url: None,
        ..jpeg("A.jpg")
    };
    assert!(telegram_photo_caption(&unlinked, &plain).is_none());
    let ampersands = FileHit {
        file_name: "&".repeat(3000),
        ..file
    };
    assert!(telegram_photo_caption(&ampersands, &plain).unwrap().chars().count()
        <= TELEGRAM_PHOTO_CAPTION_LIMIT_CHARS);
}
