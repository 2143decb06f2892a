//! The command line tool.

use commons_bot::cli::{
    AudioFault, CliSearch, category_line, cli_max_file_bytes, plan_search, play_audio,
    pretty_line, preview_images, sanitize_filename, subcategory_limit, tsv_line,
};
use commons_bot::models::{CategoryHit, FileHit};

#[test]
fn sanitizes_file_names() {
    assert_eq!(sanitize_filename("a/b.jpg"), "a_b.jpg");
    assert_eq!(sanitize_filename("nul\0name.jpg"), "nul_name.jpg");
}

#[test]
fn preview_images_ignores_empty_and_non_image_results() {
    assert_eq!(preview_images(&vec![]), (Vec::new(), true));
    let files = vec![FileHit {
        mime: Some("audio/ogg".into()),
        ..FileHit::default()
    }];
    assert_eq!(preview_images(&files), (Vec::new(), true));
}

#[test]
fn play_audio_reports_missing_audio_and_missing_url() {
    let error = play_audio(&vec![]).unwrap_err();
    assert!(error.message().contains("no audio file"));

    let error = play_audio(&vec![FileHit {
        mime: Some("audio/ogg".into()),
        ..FileHit::default()
    }])
    .unwrap_err();
    assert!(error.message().contains("audio file has no URL"));
    assert_eq!(error, AudioFault::NoAddress);
}

#[test]
fn previews_stop_at_an_image_without_address() {
    let image = |url: Option<&str>| FileHit {
        mime: Some("image/png".into()),
        thumb_url: url.map(str::to_string),
        ..FileHit::default()
    };
    let (shown, complete) = preview_images(&vec![image(Some("a")), image(None), image(Some("b"))]);
    assert_eq!(shown, vec!["a"]);
    assert!(!complete);
}

#[test]
fn the_first_audio_file_is_played() {
    let files = vec![
        FileHit::default(),
        FileHit {
            mime: Some("audio/ogg".into()),
            url: Some("https://a/b.ogg".into()),
            ..FileHit::default()
        },
    ];
    assert_eq!(play_audio(&files), Ok("https://a/b.ogg".to_string()));
}

#[test]
fn local_names_are_safe() {
    let name = sanitize_filename("/a//b\0");
    assert_eq!(name, "_a__b_");
    assert!(!name.contains('/') && !name.contains('\0'));
}

#[test]
fn words_become_a_search() {
    match plan_search("flac Minsk", true, true) {
        CliSearch::Files(query) => {
            assert_eq!(query.extension.as_deref(), Some("flac"));
            assert!(query.bypass_telegram_limit);
            assert!(query.sort_by_size);
        }
        CliSearch::Categories(_) => panic!("expected a search for files"),
    }
    match plan_search("c minsk", false, false) {
        CliSearch::Categories(name) => assert_eq!(name, "minsk"),
        CliSearch::Files(_) => panic!("expected a search for categories"),
    }
    match plan_search("/help", false, false) {
        CliSearch::Files(query) => assert!(query.terms.is_empty()),
        CliSearch::Categories(_) => panic!("expected a search for files"),
    }
    assert_eq!(cli_max_file_bytes(true, 5), u64::MAX);
    assert_eq!(cli_max_file_bytes(false, 5), 5);
    assert_eq!(subcategory_limit(true), 20);
    assert_eq!(subcategory_limit(false), 0);
}

#[test]
fn results_are_written_as_lines() {
    let file = FileHit {
        page_id: 7,
        title: "File:A.jpg".into(),
        file_name: "A.jpg".into(),
        size_bytes: 1536,
        url: Some("https://a/A.jpg".into()),
        ..FileHit::default()
    };
    assert_eq!(pretty_line(&file), "7  1.5 KB  File:A.jpg");
    assert_eq!(tsv_line(&file), "7\t1536\tA.jpg\thttps://a/A.jpg");
    let category = CategoryHit {
        page_id: 9,
        title: "Category:Minsk".into(),
        ..CategoryHit::default()
    };
    assert_eq!(category_line(&category), "9\tCategory:Minsk");
}
