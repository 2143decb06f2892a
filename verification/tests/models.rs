//! Basic values and texts.

use commons_bot::models::{
    Coordinates, DateFilter, DeliveryMode, DocumentPageMode, FileHit, FileType, NumberText,
    Preferences, SearchQuery,
};
use commons_bot::numbers::{decimal, parse_signed, parse_unsigned, signed_decimal};
use commons_bot::rounding::{bar_length, nearest_whole, round_count};
use commons_bot::telegram::human_bytes;
use commons_bot::text::{
    ascii_lower_char, ascii_lowercase, contains, join, replace_text, shorten, split, split_once,
    split_words, trim, trim_end_char, trim_start_char, white,
};

#[test]
fn numerals_read_back() {
    for n in [0, 7, 10, 999, 1_000_000, u64::MAX - 1, u64::MAX] {
        assert_eq!(decimal(n), n.to_string());
        assert_eq!(parse_unsigned(&decimal(n), u64::MAX), Some(n));
    }
    for n in [0, -1, 42, i64::MIN, i64::MAX] {
        assert_eq!(signed_decimal(n), n.to_string());
    }
}

#[test]
fn numbers_are_read_like_std() {
    for s in ["", "+", "-", "+5", "-5", "007", " 5", "5 ", "1_0", "٣", "256", "--1", "+-1"] {
        assert_eq!(parse_unsigned(s, u64::MAX), s.parse::<u64>().ok(), "{s:?}");
        assert_eq!(parse_signed(s, i64::MAX), s.parse::<i64>().ok(), "{s:?}");
    }
    assert_eq!(parse_unsigned("18446744073709551616", u64::MAX), None);
    assert_eq!(parse_signed("-9223372036854775808", i64::MAX), Some(i64::MIN));
    assert_eq!(parse_signed("-9223372036854775809", i64::MAX), None);
    assert_eq!(parse_unsigned("256", 255), None);
}

#[test]
fn preference_values_read_back() {
    for t in [FileType::All, FileType::Images, FileType::Audio, FileType::Video] {
        assert_eq!(FileType::parse(t.as_pref_value()), Some(t));
    }
    for m in [
        DeliveryMode::Buttons,
        DeliveryMode::Links10,
        DeliveryMode::Images10,
        DeliveryMode::Images20,
    ] {
        assert_eq!(DeliveryMode::parse(m.as_pref_value()), Some(m));
    }
    for m in [DocumentPageMode::Original, DocumentPageMode::RenderedPages] {
        assert_eq!(DocumentPageMode::parse(m.as_pref_value()), Some(m));
    }
    assert_eq!(FileType::parse("text"), None);
    assert_eq!(DeliveryMode::parse(""), None);
    assert_eq!(DocumentPageMode::parse("x"), None);
}

#[test]
fn inline_counts_are_normalized() {
    assert_eq!(Preferences::default().normalized_inline_result_count(), 50);
    assert_eq!(commons_bot::models::normalize_inline_result_count(10), 10);
    assert_eq!(commons_bot::models::normalize_inline_result_count(11), 50);
}

#[test]
fn files_know_their_kind() {
    let file = |name: &str, mime: Option<&str>| FileHit {
        title: format!("File:{name}"),
        file_name: name.into(),
        mime: mime.map(str::to_string),
        ..FileHit::default()
    };
    assert_eq!(file("A.B.JPG", None).extension().as_deref(), Some("jpg"));
    assert_eq!(file("none", None).extension(), None);
    assert!(file("a.ogg", Some("audio/ogg")).is_audio());
    assert!(!file("a.jpg", Some("image/jpeg")).is_audio());
    assert!(file("a.pdf", None).is_paginated_document());
    assert!(file("a.djvu", None).is_paginated_document());
    assert!(!file("a.jpg", None).is_paginated_document());
    assert!(file("A b.jpg", None).history_url().unwrap().contains("File%3AA%20b.jpg"));
}

#[test]
fn places_have_a_map() {
    let number = |value: f64| NumberText {
        written: value.to_string(),
        whole: None,
        six_decimals: format!("{value:.6}"),
        one_decimal: format!("{value:.1}"),
    };
    let place = Coordinates {
        lat: number(53.9),
        lon: number(-27.5),
    };
    assert_eq!(
        place.openstreetmap_url(),
        "https://www.openstreetmap.org/?mlat=53.900000&mlon=-27.500000#map=15/53.900000/-27.500000"
    );
}

#[test]
fn dates_are_written() {
    assert_eq!(DateFilter::Year(2025).to_text(), "2025");
    assert_eq!(DateFilter::Day("2025-01-02".into()).to_text(), "2025-01-02");
}

#[test]
fn terms_are_joined() {
    let query = SearchQuery {
        terms: vec!["a".into(), "b c".into()],
        ..SearchQuery::default()
    };
    assert_eq!(query.term_text(), "a b c");
}

#[test]
fn white_space_is_that_of_unicode() {
    for c in '\0'..=char::MAX {
        assert_eq!(white(c), c.is_whitespace(), "{c:?}");
        assert_eq!(ascii_lower_char(c), c.to_ascii_lowercase());
    }
}

#[test]
fn texts_are_cut_like_std() {
    for s in ["", " a  b\u{a0}c ", "a,b,,c,", "ааа", "x=y=z", "--a--", "\u{2003}\u{3000}"] {
        assert_eq!(trim(s), s.trim());
        assert_eq!(ascii_lowercase(s), s.to_ascii_lowercase());
        assert_eq!(split(s, ','), s.split(',').collect::<Vec<_>>());
        assert_eq!(split_words(s), s.split_whitespace().collect::<Vec<_>>());
        assert_eq!(
            split_once(s, '='),
            s.split_once('=').map(|(a, b)| (a.to_string(), b.to_string()))
        );
        assert_eq!(trim_start_char(s, '-'), s.trim_start_matches('-'));
        assert_eq!(trim_end_char(s, '-'), s.trim_end_matches('-'));
        assert_eq!(replace_text(s, "аа", "b"), s.replace("аа", "b"));
        assert_eq!(contains(s, "b"), s.contains("b"));
    }
    assert_eq!(join(&vec!["a".to_string(), "b".to_string()], ", "), "a, b");
    assert_eq!(shorten("abc", 3), "abc");
}

#[test]
fn byte_counts_are_rounded_like_floats() {
    let float = |bytes: u64| {
        let units = ["B", "KB", "MB", "GB"];
        let mut value = bytes as f64;
        let mut unit = units[0];
        for next in units.iter().skip(1) {
            if value < 1024.0 {
                break;
            }
            value /= 1024.0;
            unit = next;
        }
        if unit == "B" {
            format!("{bytes} B")
        } else {
            format!("{value:.1} {unit}")
        }
    };
    let mut n: u64 = 0;
    while n < 3_000_000 {
        assert_eq!(human_bytes(n), float(n), "{n}");
        n += 37;
    }
    let mut n: u64 = 1;
    while n < u64::MAX / 3 {
        for m in [n - 1, n, n + 1] {
            assert_eq!(human_bytes(m), float(m), "{m}");
        }
        n = n * 3 / 2 + 1;
    }
    for n in [u64::MAX, u64::MAX - 1023, 9_007_199_254_740_993, 1 << 63] {
        assert_eq!(human_bytes(n), float(n), "{n}");
    }
}

#[test]
fn counts_are_rounded_like_floats() {
    for n in [0, 1, (1 << 53) - 1, (1 << 53) + 1, (1 << 53) + 3, u64::MAX, u64::MAX - 1024] {
        assert_eq!(round_count(n), (n as f64) as u128, "{n}");
    }
    assert_eq!(nearest_whole(5, 2), 2);
    assert_eq!(nearest_whole(7, 2), 4);
    assert_eq!(nearest_whole(8, 3), 3);
}

#[test]
fn bars_are_as_long_as_with_floats() {
    for all in [1, 3, 7, 10, 19, 20, 21, 1000, u64::MAX] {
        for part in [0, 1, 2, all / 3, all / 2, all - 1, all] {
            if part <= all {
                let float = ((part as f64 / all as f64) * 20.0).round().max(1.0) as usize;
                assert_eq!(bar_length(part, all), float, "{part} of {all}");
            }
        }
    }
}
