//! File metadata.

use commons_bot::cookies::{lwp_cookie_header, unquote_lwp_value};
use commons_bot::metadata::{
    ApiImageInfo, ApiPage, ExifReadings, ExtMetadataEntry, Field, MetadataEntry, Reading,
    exif_texts, format_decimal, format_exposure_time, format_f_number,
    format_focal_length, format_integer_grouped, format_iso_speed, latest_version,
    metadata_string, metadata_value, page_to_hit, pages_to_hits, parse_animation_flag,
    parse_coordinates, strip_html, strip_tags,
};
use commons_bot::models::NumberText;
use regex::Regex;

fn number(value: u64) -> Field {
    Field::Number(NumberText {
        written: value.to_string(),
        whole: Some(value),
        six_decimals: format!("{:.6}", value as f64),
        one_decimal: format!("{:.1}", value as f64),
    })
}

fn parse_decimal(value: &str) -> Option<f64> {
    value.trim().parse::<f64>().ok()
}

fn parse_fraction(value: &str) -> Option<(f64, f64)> {
    let (numerator, denominator) = value.split_once('/')?;
    let numerator = parse_decimal(numerator)?;
    let denominator = parse_decimal(denominator)?;
    if denominator == 0.0 {
        return None;
    }
    Some((numerator, denominator))
}

fn reading(value: &str, decimals: usize) -> Reading {
    if let Some((numerator, denominator)) = parse_fraction(value) {
        return Reading::Quotient(
            format!("{:.*}", decimals, numerator / denominator),
            (denominator - 1.0).abs() < f64::EPSILON,
        );
    }
    match parse_decimal(value) {
        Some(number) => Reading::Decimal(format!("{:.*}", decimals, number)),
        None => Reading::Unreadable,
    }
}

fn whole(value: &str) -> Option<u64> {
    let number = match parse_fraction(value) {
        Some((numerator, denominator)) => numerator / denominator,
        None => parse_decimal(value)?,
    };
    if number.is_finite() && number >= 0.0 {
        Some(number.round() as u64)
    } else {
        None
    }
}

#[test]
fn detects_gif_and_webp_animation_metadata() {
    let metadata = vec![MetadataEntry {
        name: "frameCount".into(),
        value: number(44),
    }];
    assert!(parse_animation_flag(&metadata));

    let metadata = vec![MetadataEntry {
        name: "animated".into(),
        value: Field::Flag(true),
    }];
    assert!(parse_animation_flag(&metadata));
}

#[test]
fn extracts_camera_model_metadata() {
    let metadata = vec![MetadataEntry {
        name: "Model".into(),
        value: Field::Text("Canon EOS 6D".into()),
    }];

    assert_eq!(
        metadata_string(&metadata, "model"),
        Some("Canon EOS 6D".into())
    );
}

#[test]
fn formats_common_exif_details() {
    assert_eq!(
        format_exposure_time("1/500", &reading("1/500", 3)).as_deref(),
        Some("1/500 sec (0.002)")
    );
    assert_eq!(format_f_number("71/10", &reading("71/10", 2)).as_deref(), Some("f/7.1"));
    assert_eq!(format_iso_speed("1250", whole("1250")).as_deref(), Some("1,250"));
    assert_eq!(format_focal_length("50/1", &reading("50/1", 1)).as_deref(), Some("50 mm"));
}

#[test]
fn strips_metadata_html() {
    assert_eq!(
        strip_html("<span>Jane&nbsp;Doe</span>"),
        "Jane\u{a0}Doe"
    );
}

#[test]
fn converts_lwp_cookie_jar_to_header() {
    let jar = r#"
Set-Cookie3: centralauth_User="Vitaly"; path="/"; domain=".wikimedia.org"; path_spec; expires="2030-01-01 00:00:00Z"; version=0
Set-Cookie3: commonswikiSession=abc123; path="/"; domain="commons.wikimedia.org"; path_spec; discard; version=0
Set-Cookie3: other=ignored; path="/"; domain="example.org"; path_spec; version=0
"#;

    assert_eq!(
        lwp_cookie_header(jar).as_deref(),
        Some("centralauth_User=Vitaly; commonswikiSession=abc123")
    );
}

#[test]
fn unquotes_lwp_cookie_values() {
    assert_eq!(unquote_lwp_value(r#""a\"b\\c""#), r#"a"b\c"#);
    assert_eq!(unquote_lwp_value("plain"), "plain");
}

fn entry(name: &str, value: Field) -> MetadataEntry {
    MetadataEntry {
        name: name.into(),
        value,
    }
}

fn words(s: &str) -> Field {
    Field::Text(s.to_string())
}

fn no_readings() -> ExifReadings {
    ExifReadings {
        exposure_time: Reading::Unreadable,
        f_number: Reading::Unreadable,
        iso_speed: None,
        focal_length: Reading::Unreadable,
    }
}

fn no_info() -> ApiImageInfo {
    ApiImageInfo {
        timestamp: None,
        user: None,
        url: None,
        descriptionurl: None,
        thumburl: None,
        size: None,
        width: None,
        height: None,
        sha1: None,
        mime: None,
        mediatype: None,
        duration: None,
        metadata: vec![],
        commonmetadata: vec![],
        extmetadata: vec![],
    }
}

#[test]
fn tags_are_stripped_like_the_pattern() {
    let tags = Regex::new(r"<[^>]+>").unwrap();
    for text in [
        "a<b>c</b>d",
        "a<>b",
        "<<a>b>c",
        "a < b",
        "<a\nb>c",
        "no tags",
        "<",
        ">",
        "<a",
        "<>a>b",
    ] {
        assert_eq!(strip_tags(text), tags.replace_all(text, ""), "{text}");
    }
}

#[test]
fn markup_is_decoded_and_trimmed() {
    assert_eq!(strip_html(" <i>A &amp; B</i> "), "A & B");
    assert_eq!(strip_html("<br>"), "");
}

#[test]
fn decimals_lose_their_zeros() {
    assert_eq!(format_decimal("7.10"), "7.1");
    assert_eq!(format_decimal("50.0"), "50");
    assert_eq!(format_decimal("100"), "100");
}

#[test]
fn whole_numbers_are_grouped() {
    assert_eq!(format_integer_grouped(0), "0");
    assert_eq!(format_integer_grouped(999), "999");
    assert_eq!(format_integer_grouped(1000), "1,000");
    assert_eq!(format_integer_grouped(u64::MAX), "18,446,744,073,709,551,615");
}

#[test]
fn unreadable_exif_details_keep_their_text() {
    assert_eq!(
        format_f_number("unknown", &reading("unknown", 2)).as_deref(),
        Some("f/unknown")
    );
    assert_eq!(format_f_number("2.8", &reading("2.8", 2)).as_deref(), Some("f/2.8"));
    assert_eq!(format_focal_length("35.5", &reading("35.5", 1)).as_deref(), Some("35.5 mm"));
}

#[test]
fn places_need_both_coordinates() {
    let place = |value: f64| {
        Field::Number(NumberText {
            written: value.to_string(),
            whole: None,
            six_decimals: format!("{value:.6}"),
            one_decimal: format!("{value:.1}"),
        })
    };
    let both = vec![
        entry("GPSLatitude", place(53.9)),
        entry("GPSLongitude", place(27.5)),
    ];
    let found = parse_coordinates(&both).unwrap();
    assert_eq!(found.lat.six_decimals, "53.900000");
    assert_eq!(found.lon.six_decimals, "27.500000");
    assert_eq!(found.lat.written, "53.9");
    assert!(parse_coordinates(&vec![entry("GPSLatitude", place(53.9))]).is_none());
}

#[test]
fn animation_needs_more_than_one_frame() {
    assert!(!parse_animation_flag(&vec![entry("frameCount", number(1))]));
    assert!(parse_animation_flag(&vec![entry("frameCount", number(2))]));
    assert!(!parse_animation_flag(&vec![]));
}

#[test]
fn extended_metadata_is_read_as_it_is() {
    let list = vec![
        ExtMetadataEntry {
            name: "Artist".into(),
            value: Some(words("<a href=\"x\">Jane</a>")),
        },
        ExtMetadataEntry {
            name: "Empty".into(),
            value: None,
        },
    ];
    assert_eq!(metadata_value(&list, "Artist").as_deref(), Some("<a href=\"x\">Jane</a>"));
    assert_eq!(metadata_value(&list, "Empty"), None);
    assert_eq!(metadata_value(&list, "Other"), None);
}

#[test]
fn a_page_becomes_a_file() {
    let old = ApiImageInfo {
        timestamp: Some("2020-01-01T00:00:00Z".into()),
        ..no_info()
    };
    let new = ApiImageInfo {
        timestamp: Some("2025-01-01T00:00:00Z".into()),
        user: Some("Jane".into()),
        size: Some(12),
        mime: Some("image/jpeg".into()),
        metadata: vec![
            entry("Model", words("Canon EOS 6D")),
            entry("FNumber", words("71/10")),
        ],
        ..no_info()
    };
    let page = ApiPage {
        pageid: Some(7),
        title: Some("File:A b.jpg".into()),
        imageinfo: vec![new, old],
        extract: None,
        pageprops: vec![],
    };
    let latest = latest_version(&page).unwrap();
    assert_eq!(latest.user.as_deref(), Some("Jane"));
    assert_eq!(exif_texts(latest).f_number.as_deref(), Some("71/10"));
    let readings = ExifReadings {
        f_number: reading("71/10", 2),
        ..no_readings()
    };
    let hit = page_to_hit(&page, &readings).unwrap();
    assert_eq!(hit.page_id, 7);
    assert_eq!(hit.file_name, "A b.jpg");
    assert_eq!(hit.size_bytes, 12);
    assert_eq!(hit.camera_model.as_deref(), Some("Canon EOS 6D"));
    assert_eq!(hit.f_number.as_deref(), Some("f/7.1"));
    assert_eq!(hit.version_count, Some(2));

    let bare = ApiPage {
        pageid: Some(8),
        title: Some("File:B.jpg".into()),
        imageinfo: vec![],
        extract: None,
        pageprops: vec![],
    };
    assert!(page_to_hit(&bare, &no_readings()).is_none());
    let hits = pages_to_hits(&vec![bare, page], &vec![no_readings(), no_readings()]);
    assert_eq!(hits.len(), 1);
    assert_eq!(hits[0].page_id, 7);
}

#[test]
fn cookies_of_other_places_are_left_out() {
    assert_eq!(lwp_cookie_header(""), None);
    assert_eq!(
        lwp_cookie_header("\nSet-Cookie3: a=b; domain=\"example.org\"; version=0\nx"),
        None
    );
    assert_eq!(lwp_cookie_header(" a=b; c=d "), Some("a=b; c=d".to_string()));
    assert_eq!(unquote_lwp_value("\""), "\"");
}

#[test]
fn categories_come_from_the_metadata() {
    let page = |extmetadata: Vec<ExtMetadataEntry>| ApiPage {
        pageid: Some(5),
        title: Some("File:A.jpg".into()),
        imageinfo: vec![ApiImageInfo { extmetadata, ..no_info() }],
        extract: None,
        pageprops: vec![],
    };
    let named = ExtMetadataEntry {
        name: "Categories".into(),
        value: Some(Field::Text("Minsk|Maps".into())),
    };
    let hit = page_to_hit(&page(vec![named]), &no_readings()).unwrap();
    assert_eq!(hit.categories_text.as_deref(), Some("Minsk|Maps"));
    let hit = page_to_hit(&page(vec![]), &no_readings()).unwrap();
    assert!(hit.categories_text.is_none());
}
