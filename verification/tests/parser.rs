//! The search language.

use commons_bot::models::{DateFilter, FileType, Intent, SizeOp};
use commons_bot::parser::{
    decimal_char, fold_char, is_audio_extension, is_commons_supported_extension,
    is_image_extension, is_video_extension, normalize_alias, normalize_category,
    parse_date_filter, parse_intent, parse_search, tokenize,
};
use regex::Regex;

#[test]
fn parses_audio_user_date_and_size() {
    let tokens = tokenize("audio:something user:Vitaly_Zdanevich date:7days s:>10MB s:<20MB");
    let query = parse_search("raw", &tokens);
    assert_eq!(query.file_type, Some(FileType::Audio));
    assert_eq!(query.terms, vec!["something"]);
    assert_eq!(query.user, Some("Vitaly_Zdanevich".into()));
    assert_eq!(query.date, Some(DateFilter::RelativeDays(7)));
    assert_eq!(query.size_filters.len(), 2);
    assert_eq!(query.size_filters[0].op, SizeOp::GreaterThan);
    assert_eq!(query.size_filters[0].bytes, 10 * 1024 * 1024);
    assert_eq!(query.size_filters[1].op, SizeOp::LessThan);
}

#[test]
fn parses_category_intent_aliases() {
    assert_eq!(
        parse_intent("Катэгорыя нешта"),
        Intent::CategorySearch("нешта".into())
    );
    assert_eq!(
        parse_intent("category: Minsk"),
        Intent::CategorySearch("Minsk".into())
    );
    assert_eq!(
        parse_intent("c minsk"),
        Intent::CategorySearch("minsk".into())
    );
    assert_eq!(
        parse_intent("c:minsk"),
        Intent::CategorySearch("minsk".into())
    );
    match parse_intent("cat minsk") {
        Intent::FileSearch(query) => assert_eq!(query.terms, vec!["cat", "minsk"]),
        other => panic!("expected FileSearch for literal cat query, got {other:?}"),
    }
}

#[test]
fn parses_category_filter_with_extension() {
    let tokens = tokenize("flac minsk c some_category");
    let query = parse_search("raw", &tokens);
    assert_eq!(query.extension, Some("flac".into()));
    assert_eq!(query.terms, vec!["minsk"]);
    assert_eq!(query.category, Some("some category".into()));
}

#[test]
fn parses_settings_intent_alias() {
    assert_eq!(parse_intent("/settings"), Intent::Preferences);
    assert_eq!(parse_intent("settings"), Intent::Preferences);
}

#[test]
fn parses_result_delivery_flags() {
    let tokens = tokenize("-img Minsk");
    let query = parse_search("raw", &tokens);
    assert!(query.image_previews_flag);
    assert_eq!(query.file_type, Some(FileType::Images));
    assert_eq!(query.terms, vec!["Minsk"]);

    let tokens = tokenize("—links Minsk");
    let query = parse_search("raw", &tokens);
    assert!(query.links_flag);
}

#[test]
fn parses_belarusian_image_alias() {
    let tokens = tokenize("ваява:something user:Vitaly_Zdanevich d:month c:Minsk");
    let query = parse_search("raw", &tokens);
    assert_eq!(query.file_type, Some(FileType::Images));
    assert_eq!(query.terms, vec!["something"]);
    assert_eq!(query.date, Some(DateFilter::PreviousMonth));
    assert_eq!(query.category, Some("Minsk".into()));
}

#[test]
fn parses_german_aliases() {
    assert_eq!(
        parse_intent("Kategorie Berlin"),
        Intent::CategorySearch("Berlin".into())
    );
    let tokens = tokenize("bild:Berlin benutzer:Example datum:monat groesse:<1MB");
    let query = parse_search("raw", &tokens);
    assert_eq!(query.file_type, Some(FileType::Images));
    assert_eq!(query.user, Some("Example".into()));
    assert_eq!(query.date, Some(DateFilter::PreviousMonth));
    assert_eq!(query.size_filters[0].op, SizeOp::LessThan);
}

#[test]
fn parses_short_user_alias() {
    let tokens = tokenize("u:Красный -img");
    let query = parse_search("raw", &tokens);
    assert_eq!(query.user, Some("Красный".into()));
    assert!(query.image_previews_flag);
    assert!(query.terms.is_empty());

    let tokens = tokenize("u Красный");
    let query = parse_search("raw", &tokens);
    assert_eq!(query.user, Some("Красный".into()));
    assert!(query.terms.is_empty());

    let tokens = tokenize("U:Красный");
    let query = parse_search("raw", &tokens);
    assert_eq!(query.user, Some("Красный".into()));
    assert!(query.terms.is_empty());
}

#[test]
fn tokenizes_quoted_terms() {
    assert_eq!(
        tokenize(r#"jpg "New York" user:Some_User"#),
        vec!["jpg", "New York", "user:Some_User"]
    );
}

fn every_char() -> String {
    ('\0'..=char::MAX).collect()
}

fn search(token: &str) -> commons_bot::models::SearchQuery {
    parse_search(token, &vec![token.to_string()])
}

#[test]
fn letters_fold_like_the_patterns() {
    let all = every_char();
    for letter in "abcdefghijklmnopqrstuvwxyzößабвгдежзийклмнопрстуфхцчшщъыьэюя".chars() {
        let pattern = Regex::new(&format!("(?i){letter}")).unwrap();
        let matched: Vec<char> = pattern
            .find_iter(&all)
            .flat_map(|found| found.as_str().chars())
            .collect();
        let folded: Vec<char> = all
            .chars()
            .filter(|c| fold_char(*c) == fold_char(letter))
            .collect();
        if letter == 'ß' || letter == 'ö' || letter.is_ascii() || "категорияыс".contains(letter) {
            assert_eq!(matched, folded, "{letter}");
        }
    }
}

#[test]
fn digits_are_those_of_the_patterns() {
    let all = every_char();
    let digit = Regex::new(r"\d").unwrap();
    let matched: Vec<char> = digit
        .find_iter(&all)
        .flat_map(|found| found.as_str().chars())
        .collect();
    assert!(matched.iter().all(|c| decimal_char(*c)));
    for c in all.chars().step_by(499).chain('\0'..='\u{ff}') {
        assert_eq!(decimal_char(c), matched.contains(&c), "{c:?}");
    }
}

#[test]
fn tokens_are_those_of_the_pattern() {
    let pattern = Regex::new(r#""([^"]+)"|'([^']+)'|(\S+)"#).unwrap();
    for text in [
        "",
        "   ",
        "a b",
        "\"a b\" c",
        "'a b' c",
        "\"\" x",
        "'' x",
        "\"open a b",
        "it's a 'b c'",
        "a\"b c\"d",
        "\"a\"'b'c",
        "\"a\nb\"\u{a0}c",
        "'\"' \"'\"",
        "\"'a' b\" '",
    ] {
        let expected: Vec<String> = pattern
            .captures_iter(text)
            .filter_map(|c| c.get(1).or_else(|| c.get(2)).or_else(|| c.get(3)))
            .map(|found| found.as_str().to_string())
            .collect();
        assert_eq!(tokenize(text), expected, "{text:?}");
        assert!(tokenize(text).iter().all(|token| !token.is_empty()));
    }
}

#[test]
fn sizes_are_read_like_the_pattern() {
    let pattern =
        Regex::new(r"(?i)^(size|s|groesse|größe|g):\s*([<>])\s*(\d+(?:\.\d+)?)\s*([kmgt]?b?)$")
            .unwrap();
    for token in [
        "s:>10mb",
        "S:<1.5KB",
        "size: > 2 g",
        "größe:>0.1m",
        "GRÖSSE:>1",
        "GRÖßE:>1t",
        "groesse:<3b",
        "g:>7",
        "s:>.5mb",
        "s:>5.",
        "s:>5.5.5",
        "s:=5",
        "s:>5x",
        "\u{17f}:>5\u{212a}b",
        "s:>0.3333333333333333gb",
        "s:>123456789.987654321kb",
        "s:>99999999999999999999t",
        "s:>16777216.0000001t",
        "s:>1.0000000000000002",
        "s:>4503599627370497.5",
        "s:>9007199254740993",
    ] {
        let query = search(token);
        let expected = pattern.captures(token).and_then(|c| {
            let number = c[3].parse::<f64>().ok()?;
            let factor = match c[4].to_ascii_lowercase().as_str() {
                "" | "b" => 1.0,
                "k" | "kb" => 1024.0,
                "m" | "mb" => 1024.0 * 1024.0,
                "g" | "gb" => 1024.0 * 1024.0 * 1024.0,
                "t" | "tb" => 1024.0 * 1024.0 * 1024.0 * 1024.0,
                _ => return None,
            };
            Some((c[2].to_string(), (number * factor) as u64))
        });
        let found = query.size_filters.first().map(|filter| {
            let op = match filter.op {
                SizeOp::GreaterThan => ">",
                SizeOp::LessThan => "<",
            };
            (op.to_string(), filter.bytes)
        });
        assert_eq!(found, expected, "{token}");
    }
}

#[test]
fn users_and_categories_are_read_like_the_patterns() {
    let user = Regex::new(r"(?i)^(user|u|benutzer):\s*(.+)$").unwrap();
    let category =
        Regex::new(r"(?i)^(c|category|категория|катэгорыя|kategorie|kat|к|с):\s*(.+)$").unwrap();
    for token in [
        "user:Jane",
        "U: Jane Doe",
        "benutzer:x",
        "user:",
        "users:x",
        "user: ",
        "user:a\nb",
        "c:Minsk",
        "КАТЭГОРЫЯ:Мінск",
        "с: x",
        "category:a:b",
    ] {
        let query = search(token);
        match user.captures(token) {
            Some(c) => assert_eq!(
                query.user.as_deref().map(str::trim),
                Some(c[2].trim()),
                "{token:?}"
            ),
            None => assert_eq!(query.user, None, "{token:?}"),
        }
        match category.captures(token) {
            Some(c) => assert_eq!(query.category, Some(normalize_category(&c[2])), "{token:?}"),
            None => assert_eq!(query.category, None, "{token:?}"),
        }
    }
}

#[test]
fn dates_are_read() {
    assert_eq!(parse_date_filter("2025"), Some(DateFilter::Year(2025)));
    assert_eq!(parse_date_filter("7days"), Some(DateFilter::RelativeDays(7)));
    assert_eq!(parse_date_filter("monat"), Some(DateFilter::PreviousMonth));
    assert_eq!(parse_date_filter("YEAR"), Some(DateFilter::PreviousYear));
    assert_eq!(
        parse_date_filter("2025-01-02"),
        Some(DateFilter::Day("2025-01-02".into()))
    );
    assert_eq!(parse_date_filter("4294967296days"), None);
    assert_eq!(parse_date_filter("soon"), None);
}

#[test]
fn a_search_keeps_its_text_and_takes_its_terms_from_it() {
    let tokens = tokenize("flac Minsk 'old town' c birds");
    let query = parse_search("flac Minsk 'old town' c birds", &tokens);
    assert_eq!(query.raw, "flac Minsk 'old town' c birds");
    assert!(query.terms.iter().all(|term| tokens.contains(term)));
    assert_eq!(query.terms, vec!["Minsk", "old town"]);
    assert_eq!(query.category.as_deref(), Some("birds"));
}

#[test]
fn names_of_categories_hold_spaces() {
    assert_eq!(normalize_category("Category:Old_town"), "Old town");
    assert!(!normalize_category("__a_b__").contains('_'));
}

#[test]
fn aliases_are_lowered() {
    assert_eq!(normalize_alias(" КАТЭГОРЫЯ "), "катэгорыя");
    assert_eq!(normalize_alias("ΑΣ"), "ας");
}

#[test]
fn extensions_have_a_family() {
    assert!(is_image_extension("JPG"));
    assert!(is_audio_extension("flac"));
    assert!(is_video_extension("mp4"));
    assert!(is_commons_supported_extension(".WebP"));
    assert!(!is_commons_supported_extension("avif"));
}

#[test]
fn an_empty_message_has_no_intent() {
    assert_eq!(parse_intent("  "), Intent::Empty);
    assert_eq!(parse_intent("/help"), Intent::Help);
    assert_eq!(parse_intent("/stats"), Intent::Stats);
}
