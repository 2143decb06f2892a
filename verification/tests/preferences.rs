//! Preferences as items of a table.

use commons_bot::config::Config;
use commons_bot::models::{DeliveryMode, FileType, Preferences};
use commons_bot::preferences::{
    Attribute, Lookup, PreferenceStore, item_to_preferences, preferences_to_item, user_item_key,
};
use std::collections::HashMap;

fn text(s: &str) -> Attribute {
    Attribute { s: Some(s.to_string()), n: None, boolean: None, list: None }
}

#[test]
fn round_trips_preferences_through_dynamodb_json() {
    let prefs = Preferences {
        show_category_counts: true,
        delivery_mode: DeliveryMode::Images20,
        file_type: FileType::Audio,
        extension: Some("flac".into()),
        favorite_categories: vec!["Minsk".into()],
        show_sha1: true,
        show_preview_metadata: false,
        pagination_enabled: false,
        ..Preferences::default()
    };
    let item = preferences_to_item(42, &prefs);
    let parsed = item_to_preferences(&item);
    assert!(parsed.show_category_counts);
    assert_eq!(parsed.delivery_mode, DeliveryMode::Images20);
    assert_eq!(parsed.file_type, FileType::Audio);
    assert_eq!(parsed.extension, Some("flac".into()));
    assert_eq!(parsed.favorite_categories, vec!["Minsk"]);
    assert!(parsed.show_sha1);
    assert!(!parsed.show_preview_metadata);
    assert!(!parsed.pagination_enabled);
}

#[test]
fn old_preferences_default_to_new_enabled_flags() {
    let item = vec![
        ("pk".to_string(), text("USER#42")),
        ("sk".to_string(), text("PREFERENCES")),
    ];
    let preferences = item_to_preferences(&item);
    assert!(preferences.show_preview_metadata);
    assert!(preferences.pagination_enabled);
}

fn preference_store(vars: &[(&str, &str)]) -> PreferenceStore {
    let vars = vars
        .iter()
        .map(|(name, value)| (name.to_string(), value.to_string()))
        .collect();
    PreferenceStore::new(&Config::from_env_lookup(&vars))
}

#[test]
fn a_bare_item_gives_the_defaults() {
    assert_eq!(item_to_preferences(&vec![]), Preferences::default());
}

#[test]
fn items_belong_to_a_user() {
    assert_eq!(user_item_key(-42), "USER#-42");
    let item = preferences_to_item(42, &Preferences::default());
    assert!(item
        .iter()
        .any(|(name, value)| name == "pk" && value.s.as_deref() == Some("USER#42")));
    assert!(item
        .iter()
        .any(|(name, value)| name == "sk" && value.s.as_deref() == Some("PREFERENCES")));
}

#[test]
fn stored_preferences_are_known_afterwards() {
    let store = preference_store(&[("DYNAMODB_TABLE", "t")]);
    let mut known = HashMap::new();
    assert!(matches!(store.get(&known, 7, true), Lookup::Load));
    let loaded = PreferenceStore::take_loaded(&mut known, 7, None);
    assert_eq!(loaded, Preferences::default());
    assert!(matches!(store.get(&known, 7, true), Lookup::Known(_)));

    let changed = Preferences {
        show_sha1: true,
        ..Preferences::default()
    };
    assert!(store.put(&mut known, 7, &changed, true));
    match store.get(&known, 7, true) {
        Lookup::Known(preferences) => assert_eq!(preferences, changed),
        Lookup::Load => panic!("expected known preferences"),
    }
    assert!(matches!(store.get(&known, 8, true), Lookup::Load));
}

#[test]
fn without_a_table_defaults_are_used() {
    for store in [
        preference_store(&[]),
        preference_store(&[("DYNAMODB_TABLE", "t"), ("STATELESS_MODE", "true")]),
    ] {
        let mut known = HashMap::new();
        let changed = Preferences {
            show_sha1: true,
            ..Preferences::default()
        };
        assert!(!store.uses_table(true));
        assert!(!store.put(&mut known, 7, &changed, true));
        match store.get(&known, 7, true) {
            Lookup::Known(preferences) => assert_eq!(preferences, Preferences::default()),
            Lookup::Load => panic!("expected known preferences"),
        }
    }
}

#[test]
fn every_choice_survives_storage() {
    let chosen = Preferences {
        rich_image_previews: !Preferences::default().rich_image_previews,
        category_file_buttons: !Preferences::default().category_file_buttons,
        inline_result_count: 20,
        blacklist_categories: vec!["Bad scans".into()],
        blacklist_uploaders: vec!["Example_User".into()],
        ..Preferences::default()
    };
    let item = preferences_to_item(42, &chosen);
    assert!(item
        .iter()
        .any(|(name, value)| name == "inline_result_count" && value.n.as_deref() == Some("20")));
    assert_eq!(item_to_preferences(&item), chosen);

    let odd = Preferences {
        extension: Some(String::new()),
        inline_result_count: 7,
        ..Preferences::default()
    };
    assert_eq!(item_to_preferences(&preferences_to_item(42, &odd)), Preferences::default());
}

#[test]
fn a_count_that_is_no_number_is_the_default() {
    let count = |n: Option<&str>| {
        let attribute = Attribute { n: n.map(str::to_string), ..text("10") };
        item_to_preferences(&vec![("inline_result_count".to_string(), attribute)])
            .inline_result_count
    };
    assert_eq!(count(Some("10")), 10);
    assert_eq!(count(Some("11")), 50);
    assert_eq!(count(Some("many")), 50);
    assert_eq!(count(None), 50);
}
