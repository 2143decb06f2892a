//! Preference commands, menus and texts.

use commons_bot::config::Config;
use commons_bot::models::{DeliveryMode, DocumentPageMode, FileType, Preferences};
use commons_bot::settings::{
    ExtensionGroup, PreferencesView, apply_preference_callback, checked_label,
    extension_group_for, format_preferences, help_text, is_preferences_update_command,
    preferences_keyboard, toggle_label, update_preferences,
};
use commons_bot::telegram::InlineKeyboardMarkup;

fn test_config(stateless_mode: bool) -> Config {
    Config {
        telegram_bot_token: None,
        telegram_webhook_secret: None,
        admin_user_ids: vec![42],
        github_url: "https://github.com/vitaly-zdanevich/bot_telegram_wikimedia_commons".into(),
        aws_region: "us-east-1".into(),
        lambda_function_name: "telegram-wikimedia-commons-bot".into(),
        dynamodb_table: Some("telegram-wikimedia-commons-bot-preferences".into()),
        stateless_mode,
        max_file_bytes: 50 * 1024 * 1024,
        user_agent: "test-agent".into(),
        commons_api_url: "https://commons.wikimedia.org/w/api.php".into(),
        commons_auth_cookie_ssm_parameter: None,
        enable_test_endpoint: false,
    }
}

fn keyboard_labels(keyboard: &InlineKeyboardMarkup) -> Vec<&str> {
    keyboard
        .inline_keyboard
        .iter()
        .flatten()
        .map(|button| button.text.as_str())
        .collect()
}

#[test]
fn updates_preferences_from_command() {
    let prefs = update_preferences("/prefs mode images20", Preferences::default());
    assert_eq!(prefs.delivery_mode, DeliveryMode::Images20);
    let prefs = update_preferences("/prefs type audio", prefs);
    assert_eq!(prefs.file_type, FileType::Audio);
    let prefs = update_preferences("/prefs sha1 on", prefs);
    assert!(prefs.show_sha1);
    let prefs = update_preferences("/prefs preview-metadata off", prefs);
    assert!(!prefs.show_preview_metadata);
    let prefs = update_preferences("/prefs rich-previews on", prefs);
    assert!(prefs.rich_image_previews);
    let prefs = update_preferences("/prefs category-file-buttons on", prefs);
    assert!(prefs.category_file_buttons);
    let prefs = update_preferences("/prefs pagination off", prefs);
    assert!(!prefs.pagination_enabled);
    let prefs = update_preferences("/prefs inline 10", prefs);
    assert_eq!(prefs.inline_result_count, 10);
    let prefs = update_preferences("/settings ext webp", prefs);
    assert_eq!(prefs.extension, Some("webp".into()));
    let prefs = update_preferences("/settings ext avif", prefs);
    assert_eq!(prefs.extension, Some("webp".into()));
}

#[test]
fn updates_list_preferences_from_commands() {
    let prefs = update_preferences(
        "/settings favorite add Belarusian wooden churches",
        Preferences::default(),
    );
    assert_eq!(
        prefs.favorite_categories,
        vec!["Belarusian wooden churches"]
    );
    let prefs = update_preferences(
        "/settings favorite remove Belarusian wooden churches",
        prefs,
    );
    assert!(prefs.favorite_categories.is_empty());

    let prefs = update_preferences(
        "/settings blacklist-category add Bad scans",
        Preferences::default(),
    );
    assert_eq!(prefs.blacklist_categories, vec!["Bad scans"]);
    let prefs = update_preferences("/settings blacklist-category remove Bad scans", prefs);
    assert!(prefs.blacklist_categories.is_empty());

    let prefs = update_preferences(
        "/settings blacklist-user add Example_User",
        Preferences::default(),
    );
    assert_eq!(prefs.blacklist_uploaders, vec!["Example_User"]);
    let prefs = update_preferences("/settings blacklist-user remove Example_User", prefs);
    assert!(prefs.blacklist_uploaders.is_empty());

    let prefs = update_preferences("/settings category-counts on", Preferences::default());
    assert!(prefs.show_category_counts);
    let prefs = update_preferences("/settings filesize on", prefs);
    assert!(prefs.show_file_size);
    let prefs = update_preferences("/settings metadata off", prefs);
    assert!(!prefs.show_preview_metadata);
    let prefs = update_preferences("/settings rich off", prefs);
    assert!(!prefs.rich_image_previews);
    let prefs = update_preferences("/settings category-files images", prefs);
    assert!(!prefs.category_file_buttons);

    let prefs = update_preferences(
        "/settings ext off",
        Preferences {
            extension: Some("jpg".into()),
            ..Preferences::default()
        },
    );
    assert_eq!(prefs.extension, None);
}

#[test]
fn recognizes_settings_update_command() {
    assert!(is_preferences_update_command("/settings mode links10"));
    assert!(is_preferences_update_command("/prefs mode links10"));
    assert!(!is_preferences_update_command("/settings"));
}

#[test]
fn help_formats_search_examples_as_code() {
    let text = help_text(&test_config(false), &Preferences::default());
    assert!(
        text.contains("https://github.com/vitaly-zdanevich/bot_telegram_wikimedia_commons")
    );
    assert!(text.contains("License: MIT"));
    assert!(text.contains("Support: @vitaly_zdanevich"));
    assert!(text.contains("Search examples:\n<pre>Minsk"));
    assert!(text.contains("Катэгорыя Мінск</pre>"));
    assert!(text.contains("Rich previews can be enabled in /settings"));
    assert!(text.contains("Category buttons show category info first"));
    assert!(text.contains("Send your current Telegram location"));
}

#[test]
fn help_lists_favorite_categories_when_configured() {
    let text = help_text(
        &test_config(false),
        &Preferences {
            favorite_categories: vec!["Minsk".into(), "Brest Fortress".into()],
            ..Preferences::default()
        },
    );

    assert!(text.contains("Favorite categories: Minsk, Brest Fortress"));
}

#[test]
fn builds_preferences_keyboard_with_checks() {
    let prefs = Preferences {
        delivery_mode: DeliveryMode::Links10,
        file_type: FileType::Images,
        show_sha1: true,
        extension: Some("webp".into()),
        ..Preferences::default()
    };
    let keyboard = preferences_keyboard(&prefs, PreferencesView::Main);
    let labels = keyboard_labels(&keyboard);
    assert!(labels.contains(&"✅ Links10"));
    assert!(labels.contains(&"✅ Images"));
    assert!(labels.contains(&"✅ SHA-1"));
    assert!(labels.contains(&"✅ Preview metadata"));
    assert!(labels.contains(&"Category file buttons"));
    assert!(labels.contains(&"✅ Pagination"));
    assert!(labels.contains(&"✅ Inline 50"));
    assert!(labels.contains(&"Extension: webp"));
}

#[test]
fn renders_extension_keyboards_with_group_checks() {
    let prefs = Preferences {
        extension: Some("flac".into()),
        ..Preferences::default()
    };

    let menu = preferences_keyboard(&prefs, PreferencesView::ExtensionMenu);
    let menu_labels = keyboard_labels(&menu);
    assert!(menu_labels.contains(&"All extensions"));
    assert!(menu_labels.contains(&"Images"));
    assert!(menu_labels.contains(&"✅ Audio"));
    assert!(menu_labels.contains(&"Documents"));
    assert!(menu_labels.contains(&"Back"));

    let group = preferences_keyboard(
        &prefs,
        PreferencesView::ExtensionGroup(ExtensionGroup::Audio),
    );
    let group_labels = keyboard_labels(&group);
    assert!(group_labels.contains(&"✅ flac"));
    assert!(group_labels.contains(&"Clear extension"));
    assert!(group_labels.contains(&"Main"));
}

#[test]
fn applies_extension_callback() {
    let result = apply_preference_callback("ext:set:jpg", Preferences::default()).unwrap();
    assert!(result.changed);
    assert_eq!(result.preferences.extension, Some("jpg".into()));
    assert_eq!(
        result.view,
        PreferencesView::ExtensionGroup(ExtensionGroup::Images)
    );
    assert!(apply_preference_callback("ext:set:avif", Preferences::default()).is_none());
}

#[test]
fn extension_groups_map_supported_extensions() {
    assert_eq!(extension_group_for("jpg"), Some(ExtensionGroup::Images));
    assert_eq!(extension_group_for("flac"), Some(ExtensionGroup::Audio));
    assert_eq!(extension_group_for("webm"), Some(ExtensionGroup::Video));
    assert_eq!(extension_group_for("pdf"), Some(ExtensionGroup::Documents));
    assert_eq!(extension_group_for("stl"), Some(ExtensionGroup::Other));
    assert_eq!(extension_group_for("avif"), None);
}

#[test]
fn toggles_preview_metadata_callback() {
    let result =
        apply_preference_callback("toggle:preview-metadata", Preferences::default()).unwrap();
    assert!(result.changed);
    assert!(!result.preferences.show_preview_metadata);
}

#[test]
fn toggles_rich_previews_callback() {
    let result =
        apply_preference_callback("toggle:rich-previews", Preferences::default()).unwrap();
    assert!(result.changed);
    assert!(result.preferences.rich_image_previews);
}

#[test]
fn toggles_category_file_buttons_callback() {
    let result =
        apply_preference_callback("toggle:category-file-buttons", Preferences::default())
            .unwrap();
    assert!(result.changed);
    assert!(result.preferences.category_file_buttons);
}

#[test]
fn toggles_pagination_callback() {
    let result =
        apply_preference_callback("toggle:pagination", Preferences::default()).unwrap();

    assert!(result.changed);
    assert!(!result.preferences.pagination_enabled);
}

#[test]
fn applies_more_preference_callbacks() {
    let result =
        apply_preference_callback("toggle:category-counts", Preferences::default()).unwrap();
    assert!(result.changed);
    assert!(result.preferences.show_category_counts);

    let result = apply_preference_callback("toggle:sha1", Preferences::default()).unwrap();
    assert!(result.changed);
    assert!(result.preferences.show_sha1);

    let result = apply_preference_callback("toggle:filesize", Preferences::default()).unwrap();
    assert!(result.changed);
    assert!(result.preferences.show_file_size);

    let result = apply_preference_callback("mode:images10", Preferences::default()).unwrap();
    assert_eq!(result.preferences.delivery_mode, DeliveryMode::Images10);

    let result = apply_preference_callback("type:video", Preferences::default()).unwrap();
    assert_eq!(result.preferences.file_type, FileType::Video);

    let result = apply_preference_callback("pdf:rendered", Preferences::default()).unwrap();
    assert_eq!(result.preferences.pdf_mode, DocumentPageMode::RenderedPages);

    let result = apply_preference_callback("djvu:rendered", Preferences::default()).unwrap();
    assert_eq!(
        result.preferences.djvu_mode,
        DocumentPageMode::RenderedPages
    );

    let result =
        apply_preference_callback("ext:group:documents", Preferences::default()).unwrap();
    assert!(!result.changed);
    assert_eq!(
        result.view,
        PreferencesView::ExtensionGroup(ExtensionGroup::Documents)
    );

    let result = apply_preference_callback(
        "ext:set:jpg",
        Preferences {
            extension: Some("jpg".into()),
            ..Preferences::default()
        },
    )
    .unwrap();
    assert!(!result.changed);
    assert!(!result.render);

    assert!(apply_preference_callback("mode:bad", Preferences::default()).is_none());
}

#[test]
fn applies_inline_count_callback() {
    let result = apply_preference_callback("inline:10", Preferences::default()).unwrap();

    assert!(result.changed);
    assert_eq!(result.preferences.inline_result_count, 10);
}

#[test]
fn noops_preference_callback_when_value_is_already_selected() {
    let result = apply_preference_callback(
        "inline:20",
        Preferences {
            inline_result_count: 20,
            ..Preferences::default()
        },
    )
    .unwrap();
    assert!(!result.changed);
    assert!(!result.render);

    let result = apply_preference_callback("ext:off", Preferences::default()).unwrap();
    assert!(!result.changed);
    assert!(!result.render);
    assert_eq!(result.view, PreferencesView::ExtensionMenu);
}

#[test]
fn formats_preferences_with_storage_lists_and_commands() {
    let text = format_preferences(
        &Preferences {
            show_category_counts: true,
            delivery_mode: DeliveryMode::Images20,
            file_type: FileType::Audio,
            extension: Some("flac".into()),
            favorite_categories: vec!["Minsk".into()],
            blacklist_categories: vec!["Low quality scans".into()],
            blacklist_uploaders: vec!["Example_User".into()],
            show_sha1: true,
            show_file_size: true,
            inline_result_count: 10,
            ..Preferences::default()
        },
        &test_config(true),
    );

    assert!(text.contains("Preferences (stateless mode, not saved)"));
    assert!(text.contains("Mode: images20"));
    assert!(text.contains("File type: audio"));
    assert!(text.contains("Extension: flac"));
    assert!(text.contains("Rich previews: no"));
    assert!(text.contains("Category file buttons: no"));
    assert!(text.contains("Inline results: 10"));
    assert!(text.contains("Favorites: Minsk"));
    assert!(text.contains("Category blacklist: Low quality scans"));
    assert!(text.contains("Uploader blacklist: Example_User"));
    assert!(text.contains("/settings inline 10|20|50"));
    assert!(text.contains("/settings rich-previews on|off"));
    assert!(text.contains("/settings category-file-buttons on|off"));
}

#[test]
fn labels_show_checks_only_when_selected() {
    assert_eq!(checked_label(true, "Images"), "✅ Images");
    assert_eq!(checked_label(false, "Images"), "Images");
    assert_eq!(toggle_label(true, "Pagination"), "✅ Pagination");
    assert_eq!(toggle_label(false, "Pagination"), "Pagination");
}

#[test]
fn an_added_entry_can_be_removed() {
    let start = Preferences {
        favorite_categories: vec!["Brest".into()],
        ..Preferences::default()
    };
    let added = update_preferences("/settings favorite add Minsk", start);
    assert_eq!(added.favorite_categories, vec!["Brest", "Minsk"]);
    let again = update_preferences("/settings favorite add Minsk", added);
    assert_eq!(again.favorite_categories, vec!["Brest", "Minsk", "Minsk"]);
    let removed = update_preferences("/settings favorite remove Minsk", again);
    assert_eq!(removed.favorite_categories, vec!["Brest"]);
}

#[test]
fn short_and_unknown_commands_change_nothing() {
    for command in ["", "/settings", "/settings mode", "/settings mode bad", "/settings what on"] {
        assert_eq!(
            update_preferences(command, Preferences::default()),
            Preferences::default(),
            "{command}"
        );
    }
}

#[test]
fn groups_read_back() {
    for group in [
        ExtensionGroup::Images,
        ExtensionGroup::Audio,
        ExtensionGroup::Video,
        ExtensionGroup::Documents,
        ExtensionGroup::Other,
    ] {
        assert_eq!(ExtensionGroup::parse(group.callback_value()), Some(group));
        for ext in group.extensions() {
            assert!(group.contains(ext));
        }
    }
    assert_eq!(ExtensionGroup::parse("fonts"), None);
}

#[test]
fn a_switch_pressed_twice_is_as_before() {
    for action in [
        "toggle:sha1",
        "toggle:filesize",
        "toggle:category-counts",
        "toggle:preview-metadata",
        "toggle:rich-previews",
        "toggle:category-file-buttons",
        "toggle:pagination",
    ] {
        let once = apply_preference_callback(action, Preferences::default()).unwrap();
        assert_ne!(once.preferences, Preferences::default());
        let twice = apply_preference_callback(action, once.preferences).unwrap();
        assert_eq!(twice.preferences, Preferences::default());
    }
}

#[test]
fn a_callback_without_change_keeps_the_preferences() {
    for action in ["mode:buttons", "type:all", "pdf:original", "inline:50", "ext:menu"] {
        if let Some(result) = apply_preference_callback(action, Preferences::default()) {
            assert!(!result.changed, "{action}");
            assert_eq!(result.preferences, Preferences::default());
        }
    }
    assert!(apply_preference_callback("nothing", Preferences::default()).is_none());
}

#[test]
fn every_button_of_the_menus_is_understood() {
    let chosen = Preferences {
        extension: Some("webm".into()),
        inline_result_count: 10,
        ..Preferences::default()
    };
    for preferences in [Preferences::default(), chosen] {
        for view in [
            PreferencesView::Main,
            PreferencesView::ExtensionMenu,
            PreferencesView::ExtensionGroup(ExtensionGroup::Images),
            PreferencesView::ExtensionGroup(ExtensionGroup::Audio),
            PreferencesView::ExtensionGroup(ExtensionGroup::Video),
            PreferencesView::ExtensionGroup(ExtensionGroup::Documents),
            PreferencesView::ExtensionGroup(ExtensionGroup::Other),
        ] {
            for row in preferences_keyboard(&preferences, view).inline_keyboard {
                for button in row {
                    let data = button.callback_data.unwrap();
                    let action = data.strip_prefix("pref:").unwrap();
                    assert!(
                        apply_preference_callback(action, preferences.clone()).is_some(),
                        "{data}"
                    );
                }
            }
        }
    }
}
