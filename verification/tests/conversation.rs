//! Updates as conversations.

use commons_bot::config::Config;
use commons_bot::conversation::{Action, Conversation, Event, Keep, Part};
use commons_bot::models::{CategoryHit, CategoryInfo, DeliveryMode, FileHit, Preferences};
use commons_bot::pagination::PaginatedPage;
use commons_bot::telegram::{
    CallbackQuery, Chat, InlineQuery, Location, Message, Update, User,
};

fn config() -> Config {
    Config::from_env_lookup(&vec![
        ("ADMIN_TELEGRAM_USER_IDS".to_string(), "9".to_string()),
        ("TELEGRAM_BOT_TOKEN".to_string(), "12:ab".to_string()),
    ])
}

fn message(text: &str) -> Update {
    Update {
        update_id: Some(1),
        message: Some(Message {
            message_id: Some(3),
            chat: Chat { id: 5 },
            from: Some(User { id: 9 }),
            text: Some(text.to_string()),
            location: None,
        }),
        callback_query: None,
        inline_query: None,
    }
}

fn callback(data: &str) -> Update {
    Update {
        update_id: Some(2),
        message: None,
        callback_query: Some(CallbackQuery {
            id: "call".into(),
            from: User { id: 9 },
            message: Some(Message {
                message_id: Some(3),
                chat: Chat { id: 5 },
                from: None,
                text: None,
                location: None,
            }),
            data: Some(data.to_string()),
        }),
        inline_query: None,
    }
}

fn inline(query: &str) -> Update {
    Update {
        update_id: Some(3),
        message: None,
        callback_query: None,
        inline_query: Some(InlineQuery {
            id: "inline".into(),
            from: User { id: 9 },
            query: query.to_string(),
            offset: String::new(),
            location: None,
        }),
    }
}

fn file(page_id: u64) -> FileHit {
    FileHit {
        page_id,
        title: format!("File:{page_id}.jpg"),
        file_name: format!("{page_id}.jpg"),
        mime: Some("image/jpeg".into()),
        url: Some(format!("https://u/{page_id}.jpg")),
        thumb_url: Some(format!("https://t/{page_id}.jpg")),
        description_url: Some(format!("https://d/{page_id}")),
        ..FileHit::default()
    }
}

fn category(page_id: u64) -> CategoryHit {
    CategoryHit {
        page_id,
        title: format!("Category:{page_id}"),
        display_title: page_id.to_string(),
        file_count: None,
    }
}

fn answer(action: &Action, preferences: &Preferences) -> Event {
    match action {
        Action::LoadPreferences { .. } => Event::Loaded(preferences.clone()),
        Action::LoadStats => Event::Stats("calls: 1".into()),
        Action::FindNearbyCategories { .. } | Action::FindCategories { .. } => {
            Event::Categories(vec![category(1), category(2)])
        }
        Action::CountFiles { titles } => {
            Event::Counts(titles.iter().map(|_| Some(4)).collect())
        }
        Action::FindFiles { .. } | Action::FindNearbyFiles { .. } => {
            Event::Files(vec![file(1), file(2)])
        }
        Action::OpenFile { page_id } => Event::File(Some(file(*page_id))),
        Action::OpenCategory { page_id, .. } => Event::Category(CategoryInfo {
            page_id: *page_id,
            title: "Category:Minsk".into(),
            wikidata_item: Some("Q2280".into()),
            files: vec![file(1)],
            subcategories: vec![category(3)],
            ..CategoryInfo::default()
        }),
        Action::LoadClaims { .. } => Event::Claims("claims".into()),
        Action::FetchFilePage { page_index, .. } => Event::FilePage(Some(PaginatedPage {
            items: vec![file(1)],
            page_index: *page_index,
            total_pages: 3,
            total_items: 41,
        })),
        Action::FetchCategoryPage { page_index, .. } => {
            Event::CategoryPage(Some(PaginatedPage {
                items: vec![category(1)],
                page_index: *page_index,
                total_pages: 3,
                total_items: 41,
            }))
        }
        _ => Event::Done,
    }
}

fn play(update: Update, preferences: &Preferences) -> Vec<Action> {
    let config = config();
    let mut conversation = Conversation::new(update);
    let mut actions = vec![conversation.begin(&config)];
    loop {
        let last = actions.last().unwrap();
        if matches!(last, Action::Finish | Action::Fail { .. }) {
            return actions;
        }
        assert!(actions.len() < 40, "the conversation goes on");
        let event = answer(last, preferences);
        actions.push(conversation.step(event, &config));
    }
}

fn names(actions: &[Action]) -> Vec<String> {
    actions
        .iter()
        .map(|action| {
            format!("{action:?}")
                .chars()
                .take_while(|c| c.is_alphanumeric())
                .collect()
        })
        .collect()
}

fn sent_texts(actions: &[Action]) -> Vec<String> {
    actions
        .iter()
        .filter_map(|action| match action {
            Action::Send { reply, .. } => Some(reply.text.clone()),
            _ => None,
        })
        .collect()
}

#[test]
fn help_is_sent() {
    let actions = play(message("/help"), &Preferences::default());
    assert_eq!(names(&actions), vec!["ShowTyping", "LoadPreferences", "Send", "Finish"]);
    assert!(sent_texts(&actions)[0].contains("Wikimedia Commons bot"));
}

#[test]
fn an_unknown_update_ends_at_once() {
    let update = Update {
        update_id: None,
        message: None,
        callback_query: None,
        inline_query: None,
    };
    assert_eq!(names(&play(update, &Preferences::default())), vec!["Finish"]);
}

#[test]
fn statistics_are_for_admins() {
    let actions = play(message("/stats"), &Preferences::default());
    assert!(names(&actions).contains(&"LoadStats".to_string()));
    let mut update = message("/stats");
    update.message.as_mut().unwrap().from = Some(User { id: 10 });
    let actions = play(update, &Preferences::default());
    assert!(!names(&actions).contains(&"LoadStats".to_string()));
}

#[test]
fn a_search_shows_buttons() {
    let actions = play(message("flac Minsk"), &Preferences::default());
    assert!(names(&actions).contains(&"FindFiles".to_string()));
    let rows = actions
        .iter()
        .find_map(|action| match action {
            Action::Send { reply, .. } => reply.rows.as_ref(),
            _ => None,
        })
        .unwrap();
    assert_eq!(rows[0][0].callback_data.as_deref(), Some("file:1"));
}

#[test]
fn a_search_shows_previews() {
    let preferences = Preferences {
        delivery_mode: DeliveryMode::Images10,
        ..Preferences::default()
    };
    let actions = play(message("Minsk"), &preferences);
    assert!(actions.iter().any(|action| matches!(
        action,
        Action::SendPreviews { chat_id: 5, files, max_images: 10 } if files.len() == 2
    )));
}

#[test]
fn categories_come_with_their_counts() {
    let preferences = Preferences {
        show_category_counts: true,
        ..Preferences::default()
    };
    let actions = play(message("c minsk"), &preferences);
    assert!(names(&actions).contains(&"CountFiles".to_string()));
    let rows = actions
        .iter()
        .find_map(|action| match action {
            Action::Send { reply, .. } => reply.rows.as_ref(),
            _ => None,
        })
        .unwrap();
    assert!(rows[0][0].text.contains('4'));
}

#[test]
fn settings_are_stored_and_shown() {
    let actions = play(message("/settings mode images20"), &Preferences::default());
    assert!(names(&actions).contains(&"StorePreferences".to_string()));
    let actions = play(callback("pref:mode:images20"), &Preferences::default());
    assert!(names(&actions).contains(&"StorePreferences".to_string()));
}

#[test]
fn a_place_shows_categories_around_it() {
    let mut update = message("x");
    let sent = update.message.as_mut().unwrap();
    sent.text = None;
    sent.location = Some(Location {
        latitude: "53.9".into(),
        longitude: "27.5".into(),
        latitude_short: "53.900000".into(),
        longitude_short: "27.500000".into(),
    });
    let actions = play(update, &Preferences::default());
    assert!(names(&actions).contains(&"FindNearbyCategories".to_string()));
}

#[test]
fn a_file_button_sends_the_original() {
    let actions = play(callback("file:7"), &Preferences::default());
    assert!(actions.iter().any(|action| matches!(
        action,
        Action::SendOriginal { chat_id: 5, file, .. } if file.page_id == 7
    )));
}

#[test]
fn a_category_button_shows_the_category() {
    let actions = play(callback("cat:7"), &Preferences::default());
    assert!(names(&actions).contains(&"OpenCategory".to_string()));
    assert!(sent_texts(&actions).iter().any(|text| text.contains("claims")));
}

#[test]
fn page_buttons_edit_the_message() {
    let actions = play(callback("pg:f:abc:1"), &Preferences::default());
    assert!(actions.iter().any(|action| matches!(
        action,
        Action::Send { chat_id: 5, message_id: Some(3), .. }
    )));
    let actions = play(callback("pg:c:abc:1"), &Preferences::default());
    assert!(names(&actions).contains(&"FetchCategoryPage".to_string()));
}

#[test]
fn long_lists_are_kept() {
    let config = config();
    let mut conversation = Conversation::new(message("Minsk"));
    let mut action = conversation.begin(&config);
    loop {
        if let Action::Send { keep: Keep::Files { files, .. }, .. } = &action {
            assert_eq!(files.len(), 30);
            break;
        }
        assert!(!matches!(action, Action::Finish | Action::Fail { .. }));
        let event = match &action {
            Action::FindFiles { .. } => Event::Files((0..30).map(file).collect()),
            other => answer(other, &Preferences::default()),
        };
        action = conversation.step(event, &config);
    }
}

#[test]
fn inline_queries_are_answered() {
    let actions = play(inline("Minsk"), &Preferences::default());
    assert!(actions.iter().any(|action| matches!(
        action,
        Action::AnswerInline { results, .. } if results.len() == 2
    )));
}

#[test]
fn a_slow_inline_query_gets_an_empty_answer() {
    let config = config();
    let mut conversation = Conversation::new(inline("Minsk"));
    let mut action = conversation.begin(&config);
    assert_eq!(conversation.part(), Part::Inline);
    while !matches!(action, Action::FindFiles { .. }) {
        assert!(!matches!(action, Action::Finish | Action::Fail { .. }));
        action = conversation.step(answer(&action, &Preferences::default()), &config);
    }
    match conversation.step(Event::TimedOut, &config) {
        Action::AnswerInline { results, query_id, .. } => {
            assert!(results.is_empty());
            assert_eq!(query_id, "inline");
        }
        other => panic!("expected an answer, got {other:?}"),
    }
}

#[test]
fn everything_is_sent_to_the_asking_chat() {
    for update in [
        message("/help"),
        message("Minsk"),
        message("c minsk"),
        message("/settings"),
        callback("file:7"),
        callback("cat:7"),
        callback("pg:f:abc:1"),
        callback("pref:toggle:sha1"),
    ] {
        for action in play(update, &Preferences::default()) {
            match action {
                Action::ShowTyping { chat_id }
                | Action::Send { chat_id, .. }
                | Action::SendPreviews { chat_id, .. }
                | Action::SendOriginal { chat_id, .. } => assert_eq!(chat_id, 5),
                _ => {}
            }
        }
    }
}

#[test]
fn failures_of_a_search_end_the_conversation() {
    let config = config();
    let mut conversation = Conversation::new(message("Minsk"));
    let mut action = conversation.begin(&config);
    while !matches!(action, Action::FindFiles { .. }) {
        assert!(!matches!(action, Action::Finish | Action::Fail { .. }));
        action = conversation.step(answer(&action, &Preferences::default()), &config);
    }
    match conversation.step(Event::Failed("Commons is away".into()), &config) {
        Action::Fail { reason } => assert_eq!(reason, "Commons is away"),
        other => panic!("expected a failure, got {other:?}"),
    }
}

#[test]
fn without_a_token_nothing_is_done() {
    let config = Config::from_env_lookup(&vec![]);
    let mut conversation = Conversation::new(message("/help"));
    match conversation.begin(&config) {
        Action::Fail { reason } => assert_eq!(reason, "TELEGRAM_BOT_TOKEN is required"),
        other => panic!("expected a failure, got {other:?}"),
    }
}
